//! Components of the software catalogue, read from what the catalogue's
//! tool prints.

use vstd::prelude::*;
use vstd::string::*;

use crate::models::option_text;
use crate::paths::join_path;
use crate::paths::joined_path;
use crate::paths::lies_in;
use crate::text::bounds_within;
use crate::text::chars_of;
use crate::text::contains;
use crate::text::has_infix;
use crate::text::line_bounds;
use crate::text::lines_of;
use crate::text::parts_of;
use crate::text::same_text;
use crate::text::sub_chars;
use crate::text::text_of;
use crate::text::texts;
use crate::text::trim_chars;
use crate::text::trimmed;

verus! {

/// A parsed document of the catalogue's tool. Numbers are kept as such
/// without their value, which nothing here reads.
#[derive(Debug, PartialEq, Eq)]
pub enum Json {
    Null,
    Bool(bool),
    Number,
    Text(String),
    Array(Vec<Json>),
    Object(Vec<(String, Json)>),
}

/// What a [`Json`] holds, as plain values.
pub enum JsonModel {
    Null,
    Bool(bool),
    Number,
    Text(Seq<char>),
    Array(Seq<JsonModel>),
    Object(Seq<(Seq<char>, JsonModel)>),
}

/// What `document` holds, as plain values.
pub open spec fn json_model(document: Json) -> JsonModel
    decreases document,
{
    match document {
        Json::Null => JsonModel::Null,
        Json::Bool(b) => JsonModel::Bool(b),
        Json::Number => JsonModel::Number,
        Json::Text(text) => JsonModel::Text(text@),
        Json::Array(items) => JsonModel::Array(
            Seq::new(
                items.len() as nat,
                |i: int|
                    if 0 <= i < items.len() {
                        json_model(items[i])
                    } else {
                        JsonModel::Null
                    },
            ),
        ),
        Json::Object(members) => JsonModel::Object(
            Seq::new(
                members.len() as nat,
                |i: int|
                    if 0 <= i < members.len() {
                        (members[i].0@, json_model(members[i].1))
                    } else {
                        (Seq::empty(), JsonModel::Null)
                    },
            ),
        ),
    }
}

impl View for Json {
    type V = JsonModel;

    open spec fn view(&self) -> JsonModel {
        json_model(*self)
    }
}

/// The value of the first member of `members` that is called `key`.
pub open spec fn first_member(members: Seq<(Seq<char>, JsonModel)>, key: Seq<char>) -> Option<
    JsonModel,
>
    decreases members.len(),
{
    if members.len() == 0 {
        None
    } else if members[0].0 == key {
        Some(members[0].1)
    } else {
        first_member(members.drop_first(), key)
    }
}

impl JsonModel {
    /// The member `key` of an object; `None` for what is no object or has
    /// no such member.
    pub open spec fn member(self, key: Seq<char>) -> Option<JsonModel> {
        match self {
            JsonModel::Object(members) => first_member(members, key),
            _ => None,
        }
    }

    /// The text of a string; `None` for what is no string.
    pub open spec fn as_text(self) -> Option<Seq<char>> {
        match self {
            JsonModel::Text(text) => Some(text),
            _ => None,
        }
    }

    /// The items of an array; `None` for what is no array.
    pub open spec fn as_array(self) -> Option<Seq<JsonModel>> {
        match self {
            JsonModel::Array(items) => Some(items),
            _ => None,
        }
    }

    /// The text of the member `key`, where there is such a member and it is
    /// a string.
    pub open spec fn text_member(self, key: Seq<char>) -> Option<Seq<char>> {
        match self.member(key) {
            Some(value) => value.as_text(),
            None => None,
        }
    }

    /// The items of the member `key`, where there is such a member and it
    /// is an array.
    pub open spec fn array_member(self, key: Seq<char>) -> Option<Seq<JsonModel>> {
        match self.member(key) {
            Some(value) => value.as_array(),
            None => None,
        }
    }
}

/// The text of the member `key` of the first of `items` that has one.
pub open spec fn first_text(items: Seq<JsonModel>, key: Seq<char>) -> Option<Seq<char>>
    decreases items.len(),
{
    if items.len() == 0 {
        None
    } else {
        match items[0].text_member(key) {
            Some(text) => Some(text),
            None => first_text(items.drop_first(), key),
        }
    }
}

/// The address of a screenshot: that of the first of its images that has
/// one.
pub open spec fn screenshot_url(shot: JsonModel) -> Option<Seq<char>> {
    match shot.array_member("images"@) {
        Some(images) => first_text(images, "url"@),
        None => None,
    }
}

/// The addresses of the screenshots among `shots` that have one, in order.
pub open spec fn screenshot_urls(shots: Seq<JsonModel>) -> Seq<Seq<char>>
    decreases shots.len(),
{
    if shots.len() == 0 {
        Seq::empty()
    } else {
        match screenshot_url(shots.last()) {
            Some(url) => screenshot_urls(shots.drop_last()).push(url),
            None => screenshot_urls(shots.drop_last()),
        }
    }
}

/// A component of the software catalogue.
#[derive(Debug, PartialEq, Eq)]
pub struct AppStreamComponent {
    pub id: String,
    pub summary: Option<String>,
    pub icon_name: Option<String>,
    pub screenshots: Vec<String>,
}

/// What an [`AppStreamComponent`] holds, as plain values.
pub struct ComponentModel {
    pub id: Seq<char>,
    pub summary: Option<Seq<char>>,
    pub icon_name: Option<Seq<char>>,
    pub screenshots: Seq<Seq<char>>,
}

impl View for AppStreamComponent {
    type V = ComponentModel;

    open spec fn view(&self) -> ComponentModel {
        ComponentModel {
            id: self.id@,
            summary: option_text(self.summary),
            icon_name: option_text(self.icon_name),
            screenshots: texts(self.screenshots@),
        }
    }
}

impl Clone for AppStreamComponent {
    fn clone(&self) -> (r: Self)
        ensures
            r@ == self@,
    {
        AppStreamComponent {
            id: self.id.clone(),
            summary: crate::models::clone_option(&self.summary),
            icon_name: crate::models::clone_option(&self.icon_name),
            screenshots: crate::models::clone_strings(&self.screenshots),
        }
    }
}

/// The model of an optional component.
pub open spec fn option_component(o: Option<AppStreamComponent>) -> Option<ComponentModel> {
    match o {
        Some(component) => Some(component@),
        None => None,
    }
}

/// The component that a document of the catalogue's tool describes: the
/// first of its `components`, which must have an `id`. Its icon is the first
/// of its `icons` with a `name`; its screenshots are those of its
/// `screenshots` that have an image with a `url`.
pub open spec fn component_of(document: JsonModel) -> Option<ComponentModel> {
    match document.array_member("components"@) {
        None => None,
        Some(components) => if components.len() == 0 {
            None
        } else {
            match components[0].text_member("id"@) {
                None => None,
                Some(id) => Some(
                    ComponentModel {
                        id,
                        summary: components[0].text_member("summary"@),
                        icon_name: match components[0].array_member("icons"@) {
                            Some(icons) => first_text(icons, "name"@),
                            None => None,
                        },
                        screenshots: match components[0].array_member("screenshots"@) {
                            Some(shots) => screenshot_urls(shots),
                            None => Seq::empty(),
                        },
                    },
                ),
            }
        },
    }
}

/// Whether a line, trimmed, names a component: it holds `.desktop` or
/// `.metainfo`.
pub open spec fn names_component(line: Seq<char>) -> bool {
    has_infix(line, "."@) && (has_infix(line, ".desktop"@) || has_infix(line, ".metainfo"@))
}

/// The component that the plain answer of the catalogue's tool names: the
/// first of its lines that, trimmed, names one.
pub open spec fn component_in(lines: Seq<Seq<char>>) -> Option<ComponentModel>
    decreases lines.len(),
{
    if lines.len() == 0 {
        None
    } else if names_component(trimmed(lines[0])) {
        Some(
            ComponentModel {
                id: trimmed(lines[0]),
                summary: None,
                icon_name: None,
                screenshots: Seq::empty(),
            },
        )
    } else {
        component_in(lines.drop_first())
    }
}

impl Json {
    /// The member `key` of an object.
    pub fn get(&self, key: &str) -> (r: Option<&Json>)
        ensures
            match r {
                Some(value) => self@.member(key@) == Some(value@),
                None => self@.member(key@) is None,
            },
    {
        match self {
            Json::Object(members) => {
                let ghost all = self@->Object_0;
                let mut i: usize = 0;
                assert(all.skip(0) =~= all);
                while i < members.len()
                    invariant
                        i <= members.len(),
                        self@ == JsonModel::Object(all),
                        all.len() == members.len(),
                        forall|k: int|
                            0 <= k < members.len() ==> all[k] == (members[k].0@, members[k].1@),
                        first_member(all.skip(i as int), key@) == first_member(all, key@),
                    decreases members.len() - i,
                {
                    assert(all.skip(i as int)[0] == all[i as int]);
                    assert(all.skip(i as int).drop_first() =~= all.skip(i + 1));
                    if same_text(members[i].0.as_str(), key) {
                        return Some(&members[i].1);
                    }
                    i += 1;
                }
                None
            },
            _ => None,
        }
    }

    /// The text of a string.
    pub fn as_str(&self) -> (r: Option<&String>)
        ensures
            match r {
                Some(text) => self@.as_text() == Some(text@),
                None => self@.as_text() is None,
            },
    {
        match self {
            Json::Text(text) => Some(text),
            _ => None,
        }
    }

    /// The items of an array.
    pub fn as_array(&self) -> (r: Option<&Vec<Json>>)
        ensures
            match r {
                Some(items) => self@.as_array() == Some(json_models(items@)),
                None => self@.as_array() is None,
            },
    {
        match self {
            Json::Array(items) => {
                assert(self@->Array_0 =~= json_models(items@));
                Some(items)
            },
            _ => None,
        }
    }

    /// The text of the member `key`, where there is such a member and it is
    /// a string.
    pub fn text_member(&self, key: &str) -> (r: Option<String>)
        ensures
            option_text(r) == self@.text_member(key@),
    {
        match self.get(key) {
            Some(value) => match value.as_str() {
                Some(text) => Some(text.clone()),
                None => None,
            },
            None => None,
        }
    }

    /// The items of the member `key`, where there is such a member and it
    /// is an array.
    pub fn array_member(&self, key: &str) -> (r: Option<&Vec<Json>>)
        ensures
            match r {
                Some(items) => self@.array_member(key@) == Some(json_models(items@)),
                None => self@.array_member(key@) is None,
            },
    {
        match self.get(key) {
            Some(value) => value.as_array(),
            None => None,
        }
    }
}

/// The models of a sequence of documents.
pub open spec fn json_models(v: Seq<Json>) -> Seq<JsonModel> {
    Seq::new(v.len(), |i: int| v[i]@)
}

fn find_text(items: &Vec<Json>, key: &str) -> (r: Option<String>)
    ensures
        option_text(r) == first_text(json_models(items@), key@),
{
    let ghost all = json_models(items@);
    let mut i: usize = 0;
    assert(all.skip(0) =~= all);
    while i < items.len()
        invariant
            i <= items.len(),
            all == json_models(items@),
            first_text(all.skip(i as int), key@) == first_text(all, key@),
        decreases items.len() - i,
    {
        assert(all.skip(i as int)[0] == items@[i as int]@);
        assert(all.skip(i as int).drop_first() =~= all.skip(i + 1));
        match items[i].text_member(key) {
            Some(text) => {
                return Some(text);
            },
            None => {},
        }
        i += 1;
    }
    None
}

/// The catalogue of software components.
#[derive(Debug, Clone, Copy)]
pub struct AppStreamClient;

impl Default for AppStreamClient {
    fn default() -> (r: Self)
        ensures
            r == AppStreamClient,
    {
        AppStreamClient
    }
}

impl AppStreamClient {
    /// The arguments with which the catalogue's tool searches for `name`.
    pub fn search_args(name: &str) -> (r: Vec<String>)
        ensures
            texts(r@) == seq!["search"@, name@, "--format=json"@],
    {
        let mut args: Vec<String> = Vec::new();
        args.push(String::from_str("search"));
        args.push(String::from_str(name));
        args.push(String::from_str("--format=json"));
        assert(texts(args@) =~= seq!["search"@, name@, "--format=json"@]);
        args
    }

    /// The arguments with which the catalogue's tool describes the
    /// component `id`.
    pub fn get_args(id: &str) -> (r: Vec<String>)
        ensures
            texts(r@) == seq!["get"@, id@, "--format=json"@],
    {
        let mut args: Vec<String> = Vec::new();
        args.push(String::from_str("get"));
        args.push(String::from_str(id));
        args.push(String::from_str("--format=json"));
        assert(texts(args@) =~= seq!["get"@, id@, "--format=json"@]);
        args
    }

    /// The component that a document of the catalogue's tool describes.
    pub fn component_from_json(document: &Json) -> (r: Option<AppStreamComponent>)
        ensures
            option_component(r) == component_of(document@),
    {
        let components = match document.array_member("components") {
            Some(components) => components,
            None => {
                return None;
            },
        };
        if components.len() == 0 {
            return None;
        }
        let component = &components[0];
        assert(json_models(components@)[0] == component@);
        let id = match component.text_member("id") {
            Some(id) => id,
            None => {
                return None;
            },
        };
        let summary = component.text_member("summary");
        let icon_name = match component.array_member("icons") {
            Some(icons) => find_text(icons, "name"),
            None => None,
        };
        let mut screenshots: Vec<String> = Vec::new();
        assert(texts(screenshots@) =~= Seq::<Seq<char>>::empty());
        match component.array_member("screenshots") {
            Some(shots) => {
                let ghost all = json_models(shots@);
                let mut i: usize = 0;
                assert(all.take(0) =~= Seq::<JsonModel>::empty());
                while i < shots.len()
                    invariant
                        i <= shots.len(),
                        all == json_models(shots@),
                        texts(screenshots@) == screenshot_urls(all.take(i as int)),
                    decreases shots.len() - i,
                {
                    proof {
                        assert(all.take(i + 1).drop_last() =~= all.take(i as int));
                        assert(all.take(i + 1).last() == shots@[i as int]@);
                    }
                    let url = match shots[i].array_member("images") {
                        Some(images) => find_text(images, "url"),
                        None => None,
                    };
                    match url {
                        Some(url) => {
                            let ghost before = texts(screenshots@);
                            let ghost text = url@;
                            screenshots.push(url);
                            assert(texts(screenshots@) =~= before.push(text));
                        },
                        None => {},
                    }
                    i += 1;
                }
                assert(all.take(i as int) =~= all);
            },
            None => {},
        }
        Some(AppStreamComponent { id, summary, icon_name, screenshots })
    }

    /// The component that the plain answer of the catalogue's tool names.
    pub fn component_from_text(text: &str) -> (r: Option<AppStreamComponent>)
        ensures
            option_component(r) == component_in(lines_of(text@)),
    {
        let chars = chars_of(text);
        let bounds = line_bounds(chars.as_slice());
        let ghost lines = lines_of(text@);
        let dot = chars_of(".");
        let desktop = chars_of(".desktop");
        let metainfo = chars_of(".metainfo");
        let mut i: usize = 0;
        assert(lines.skip(0) =~= lines);
        while i < bounds.len()
            invariant
                i <= bounds.len(),
                chars@ == text@,
                lines == lines_of(text@),
                dot@ == "."@,
                desktop@ == ".desktop"@,
                metainfo@ == ".metainfo"@,
                bounds_within(bounds@, chars@.len()),
                parts_of(chars@, bounds@) == lines,
                component_in(lines.skip(i as int)) == component_in(lines),
            decreases bounds.len() - i,
        {
            assert(bounds@[i as int].0 <= bounds@[i as int].1 <= chars@.len());
            let line = trim_chars(sub_chars(chars.as_slice(), bounds[i].0, bounds[i].1).as_slice());
            proof {
                assert(lines.skip(i as int)[0] == lines[i as int]);
                assert(lines.skip(i as int).drop_first() =~= lines.skip(i + 1));
            }
            if contains(line.as_slice(), dot.as_slice()) && (contains(
                line.as_slice(),
                desktop.as_slice(),
            ) || contains(line.as_slice(), metainfo.as_slice())) {
                let r = AppStreamComponent {
                    id: text_of(line.as_slice()),
                    summary: None,
                    icon_name: None,
                    screenshots: Vec::new(),
                };
                assert(texts(r.screenshots@) =~= Seq::<Seq<char>>::empty());
                return Some(r);
            }
            i += 1;
        }
        None
    }
}


/// The last segment of the path of `address` when it is read as an absolute
/// URL; `None` when it is no such URL, or one whose path has no segments.
pub uninterp spec fn last_path_segment(address: Seq<char>) -> Option<Seq<char>>;

/// `Url::parse` of the crate `url`, and then `Url::path_segments` with the
/// last of the segments it yields. The contract claims that the result is a
/// function of the address, which [`last_path_segment`] names, and that a
/// segment holds no `/`, the character at which the path is split.
#[verifier::external_body]
fn url_file_name(address: &str) -> (r: Option<String>)
    ensures
        option_text(r) == last_path_segment(address@),
        r matches Some(name) ==> !name@.contains('/'),
{
    let parsed = url::Url::parse(address).ok()?;
    let name = parsed.path_segments()?.last()?.to_string();
    Some(name)
}

/// Where the file behind `address` is kept once it was fetched: in
/// `directory`, under the last segment of the address's path.
pub open spec fn cached_file(address: Seq<char>, directory: Seq<char>) -> Option<Seq<char>> {
    match last_path_segment(address) {
        Some(name) => Some(joined_path(directory, name)),
        None => None,
    }
}

/// Where in `directory` the file called `name` is kept, `name` being the
/// last segment of an address, if it has one.
pub fn cached_path_for_name(name: Option<&str>, directory: &str) -> (r: Option<String>)
    ensures
        option_text(r) == match name {
            Some(name) => Some(joined_path(directory@, name@)),
            None => None,
        },
{
    match name {
        Some(name) => Some(join_path(directory, name)),
        None => None,
    }
}

impl AppStreamClient {
    /// Where the file behind `address` is kept once it was fetched, with
    /// `directory` as the directory of the cache; `None` for an address that
    /// names no file. The place lies in the directory itself: an address
    /// cannot lead out of it or below it.
    pub fn cached_path_for_url(address: &str, directory: &str) -> (r: Option<String>)
        ensures
            option_text(r) == cached_file(address@, directory@),
            r matches Some(path) ==> lies_in(path@, directory@),
    {
        match url_file_name(address) {
            Some(name) => cached_path_for_name(Some(name.as_str()), directory),
            None => cached_path_for_name(None, directory),
        }
    }
}


impl AppStreamClient {
    /// The component that the answer to a search names: the one its
    /// document describes where the answer is a document, else the one that
    /// its plain text names.
    pub fn search_component(document: Option<&Json>, text: &str) -> (r: Option<AppStreamComponent>)
        ensures
            option_component(r) == match document {
                Some(found) => component_of(found@),
                None => component_in(lines_of(text@)),
            },
    {
        match document {
            Some(found) => Self::component_from_json(found),
            None => Self::component_from_text(text),
        }
    }

    /// The component that the answer to a request for one component
    /// describes, which has to be a document.
    pub fn get_component(document: Option<&Json>) -> (r: Option<AppStreamComponent>)
        ensures
            option_component(r) == match document {
                Some(found) => component_of(found@),
                None => None,
            },
    {
        match document {
            Some(found) => Self::component_from_json(found),
            None => None,
        }
    }
}

} // verus!
