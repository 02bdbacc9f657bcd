//! The three package sources, and reading what their tools print.

use vstd::prelude::*;

use crate::models::DetailsModel;
use crate::models::option_text;
use crate::models::PackageDetails;
use crate::models::PackageSource;
use crate::models::PackageSummary;
use crate::models::SummaryModel;
use crate::text::chars_of;
use crate::text::field;
use crate::text::line_bounds;
use crate::text::lines_of;
use crate::text::nth_field;
use crate::text::nth_piece;
use crate::text::nth_word;
use crate::text::parts_of;
use crate::text::piece;
use crate::text::same_chars;
use crate::text::split_at_first;
use crate::text::split_once;
use crate::text::sub_chars;
use crate::text::text_of;
use crate::text::texts;
use crate::text::trim_chars;
use crate::text::trimmed;
use crate::text::word;

pub mod aur;
pub mod flatpak;
pub mod pacman;

verus! {

/// Why a package source gave no answer.
#[derive(Debug, PartialEq, Eq)]
pub struct ProviderError {
    pub message: String,
}

/// The system repository.
pub trait PacmanProvider: Send + Sync {
    fn search(&self, query: &str) -> Result<Vec<PackageSummary>, ProviderError>;

    fn info_repo(&self, name: &str) -> Result<PackageDetails, ProviderError>;

    fn info_installed(&self, name: &str) -> Result<PackageDetails, ProviderError>;

    fn list_installed(&self) -> Result<Vec<PackageSummary>, ProviderError>;
}

/// The community repository.
pub trait AurProvider: Send + Sync {
    fn search(&self, query: &str) -> Result<Vec<PackageSummary>, ProviderError>;

    fn info(&self, name: &str) -> Result<PackageDetails, ProviderError>;
}

/// The sandboxed-app manager.
pub trait FlatpakProvider: Send + Sync {
    fn search(&self, query: &str) -> Result<Vec<PackageSummary>, ProviderError>;

    fn info(&self, name: &str) -> Result<PackageDetails, ProviderError>;

    fn list_installed(&self) -> Result<Vec<PackageSummary>, ProviderError>;
}

/// The models of a sequence of summaries.
pub open spec fn summary_models(v: Seq<PackageSummary>) -> Seq<SummaryModel> {
    Seq::new(v.len(), |i: int| v[i]@)
}

/// The name of a package written as `repository/name`: what stands between
/// the first and the second `/`; the whole text when it holds no `/`.
pub open spec fn package_name(qualified: Seq<char>) -> Seq<char> {
    match piece(qualified, '/', 1) {
        Some(name) => name,
        None => qualified,
    }
}

/// The search result that a header line and the line below it make up: the
/// header's first word names the package, its second is the version, and the
/// line below is the summary.
pub open spec fn search_entry(header: Seq<char>, below: Seq<char>, source: PackageSource) -> SummaryModel {
    SummaryModel {
        name: package_name(word(trimmed(header), 0)),
        summary: trimmed(below),
        version: word(trimmed(header), 1),
        source,
        installed: false,
        origin: None,
    }
}

/// The search results that `lines` hold. Blank lines between results are
/// passed over; every other line is a header and takes the line below it,
/// blank or not, as its summary.
pub open spec fn search_entries(lines: Seq<Seq<char>>, source: PackageSource) -> Seq<SummaryModel>
    decreases lines.len(),
{
    if lines.len() == 0 {
        Seq::empty()
    } else if trimmed(lines[0]).len() == 0 {
        search_entries(lines.drop_first(), source)
    } else if lines.len() == 1 {
        seq![search_entry(lines[0], Seq::empty(), source)]
    } else {
        seq![search_entry(lines[0], lines[1], source)] + search_entries(lines.skip(2), source)
    }
}

/// Reads search results as the repository manager and the community helpers
/// print them.
pub fn parse_search_lines(output: &str, source: PackageSource) -> (r: Vec<PackageSummary>)
    ensures
        summary_models(r@) == search_entries(lines_of(output@), source),
{
    let chars = chars_of(output);
    let bounds = line_bounds(chars.as_slice());
    let ghost lines = lines_of(output@);
    let mut results: Vec<PackageSummary> = Vec::new();
    let mut i: usize = 0;
    assert(lines.skip(0) =~= lines);
    assert(summary_models(results@) =~= Seq::<SummaryModel>::empty());
    while i < bounds.len()
        invariant
            i <= bounds.len(),
            chars@ == output@,
            lines == lines_of(output@),
            crate::text::bounds_within(bounds@, chars@.len()),
            parts_of(chars@, bounds@) == lines,
            summary_models(results@) + search_entries(lines.skip(i as int), source)
                == search_entries(lines, source),
        decreases bounds.len() - i,
    {
        let ghost rest = lines.skip(i as int);
        let ghost done = summary_models(results@);
        assert(bounds@[i as int].0 <= bounds@[i as int].1 <= chars@.len());
        let line = sub_chars(chars.as_slice(), bounds[i].0, bounds[i].1);
        assert(line@ == lines[i as int]);
        assert(rest[0] == lines[i as int]);
        let header = trim_chars(line.as_slice());
        if header.len() == 0 {
            assert(rest.drop_first() =~= lines.skip(i + 1));
            i += 1;
            continue ;
        }
        let below: Vec<char> = if i + 1 < bounds.len() {
            assert(bounds@[i + 1].0 <= bounds@[i + 1].1 <= chars@.len());
            let next = sub_chars(chars.as_slice(), bounds[i + 1].0, bounds[i + 1].1);
            assert(next@ == lines[i + 1]);
            assert(rest[1] == lines[i + 1]);
            trim_chars(next.as_slice())
        } else {
            assert(trimmed(Seq::<char>::empty()) == Seq::<char>::empty());
            Vec::new()
        };
        let qualified = nth_word(header.as_slice(), 0);
        let version = nth_word(header.as_slice(), 1);
        let name = match nth_piece(qualified.as_slice(), '/', 1) {
            Some(name) => name,
            None => qualified,
        };
        let entry = PackageSummary {
            name: text_of(name.as_slice()),
            summary: text_of(below.as_slice()),
            version: text_of(version.as_slice()),
            source,
            installed: false,
            origin: None,
        };
        let ghost model = entry@;
        results.push(entry);
        proof {
            assert(summary_models(results@) =~= done.push(model));
            if i + 1 < bounds.len() {
                assert(rest.skip(2) =~= lines.skip(i + 2));
                assert(done.push(model) + search_entries(lines.skip(i + 2), source) =~= done + (
                seq![model] + search_entries(lines.skip(i + 2), source)));
            } else {
                assert(lines.skip(i + 1) =~= Seq::<Seq<char>>::empty());
                assert(done.push(model) + search_entries(lines.skip(i + 1), source) =~= done
                    + seq![model]);
            }
        }
        if i + 1 < bounds.len() {
            i += 2;
        } else {
            i += 1;
        }
    }
    proof {
        assert(lines.skip(i as int) =~= Seq::<Seq<char>>::empty());
        assert(summary_models(results@) + Seq::<SummaryModel>::empty() =~= summary_models(
            results@,
        ));
    }
    results
}


/// Which tool printed a description of a package.
#[derive(Debug, Clone, Copy, PartialEq, Eq, Structural)]
pub enum InfoFormat {
    /// The repository manager or a community helper.
    Pacman,
    /// The sandboxed-app manager.
    Flatpak,
}

/// What was read of a description so far.
pub struct InfoModel {
    pub name: Seq<char>,
    pub version: Seq<char>,
    pub description: Seq<char>,
    pub summary: Seq<char>,
    pub size: Option<Seq<char>>,
    pub home: Option<Seq<char>>,
}

/// A description of which nothing was read yet.
pub open spec fn blank_info() -> InfoModel {
    InfoModel {
        name: Seq::empty(),
        version: Seq::empty(),
        description: Seq::empty(),
        summary: Seq::empty(),
        size: None,
        home: None,
    }
}

/// `info` after the field `key` with `value` was read.
pub open spec fn with_field(
    info: InfoModel,
    format: InfoFormat,
    key: Seq<char>,
    value: Seq<char>,
) -> InfoModel {
    match format {
        InfoFormat::Pacman => if key == "Name"@ {
            InfoModel { name: value, ..info }
        } else if key == "Version"@ {
            InfoModel { version: value, ..info }
        } else if key == "Description"@ {
            InfoModel { description: value, summary: value, ..info }
        } else if key == "Installed Size"@ || key == "Download Size"@ {
            InfoModel { size: Some(value), ..info }
        } else if key == "URL"@ {
            InfoModel { home: Some(value), ..info }
        } else {
            info
        },
        InfoFormat::Flatpak => if key == "Name"@ || key == "Application"@ {
            InfoModel { name: value, ..info }
        } else if key == "Summary"@ {
            InfoModel { summary: value, ..info }
        } else if key == "Description"@ {
            InfoModel { description: value, ..info }
        } else if key == "Version"@ {
            InfoModel { version: value, ..info }
        } else if key == "Website"@ || key == "URL"@ {
            InfoModel { home: Some(value), ..info }
        } else if key == "Installed Size"@ {
            InfoModel { size: Some(value), ..info }
        } else {
            info
        },
    }
}

/// `info` after `line` was read: a line of the form `key: value` sets the
/// field that the key names, any other line is passed over.
pub open spec fn with_line(info: InfoModel, format: InfoFormat, line: Seq<char>) -> InfoModel {
    match split_at_first(line, ':') {
        Some((key, value)) => with_field(info, format, trimmed(key), trimmed(value)),
        None => info,
    }
}

/// What `lines` say of a package, read from the first line to the last, so
/// that a field given twice has its last value.
pub open spec fn info_of(lines: Seq<Seq<char>>, format: InfoFormat) -> InfoModel
    decreases lines.len(),
{
    if lines.len() == 0 {
        blank_info()
    } else {
        with_line(info_of(lines.drop_last(), format), format, lines.last())
    }
}

/// What was read of a description so far.
struct Info {
    name: String,
    version: String,
    description: String,
    summary: String,
    size: Option<String>,
    home: Option<String>,
}

impl View for Info {
    type V = InfoModel;

    closed spec fn view(&self) -> InfoModel {
        InfoModel {
            name: self.name@,
            version: self.version@,
            description: self.description@,
            summary: self.summary@,
            size: option_text(self.size),
            home: option_text(self.home),
        }
    }
}

fn is_key(key: &Vec<char>, name: &str) -> (r: bool)
    ensures
        r == (key@ == name@),
{
    let n = chars_of(name);
    same_chars(key.as_slice(), n.as_slice())
}

fn set_field(info: &mut Info, format: InfoFormat, key: &Vec<char>, value: &Vec<char>)
    ensures
        final(info)@ == with_field(old(info)@, format, key@, value@),
{
    match format {
        InfoFormat::Pacman => {
            if is_key(key, "Name") {
                info.name = text_of(value.as_slice());
            } else if is_key(key, "Version") {
                info.version = text_of(value.as_slice());
            } else if is_key(key, "Description") {
                info.description = text_of(value.as_slice());
                info.summary = text_of(value.as_slice());
            } else if is_key(key, "Installed Size") || is_key(key, "Download Size") {
                info.size = Some(text_of(value.as_slice()));
            } else if is_key(key, "URL") {
                info.home = Some(text_of(value.as_slice()));
            }
        },
        InfoFormat::Flatpak => {
            if is_key(key, "Name") || is_key(key, "Application") {
                info.name = text_of(value.as_slice());
            } else if is_key(key, "Summary") {
                info.summary = text_of(value.as_slice());
            } else if is_key(key, "Description") {
                info.description = text_of(value.as_slice());
            } else if is_key(key, "Version") {
                info.version = text_of(value.as_slice());
            } else if is_key(key, "Website") || is_key(key, "URL") {
                info.home = Some(text_of(value.as_slice()));
            } else if is_key(key, "Installed Size") {
                info.size = Some(text_of(value.as_slice()));
            }
        },
    }
}

fn read_info(output: &str, format: InfoFormat) -> (r: Info)
    ensures
        r@ == info_of(lines_of(output@), format),
{
    let chars = chars_of(output);
    let bounds = line_bounds(chars.as_slice());
    let ghost lines = lines_of(output@);
    let mut info = Info {
        name: String::new(),
        version: String::new(),
        description: String::new(),
        summary: String::new(),
        size: None,
        home: None,
    };
    let mut i: usize = 0;
    assert(lines.take(0) =~= Seq::<Seq<char>>::empty());
    while i < bounds.len()
        invariant
            i <= bounds.len(),
            chars@ == output@,
            lines == lines_of(output@),
            crate::text::bounds_within(bounds@, chars@.len()),
            parts_of(chars@, bounds@) == lines,
            info@ == info_of(lines.take(i as int), format),
        decreases bounds.len() - i,
    {
        assert(bounds@[i as int].0 <= bounds@[i as int].1 <= chars@.len());
        let line = sub_chars(chars.as_slice(), bounds[i].0, bounds[i].1);
        proof {
            assert(line@ == lines[i as int]);
            assert(lines.take(i + 1).drop_last() =~= lines.take(i as int));
            assert(lines.take(i + 1).last() == lines[i as int]);
        }
        match split_once(line.as_slice(), ':') {
            Some((key, value)) => {
                let key = trim_chars(key.as_slice());
                let value = trim_chars(value.as_slice());
                set_field(&mut info, format, &key, &value);
            },
            None => {},
        }
        i += 1;
    }
    assert(lines.take(i as int) =~= lines);
    info
}

/// The details that a description in the format of the repository manager
/// gives of a package of `source`.
pub open spec fn pacman_details(output: Seq<char>, source: PackageSource) -> DetailsModel {
    let info = info_of(lines_of(output), InfoFormat::Pacman);
    DetailsModel {
        name: info.name,
        summary: info.summary,
        description: info.description,
        version: info.version,
        source,
        installed: false,
        size: info.size,
        home: info.home,
        screenshots: Seq::empty(),
        icon_name: None,
    }
}

/// Reads a description as the repository manager and the community helpers
/// print it.
pub fn parse_pacman_info(output: &str, source: PackageSource) -> (r: PackageDetails)
    ensures
        r@ == pacman_details(output@, source),
{
    let info = read_info(output, InfoFormat::Pacman);
    let r = PackageDetails {
        name: info.name,
        summary: info.summary,
        description: info.description,
        version: info.version,
        source,
        installed: false,
        size: info.size,
        home: info.home,
        screenshots: Vec::new(),
        icon_name: None,
    };
    assert(texts(r.screenshots@) =~= Seq::<Seq<char>>::empty());
    r
}

/// The details that a description in the format of the sandboxed-app
/// manager gives: where it has no summary, the description stands for it.
pub open spec fn flatpak_details(output: Seq<char>) -> DetailsModel {
    let info = info_of(lines_of(output), InfoFormat::Flatpak);
    DetailsModel {
        name: info.name,
        summary: if info.summary.len() == 0 {
            info.description
        } else {
            info.summary
        },
        description: info.description,
        version: info.version,
        source: PackageSource::Flatpak,
        installed: true,
        size: info.size,
        home: info.home,
        screenshots: Seq::empty(),
        icon_name: None,
    }
}

/// Reads a description as the sandboxed-app manager prints it.
pub fn parse_flatpak_info(output: &str) -> (r: PackageDetails)
    ensures
        r@ == flatpak_details(output@),
{
    let info = read_info(output, InfoFormat::Flatpak);
    let summary = if info.summary.as_str().is_empty() {
        info.description.clone()
    } else {
        info.summary
    };
    let r = PackageDetails {
        name: info.name,
        summary,
        description: info.description,
        version: info.version,
        source: PackageSource::Flatpak,
        installed: true,
        size: info.size,
        home: info.home,
        screenshots: Vec::new(),
        icon_name: None,
    };
    assert(texts(r.screenshots@) =~= Seq::<Seq<char>>::empty());
    r
}

/// The entry that one line of a list of installed packages makes: its first
/// word is the name, its second the version. A line without a word makes
/// none.
pub open spec fn installed_entry(line: Seq<char>) -> Option<SummaryModel> {
    if word(line, 0).len() == 0 {
        None
    } else {
        Some(
            SummaryModel {
                name: word(line, 0),
                summary: Seq::empty(),
                version: word(line, 1),
                source: PackageSource::Repo,
                installed: true,
                origin: None,
            },
        )
    }
}

/// The entry that one line of the sandboxed-app manager's table makes, its
/// columns separated by tabs: application, description, version, branch and,
/// in search results, remote. The branch stands for a version that is
/// missing. A line without an application makes none.
pub open spec fn flatpak_entry(line: Seq<char>, installed: bool) -> Option<SummaryModel> {
    if trimmed(line).len() == 0 || trimmed(field(line, '\t', 0)).len() == 0 {
        None
    } else {
        Some(
            SummaryModel {
                name: trimmed(field(line, '\t', 0)),
                summary: trimmed(field(line, '\t', 1)),
                version: if trimmed(field(line, '\t', 2)).len() > 0 {
                    trimmed(field(line, '\t', 2))
                } else {
                    trimmed(field(line, '\t', 3))
                },
                source: PackageSource::Flatpak,
                installed,
                origin: if installed || trimmed(field(line, '\t', 4)).len() == 0 {
                    None
                } else {
                    Some(trimmed(field(line, '\t', 4)))
                },
            },
        )
    }
}

/// How the lines of a table are read.
#[derive(Debug, Clone, Copy, PartialEq, Eq, Structural)]
pub enum TableFormat {
    /// The repository manager's list of installed packages.
    PacmanInstalled,
    /// The sandboxed-app manager's search results.
    FlatpakSearch,
    /// The sandboxed-app manager's list of installed apps.
    FlatpakInstalled,
}

/// The entry that `line` makes in a table of `format`, if any.
pub open spec fn table_entry(line: Seq<char>, format: TableFormat) -> Option<SummaryModel> {
    match format {
        TableFormat::PacmanInstalled => installed_entry(line),
        TableFormat::FlatpakSearch => flatpak_entry(line, false),
        TableFormat::FlatpakInstalled => flatpak_entry(line, true),
    }
}

/// The entries that the lines of a table make, in the order of the lines.
pub open spec fn table_entries(lines: Seq<Seq<char>>, format: TableFormat) -> Seq<SummaryModel>
    decreases lines.len(),
{
    if lines.len() == 0 {
        Seq::empty()
    } else {
        match table_entry(lines.last(), format) {
            Some(entry) => table_entries(lines.drop_last(), format).push(entry),
            None => table_entries(lines.drop_last(), format),
        }
    }
}

fn read_installed_line(line: &Vec<char>) -> (r: Option<PackageSummary>)
    ensures
        match r {
            Some(entry) => installed_entry(line@) == Some(entry@),
            None => installed_entry(line@) is None,
        },
{
    let name = nth_word(line.as_slice(), 0);
    if name.len() == 0 {
        return None;
    }
    let version = nth_word(line.as_slice(), 1);
    Some(
        PackageSummary {
            name: text_of(name.as_slice()),
            summary: String::new(),
            version: text_of(version.as_slice()),
            source: PackageSource::Repo,
            installed: true,
            origin: None,
        },
    )
}

fn read_flatpak_line(line: &Vec<char>, installed: bool) -> (r: Option<PackageSummary>)
    ensures
        match r {
            Some(entry) => flatpak_entry(line@, installed) == Some(entry@),
            None => flatpak_entry(line@, installed) is None,
        },
{
    if trim_chars(line.as_slice()).len() == 0 {
        return None;
    }
    let app_id = trim_chars(nth_field(line.as_slice(), '\t', 0).as_slice());
    if app_id.len() == 0 {
        return None;
    }
    let summary = trim_chars(nth_field(line.as_slice(), '\t', 1).as_slice());
    let version = trim_chars(nth_field(line.as_slice(), '\t', 2).as_slice());
    let branch = trim_chars(nth_field(line.as_slice(), '\t', 3).as_slice());
    let shown = if version.len() > 0 {
        version
    } else {
        branch
    };
    let origin = if installed {
        None
    } else {
        let remote = trim_chars(nth_field(line.as_slice(), '\t', 4).as_slice());
        if remote.len() == 0 {
            None
        } else {
            Some(text_of(remote.as_slice()))
        }
    };
    Some(
        PackageSummary {
            name: text_of(app_id.as_slice()),
            summary: text_of(summary.as_slice()),
            version: text_of(shown.as_slice()),
            source: PackageSource::Flatpak,
            installed,
            origin,
        },
    )
}

/// Reads a table that a tool printed, line by line.
pub fn parse_table(output: &str, format: TableFormat) -> (r: Vec<PackageSummary>)
    ensures
        summary_models(r@) == table_entries(lines_of(output@), format),
{
    let chars = chars_of(output);
    let bounds = line_bounds(chars.as_slice());
    let ghost lines = lines_of(output@);
    let mut results: Vec<PackageSummary> = Vec::new();
    let mut i: usize = 0;
    assert(lines.take(0) =~= Seq::<Seq<char>>::empty());
    assert(summary_models(results@) =~= Seq::<SummaryModel>::empty());
    while i < bounds.len()
        invariant
            i <= bounds.len(),
            chars@ == output@,
            lines == lines_of(output@),
            crate::text::bounds_within(bounds@, chars@.len()),
            parts_of(chars@, bounds@) == lines,
            summary_models(results@) == table_entries(lines.take(i as int), format),
        decreases bounds.len() - i,
    {
        assert(bounds@[i as int].0 <= bounds@[i as int].1 <= chars@.len());
        let line = sub_chars(chars.as_slice(), bounds[i].0, bounds[i].1);
        proof {
            assert(line@ == lines[i as int]);
            assert(lines.take(i + 1).drop_last() =~= lines.take(i as int));
            assert(lines.take(i + 1).last() == lines[i as int]);
        }
        let entry = match format {
            TableFormat::PacmanInstalled => read_installed_line(&line),
            TableFormat::FlatpakSearch => read_flatpak_line(&line, false),
            TableFormat::FlatpakInstalled => read_flatpak_line(&line, true),
        };
        match entry {
            Some(entry) => {
                let ghost done = summary_models(results@);
                let ghost model = entry@;
                results.push(entry);
                assert(summary_models(results@) =~= done.push(model));
            },
            None => {},
        }
        i += 1;
    }
    assert(lines.take(i as int) =~= lines);
    results
}


/// The texts of an optional list of strings.
pub open spec fn option_texts(o: Option<Vec<String>>) -> Option<Seq<Seq<char>>> {
    match o {
        Some(v) => Some(texts(v@)),
        None => None,
    }
}

} // verus!
