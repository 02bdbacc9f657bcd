//! Where the program keeps its files, below the directories that the system
//! assigns to it.

use vstd::prelude::*;
use vstd::string::*;

use crate::paths::join_path;
use crate::paths::joined_path;
use crate::models::option_text;
use crate::text::texts;

verus! {

/// The directory of the fetched screenshots, in the cache directory
/// `cache_dir`.
pub fn screenshots_dir(cache_dir: &str) -> (r: String)
    ensures
        r@ == joined_path(cache_dir@, "screenshots"@),
{
    join_path(cache_dir, "screenshots")
}

/// The file of the settings, in the configuration directory `config_dir`.
pub fn settings_file(config_dir: &str) -> (r: String)
    ensures
        r@ == joined_path(config_dir@, "settings.json"@),
{
    join_path(config_dir, "settings.json")
}

/// The places where the logo is looked for, the most preferred first.
pub open spec fn logo_places() -> Seq<Seq<char>> {
    seq![
        "assets/logo.svg"@,
        "assets/logo.png"@,
        "/usr/share/aurora/assets/logo.svg"@,
        "/usr/share/aurora/assets/logo.png"@,
        "/usr/share/icons/hicolor/scalable/apps/io.github.ahmoodio.aurora.svg"@,
        "/usr/share/icons/hicolor/scalable/apps/io.github.ahmoodio.aurora.png"@,
        "/usr/share/icons/hicolor/256x256/apps/io.github.ahmoodio.aurora.png"@,
    ]
}

/// The places where the logo is looked for, the most preferred first.
pub fn logo_candidates() -> (r: Vec<String>)
    ensures
        texts(r@) == logo_places(),
{
    let mut places: Vec<String> = Vec::new();
    places.push(String::from_str("assets/logo.svg"));
    places.push(String::from_str("assets/logo.png"));
    places.push(String::from_str("/usr/share/aurora/assets/logo.svg"));
    places.push(String::from_str("/usr/share/aurora/assets/logo.png"));
    places.push(
        String::from_str("/usr/share/icons/hicolor/scalable/apps/io.github.ahmoodio.aurora.svg"),
    );
    places.push(
        String::from_str("/usr/share/icons/hicolor/scalable/apps/io.github.ahmoodio.aurora.png"),
    );
    places.push(
        String::from_str("/usr/share/icons/hicolor/256x256/apps/io.github.ahmoodio.aurora.png"),
    );
    assert(texts(places@) =~= logo_places());
    places
}

/// The index of the first of `present` that holds, or its length.
pub open spec fn first_present(present: Seq<bool>) -> int
    decreases present.len(),
{
    if present.len() == 0 {
        0
    } else if present[0] {
        0
    } else {
        1 + first_present(present.drop_first())
    }
}

/// The first of `places` that exists.
pub open spec fn first_existing(places: Seq<Seq<char>>, present: Seq<bool>) -> Option<Seq<char>> {
    if 0 <= first_present(present) < present.len() && first_present(present) < places.len() {
        Some(places[first_present(present)])
    } else {
        None
    }
}

/// The first of the places of the logo that exists, where `present` says of
/// each place, at its index in [`logo_candidates`], whether a file is there.
/// A place that `present` does not speak of counts as empty.
pub fn find_logo_path(present: &[bool]) -> (r: Option<String>)
    ensures
        option_text(r) == first_existing(logo_places(), present@),
{
    let places = logo_candidates();
    let mut i: usize = 0;
    assert(present@.skip(0) =~= present@);
    while i < present.len()
        invariant
            i <= present.len(),
            texts(places@) == logo_places(),
            first_present(present@.skip(i as int)) + i == first_present(present@),
        decreases present.len() - i,
    {
        assert(present@.skip(i as int)[0] == present@[i as int]);
        assert(present@.skip(i as int).drop_first() =~= present@.skip(i + 1));
        if present[i] {
            if i < places.len() {
                return Some(places[i].clone());
            } else {
                return None;
            }
        }
        i += 1;
    }
    None
}

} // verus!
