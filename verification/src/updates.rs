//! The updates that the three sources offer, read from what their tools
//! print, and the part of them that a filter lets through.

use vstd::prelude::*;
use vstd::string::*;

use crate::models::ActionKind;
use crate::models::ActionModel;
use crate::models::PackageSource;
use crate::models::TransactionAction;
use crate::text::bounds_within;
use crate::text::chars_of;
use crate::text::contains;
use crate::text::decimal;
use crate::text::field;
use crate::text::has_infix;
use crate::text::line_bounds;
use crate::text::lines_of;
use crate::text::lowercase;
use crate::text::nth_field;
use crate::text::nth_word;
use crate::text::parts_of;
use crate::text::push_decimal;
use crate::text::sub_chars;
use crate::text::text_of;
use crate::text::to_lowercase;
use crate::text::trim_chars;
use crate::text::trimmed;
use crate::text::word;

verus! {

/// The tool that printed a list of updates.
#[derive(Debug, Clone, Copy, PartialEq, Eq, Structural)]
pub enum UpdateFormat {
    /// The repository manager: a package a line, its name first.
    Pacman,
    /// A community helper: as the repository manager.
    Aur,
    /// The sandboxed-app manager: application, version, branch and remote,
    /// separated by tabs.
    Flatpak,
}

/// The models of a sequence of updates: for each the action that applies it
/// and the text that shows it.
pub open spec fn update_models(v: Seq<(TransactionAction, String)>) -> Seq<(ActionModel, Seq<char>)> {
    Seq::new(v.len(), |i: int| (v[i].0@, v[i].1@))
}

/// The text that shows an update of a sandboxed app: the application, its
/// version or else its branch, its remote in brackets, and the source.
pub open spec fn flatpak_display(line: Seq<char>) -> Seq<char> {
    let version = trimmed(field(line, '\t', 1));
    let branch = trimmed(field(line, '\t', 2));
    let remote = trimmed(field(line, '\t', 3));
    trimmed(field(line, '\t', 0)) + (if version.len() > 0 {
        " "@ + version
    } else if branch.len() > 0 {
        " "@ + branch
    } else {
        Seq::empty()
    }) + (if remote.len() > 0 {
        " ("@ + remote + ")"@
    } else {
        Seq::empty()
    }) + " [Flatpak]"@
}

/// The update that one line of a list announces, if any: none for a blank
/// line, and for the sandboxed-app manager none for a line without an
/// application.
pub open spec fn update_of(line: Seq<char>, format: UpdateFormat) -> Option<(ActionModel, Seq<char>)> {
    if trimmed(line).len() == 0 {
        None
    } else {
        match format {
            UpdateFormat::Pacman => Some(
                (
                    ActionModel {
                        name: word(line, 0),
                        source: PackageSource::Repo,
                        kind: ActionKind::Install,
                        origin: None,
                    },
                    line,
                ),
            ),
            UpdateFormat::Aur => Some(
                (
                    ActionModel {
                        name: word(line, 0),
                        source: PackageSource::Aur,
                        kind: ActionKind::Install,
                        origin: None,
                    },
                    line + " (AUR)"@,
                ),
            ),
            UpdateFormat::Flatpak => if trimmed(field(line, '\t', 0)).len() == 0 {
                None
            } else {
                Some(
                    (
                        ActionModel {
                            name: trimmed(field(line, '\t', 0)),
                            source: PackageSource::Flatpak,
                            kind: ActionKind::Upgrade,
                            origin: None,
                        },
                        flatpak_display(line),
                    ),
                )
            },
        }
    }
}

/// The updates that the lines of a list announce, in the order of the lines.
pub open spec fn updates_of(lines: Seq<Seq<char>>, format: UpdateFormat) -> Seq<
    (ActionModel, Seq<char>),
>
    decreases lines.len(),
{
    if lines.len() == 0 {
        Seq::empty()
    } else {
        match update_of(lines.last(), format) {
            Some(update) => updates_of(lines.drop_last(), format).push(update),
            None => updates_of(lines.drop_last(), format),
        }
    }
}

fn read_update(line: &Vec<char>, format: UpdateFormat) -> (r: Option<(TransactionAction, String)>)
    ensures
        match r {
            Some(update) => update_of(line@, format) == Some((update.0@, update.1@)),
            None => update_of(line@, format) is None,
        },
{
    if trim_chars(line.as_slice()).len() == 0 {
        return None;
    }
    match format {
        UpdateFormat::Pacman => {
            let name = nth_word(line.as_slice(), 0);
            Some(
                (
                    TransactionAction {
                        name: text_of(name.as_slice()),
                        source: PackageSource::Repo,
                        kind: ActionKind::Install,
                        origin: None,
                    },
                    text_of(line.as_slice()),
                ),
            )
        },
        UpdateFormat::Aur => {
            let name = nth_word(line.as_slice(), 0);
            let mut display = text_of(line.as_slice());
            display.append(" (AUR)");
            Some(
                (
                    TransactionAction {
                        name: text_of(name.as_slice()),
                        source: PackageSource::Aur,
                        kind: ActionKind::Install,
                        origin: None,
                    },
                    display,
                ),
            )
        },
        UpdateFormat::Flatpak => {
            let app_id = trim_chars(nth_field(line.as_slice(), '\t', 0).as_slice());
            if app_id.len() == 0 {
                return None;
            }
            let version = trim_chars(nth_field(line.as_slice(), '\t', 1).as_slice());
            let branch = trim_chars(nth_field(line.as_slice(), '\t', 2).as_slice());
            let remote = trim_chars(nth_field(line.as_slice(), '\t', 3).as_slice());
            let mut display = text_of(app_id.as_slice());
            let ghost start = display@;
            if version.len() > 0 {
                display.append(" ");
                display.append(text_of(version.as_slice()).as_str());
                assert(display@ =~= start + (" "@ + version@));
            } else if branch.len() > 0 {
                display.append(" ");
                display.append(text_of(branch.as_slice()).as_str());
                assert(display@ =~= start + (" "@ + branch@));
            } else {
                assert(display@ =~= start + Seq::<char>::empty());
            }
            let ghost middle = display@;
            if remote.len() > 0 {
                display.append(" (");
                display.append(text_of(remote.as_slice()).as_str());
                display.append(")");
                assert(display@ =~= middle + (" ("@ + remote@ + ")"@));
            } else {
                assert(display@ =~= middle + Seq::<char>::empty());
            }
            display.append(" [Flatpak]");
            Some(
                (
                    TransactionAction {
                        name: text_of(app_id.as_slice()),
                        source: PackageSource::Flatpak,
                        kind: ActionKind::Upgrade,
                        origin: None,
                    },
                    display,
                ),
            )
        },
    }
}

/// Reads the updates that a tool announced.
pub fn parse_updates(output: &str, format: UpdateFormat) -> (r: Vec<(TransactionAction, String)>)
    ensures
        update_models(r@) == updates_of(lines_of(output@), format),
{
    let chars = chars_of(output);
    let bounds = line_bounds(chars.as_slice());
    let ghost lines = lines_of(output@);
    let mut results: Vec<(TransactionAction, String)> = Vec::new();
    let mut i: usize = 0;
    assert(lines.take(0) =~= Seq::<Seq<char>>::empty());
    assert(update_models(results@) =~= Seq::<(ActionModel, Seq<char>)>::empty());
    while i < bounds.len()
        invariant
            i <= bounds.len(),
            chars@ == output@,
            lines == lines_of(output@),
            bounds_within(bounds@, chars@.len()),
            parts_of(chars@, bounds@) == lines,
            update_models(results@) == updates_of(lines.take(i as int), format),
        decreases bounds.len() - i,
    {
        assert(bounds@[i as int].0 <= bounds@[i as int].1 <= chars@.len());
        let line = sub_chars(chars.as_slice(), bounds[i].0, bounds[i].1);
        proof {
            assert(line@ == lines[i as int]);
            assert(lines.take(i + 1).drop_last() =~= lines.take(i as int));
            assert(lines.take(i + 1).last() == lines[i as int]);
        }
        match read_update(&line, format) {
            Some(update) => {
                let ghost done = update_models(results@);
                let ghost model = (update.0@, update.1@);
                results.push(update);
                assert(update_models(results@) =~= done.push(model));
            },
            None => {},
        }
        i += 1;
    }
    assert(lines.take(i as int) =~= lines);
    results
}

/// Whether the source filter at `index` lets `source` through: 1 the system
/// repository, 2 the community repository, 3 the sandboxed apps, any other
/// index everything.
pub open spec fn source_passes(index: u32, source: PackageSource) -> bool {
    if index == 1 {
        source == PackageSource::Repo
    } else if index == 2 {
        source == PackageSource::Aur
    } else if index == 3 {
        source == PackageSource::Flatpak
    } else {
        true
    }
}

/// What is searched for when the user has typed `query`: the query without
/// the white space around it, in lowercase.
pub open spec fn needle_of(query: Seq<char>) -> Seq<char> {
    lowercase(trimmed(query))
}

/// Whether an update passes the filters: its source passes, and the text
/// that shows it holds what is searched for, whatever the case.
pub open spec fn passes(
    update: (ActionModel, Seq<char>),
    needle: Seq<char>,
    source_index: u32,
) -> bool {
    source_passes(source_index, update.0.source) && (needle.len() == 0 || has_infix(
        lowercase(update.1),
        needle,
    ))
}

/// The updates among `items` that pass the filters, in their order.
pub open spec fn filtered(
    items: Seq<(ActionModel, Seq<char>)>,
    needle: Seq<char>,
    source_index: u32,
) -> Seq<(ActionModel, Seq<char>)>
    decreases items.len(),
{
    if items.len() == 0 {
        Seq::empty()
    } else if passes(items.last(), needle, source_index) {
        filtered(items.drop_last(), needle, source_index).push(items.last())
    } else {
        filtered(items.drop_last(), needle, source_index)
    }
}

/// Whether an update passes the filters, `needle` being what is searched
/// for, in lowercase, and `shown` the text that shows the update, in
/// lowercase too.
pub fn matches_filters(source: PackageSource, shown: &str, needle: &str, source_index: u32) -> (r:
    bool)
    ensures
        r == (source_passes(source_index, source) && (needle@.len() == 0 || has_infix(
            shown@,
            needle@,
        ))),
{
    let source_ok = if source_index == 1 {
        source == PackageSource::Repo
    } else if source_index == 2 {
        source == PackageSource::Aur
    } else if source_index == 3 {
        source == PackageSource::Flatpak
    } else {
        true
    };
    if !source_ok {
        return false;
    }
    if needle.is_empty() {
        return true;
    }
    let hay = chars_of(shown);
    let n = chars_of(needle);
    contains(hay.as_slice(), n.as_slice())
}

/// The updates among `items` that the filters let through: those of the
/// chosen source whose text holds `query`, whatever the case.
pub fn filter_updates(items: &Vec<(TransactionAction, String)>, query: &str, source_index: u32) -> (r:
    Vec<(TransactionAction, String)>)
    ensures
        update_models(r@) == filtered(update_models(items@), needle_of(query@), source_index),
{
    let typed = chars_of(query);
    let bare = text_of(trim_chars(typed.as_slice()).as_slice());
    let needle = to_lowercase(bare.as_str());
    let ghost models = update_models(items@);
    let mut out: Vec<(TransactionAction, String)> = Vec::new();
    let mut i: usize = 0;
    assert(models.take(0) =~= Seq::<(ActionModel, Seq<char>)>::empty());
    assert(update_models(out@) =~= Seq::<(ActionModel, Seq<char>)>::empty());
    while i < items.len()
        invariant
            i <= items.len(),
            models == update_models(items@),
            needle@ == needle_of(query@),
            update_models(out@) == filtered(models.take(i as int), needle@, source_index),
        decreases items.len() - i,
    {
        proof {
            assert(models.take(i + 1).drop_last() =~= models.take(i as int));
            assert(models.take(i + 1).last() == (items@[i as int].0@, items@[i as int].1@));
        }
        let item = &items[i];
        let shown = to_lowercase(item.1.as_str());
        if matches_filters(item.0.source, shown.as_str(), needle.as_str(), source_index) {
            let ghost done = update_models(out@);
            let copy = (item.0.clone(), item.1.clone());
            let ghost model = (copy.0@, copy.1@);
            out.push(copy);
            assert(update_models(out@) =~= done.push(model));
        }
        i += 1;
    }
    assert(models.take(i as int) =~= models);
    out
}

/// What the status line says when `shown` of `total` updates are listed.
pub open spec fn status_of(shown: nat, total: nat) -> Seq<char> {
    if shown == 0 {
        if total == 0 {
            "System is up to date"@
        } else {
            "No updates match selected filters"@
        }
    } else {
        decimal(shown) + " updates shown ("@ + decimal(total) + " total)"@
    }
}

/// What the status line says when `shown` of `total` updates are listed.
pub fn status_text(shown: usize, total: usize) -> (r: String)
    ensures
        r@ == status_of(shown as nat, total as nat),
{
    if shown == 0 {
        if total == 0 {
            String::from_str("System is up to date")
        } else {
            String::from_str("No updates match selected filters")
        }
    } else {
        let mut out = String::new();
        push_decimal(&mut out, shown as u128);
        out.append(" updates shown (");
        push_decimal(&mut out, total as u128);
        out.append(" total)");
        assert(out@ =~= status_of(shown as nat, total as nat));
        out
    }
}

/// A filter lets through nothing that was not there, keeps the order, and
/// lets through exactly what passes.
pub proof fn lemma_filtered(
    items: Seq<(ActionModel, Seq<char>)>,
    needle: Seq<char>,
    source_index: u32,
)
    ensures
        filtered(items, needle, source_index).len() <= items.len(),
        forall|k: int|
            0 <= k < filtered(items, needle, source_index).len() ==> passes(
                #[trigger] filtered(items, needle, source_index)[k],
                needle,
                source_index,
            ) && items.contains(filtered(items, needle, source_index)[k]),
        forall|i: int|
            0 <= i < items.len() && passes(items[i], needle, source_index) ==> filtered(
                items,
                needle,
                source_index,
            ).contains(#[trigger] items[i]),
    decreases items.len(),
{
    if items.len() > 0 {
        let before = items.drop_last();
        lemma_filtered(before, needle, source_index);
        let kept = filtered(before, needle, source_index);
        let all = filtered(items, needle, source_index);
        assert forall|k: int| 0 <= k < all.len() implies passes(
            #[trigger] all[k],
            needle,
            source_index,
        ) && items.contains(all[k]) by {
            if k < kept.len() {
                assert(all[k] == kept[k]);
                let j = choose|j: int| 0 <= j < before.len() && before[j] == kept[k];
                assert(items[j] == all[k]);
            } else {
                assert(all[k] == items[items.len() - 1]);
            }
        }
        assert forall|i: int|
            0 <= i < items.len() && passes(items[i], needle, source_index) implies all.contains(
            #[trigger] items[i],
        ) by {
            if i < before.len() {
                assert(before[i] == items[i]);
                let k = choose|k: int| 0 <= k < kept.len() && kept[k] == before[i];
                assert(all[k] == items[i]);
            } else {
                assert(all[all.len() - 1] == items[i]);
            }
        }
    }
}

} // verus!
