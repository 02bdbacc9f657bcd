//! What a search found in the three sources, put together, and the part of a
//! list of packages that a filter lets through.

use vstd::prelude::*;
use vstd::string::*;

use crate::models::PackageSource;
use crate::models::PackageSummary;
use crate::models::SummaryModel;
use crate::providers::summary_models;
use crate::text::chars_of;
use crate::text::contains;
use crate::text::decimal;
use crate::text::has_infix;
use crate::text::lowercase;
use crate::text::push_decimal;
use crate::text::same_text;
use crate::text::texts;
use crate::text::to_lowercase;
use crate::updates::source_passes;

verus! {

/// Whether the state filter at `index` lets a package through: 1 only the
/// installed ones, 2 only the others, any other index all.
pub open spec fn state_passes(index: u32, installed: bool) -> bool {
    if index == 1 {
        installed
    } else if index == 2 {
        !installed
    } else {
        true
    }
}

/// The entries of `items` that `keep` lets through, in their order.
pub open spec fn kept(items: Seq<SummaryModel>, keep: spec_fn(SummaryModel) -> bool) -> Seq<
    SummaryModel,
>
    decreases items.len(),
{
    if items.len() == 0 {
        Seq::empty()
    } else if keep(items.last()) {
        kept(items.drop_last(), keep).push(items.last())
    } else {
        kept(items.drop_last(), keep)
    }
}

/// The search results that the filters for source and state let through.
pub fn filter_results(all: &Vec<PackageSummary>, source_index: u32, state_index: u32) -> (r: Vec<
    PackageSummary,
>)
    ensures
        summary_models(r@) == kept(
            summary_models(all@),
            |p: SummaryModel|
                source_passes(source_index, p.source) && state_passes(state_index, p.installed),
        ),
{
    let ghost keep = |p: SummaryModel|
        source_passes(source_index, p.source) && state_passes(state_index, p.installed);
    let ghost models = summary_models(all@);
    let mut out: Vec<PackageSummary> = Vec::new();
    let mut i: usize = 0;
    assert(models.take(0) =~= Seq::<SummaryModel>::empty());
    assert(summary_models(out@) =~= Seq::<SummaryModel>::empty());
    while i < all.len()
        invariant
            i <= all.len(),
            models == summary_models(all@),
            keep == (|p: SummaryModel|
                source_passes(source_index, p.source) && state_passes(state_index, p.installed)),
            summary_models(out@) == kept(models.take(i as int), keep),
        decreases all.len() - i,
    {
        proof {
            assert(models.take(i + 1).drop_last() =~= models.take(i as int));
            assert(models.take(i + 1).last() == all@[i as int]@);
        }
        let package = &all[i];
        let source_ok = if source_index == 1 {
            package.source == PackageSource::Repo
        } else if source_index == 2 {
            package.source == PackageSource::Aur
        } else if source_index == 3 {
            package.source == PackageSource::Flatpak
        } else {
            true
        };
        let state_ok = if state_index == 1 {
            package.installed
        } else if state_index == 2 {
            !package.installed
        } else {
            true
        };
        if source_ok && state_ok {
            let ghost done = summary_models(out@);
            let copy = package.clone();
            let ghost model = copy@;
            out.push(copy);
            assert(summary_models(out@) =~= done.push(model));
        }
        i += 1;
    }
    assert(models.take(i as int) =~= models);
    out
}

/// What the status line of a search says for `shown` results.
pub fn results_status(shown: usize) -> (r: String)
    ensures
        r@ == if shown == 0 {
            "No results found for selected filters."@
        } else {
            decimal(shown as nat) + " results"@
        },
{
    if shown == 0 {
        String::from_str("No results found for selected filters.")
    } else {
        let mut out = String::new();
        push_decimal(&mut out, shown as u128);
        out.append(" results");
        assert(out@ =~= decimal(shown as nat) + " results"@);
        out
    }
}

/// The installed packages that the filters let through: those of the chosen
/// source whose name, in lowercase, holds `query`.
pub fn filter_installed(packages: &Vec<PackageSummary>, source_index: u32, query: &str) -> (r: Vec<
    PackageSummary,
>)
    ensures
        summary_models(r@) == kept(
            summary_models(packages@),
            |p: SummaryModel|
                (query@.len() == 0 || has_infix(lowercase(p.name), query@)) && source_passes(
                    source_index,
                    p.source,
                ),
        ),
{
    let ghost keep = |p: SummaryModel|
        (query@.len() == 0 || has_infix(lowercase(p.name), query@)) && source_passes(
            source_index,
            p.source,
        );
    let ghost models = summary_models(packages@);
    let needle = chars_of(query);
    let mut out: Vec<PackageSummary> = Vec::new();
    let mut i: usize = 0;
    assert(models.take(0) =~= Seq::<SummaryModel>::empty());
    assert(summary_models(out@) =~= Seq::<SummaryModel>::empty());
    while i < packages.len()
        invariant
            i <= packages.len(),
            needle@ == query@,
            models == summary_models(packages@),
            keep == (|p: SummaryModel|
                (query@.len() == 0 || has_infix(lowercase(p.name), query@)) && source_passes(
                    source_index,
                    p.source,
                )),
            summary_models(out@) == kept(models.take(i as int), keep),
        decreases packages.len() - i,
    {
        proof {
            assert(models.take(i + 1).drop_last() =~= models.take(i as int));
            assert(models.take(i + 1).last() == packages@[i as int]@);
        }
        let package = &packages[i];
        let named = if needle.len() == 0 {
            true
        } else {
            let lower = chars_of(to_lowercase(package.name.as_str()).as_str());
            contains(lower.as_slice(), needle.as_slice())
        };
        let source_ok = if source_index == 1 {
            package.source == PackageSource::Repo
        } else if source_index == 2 {
            package.source == PackageSource::Aur
        } else if source_index == 3 {
            package.source == PackageSource::Flatpak
        } else {
            true
        };
        if named && source_ok {
            let ghost done = summary_models(out@);
            let copy = package.clone();
            let ghost model = copy@;
            out.push(copy);
            assert(summary_models(out@) =~= done.push(model));
        }
        i += 1;
    }
    assert(models.take(i as int) =~= models);
    out
}

/// `results` with each marked as installed exactly if its name is among
/// `installed`.
pub open spec fn marked(results: Seq<SummaryModel>, installed: Seq<Seq<char>>) -> Seq<SummaryModel> {
    Seq::new(
        results.len(),
        |i: int| SummaryModel { installed: installed.contains(results[i].name), ..results[i] },
    )
}

fn holds_name(names: &Vec<String>, name: &str) -> (r: bool)
    ensures
        r == texts(names@).contains(name@),
{
    let mut i: usize = 0;
    while i < names.len()
        invariant
            i <= names.len(),
            forall|k: int| 0 <= k < i ==> texts(names@)[k] != name@,
        decreases names.len() - i,
    {
        if same_text(names[i].as_str(), name) {
            assert(texts(names@)[i as int] == name@);
            return true;
        }
        i += 1;
    }
    false
}

/// Marks each of `results` as installed exactly if its name is among
/// `installed`.
pub fn mark_installed(results: &mut Vec<PackageSummary>, installed: &Vec<String>)
    ensures
        summary_models(final(results)@) == marked(summary_models(old(results)@), texts(installed@)),
{
    let ghost before = summary_models(results@);
    let mut i: usize = 0;
    while i < results.len()
        invariant
            i <= results.len(),
            results@.len() == before.len(),
            forall|k: int|
                0 <= k < i ==> (#[trigger] results@[k])@ == (SummaryModel {
                    installed: texts(installed@).contains(before[k].name),
                    ..before[k]
                }),
            forall|k: int| i <= k < results@.len() ==> (#[trigger] results@[k])@ == before[k],
        decreases results.len() - i,
    {
        let found = holds_name(installed, results[i].name.as_str());
        let mut entry = results[i].clone();
        entry.installed = found;
        results.set(i, entry);
        i += 1;
    }
    assert(summary_models(results@) =~= marked(before, texts(installed@)));
}


/// Whether `a` comes before `b`, or is `b`, in the order of a dictionary
/// whose letters are ordered by their code points.
pub open spec fn text_le(a: Seq<char>, b: Seq<char>) -> bool
    decreases a.len(),
{
    if a.len() == 0 {
        true
    } else if b.len() == 0 {
        false
    } else if a[0] != b[0] {
        a[0] < b[0]
    } else {
        text_le(a.drop_first(), b.drop_first())
    }
}

/// Of two texts one comes before the other or they are the same.
pub proof fn lemma_text_le_total(a: Seq<char>, b: Seq<char>)
    ensures
        text_le(a, b) || text_le(b, a),
        text_le(a, a),
    decreases a.len(),
{
    if a.len() > 0 {
        lemma_text_le_total(a.drop_first(), a.drop_first());
        if b.len() > 0 && a[0] == b[0] {
            lemma_text_le_total(a.drop_first(), b.drop_first());
        }
    }
}

/// What comes before a text comes before everything behind that text.
pub proof fn lemma_text_le_transitive(a: Seq<char>, b: Seq<char>, c: Seq<char>)
    requires
        text_le(a, b),
        text_le(b, c),
    ensures
        text_le(a, c),
    decreases a.len(),
{
    if a.len() > 0 && b.len() > 0 && c.len() > 0 && a[0] == b[0] && b[0] == c[0] {
        lemma_text_le_transitive(a.drop_first(), b.drop_first(), c.drop_first());
    }
}

/// Whether `a` comes before `b`, or is `b`, in the order of a dictionary.
pub fn name_le(a: &[char], b: &[char]) -> (r: bool)
    ensures
        r == text_le(a@, b@),
{
    let mut i: usize = 0;
    assert(a@.skip(0) =~= a@);
    assert(b@.skip(0) =~= b@);
    loop
        invariant
            i <= a@.len(),
            i <= b@.len(),
            text_le(a@.skip(i as int), b@.skip(i as int)) == text_le(a@, b@),
        decreases a@.len() - i,
    {
        if i >= a.len() {
            return true;
        }
        if i >= b.len() {
            return false;
        }
        assert(a@.skip(i as int)[0] == a@[i as int]);
        assert(b@.skip(i as int)[0] == b@[i as int]);
        if a[i] != b[i] {
            return a[i] < b[i];
        }
        assert(a@.skip(i as int).drop_first() =~= a@.skip(i + 1));
        assert(b@.skip(i as int).drop_first() =~= b@.skip(i + 1));
        i += 1;
    }
}

/// Whether two entries stand for the same package: same source, same name.
pub open spec fn same_package(a: SummaryModel, b: SummaryModel) -> bool {
    a.source == b.source && a.name == b.name
}

/// Whether the entries are in the order of their names.
pub open spec fn sorted_by_name(entries: Seq<SummaryModel>) -> bool {
    forall|i: int, j: int|
        0 <= i < j < entries.len() ==> text_le(
            (#[trigger] entries[i]).name,
            (#[trigger] entries[j]).name,
        )
}

/// Whether no package has two entries.
pub open spec fn one_entry_each(entries: Seq<SummaryModel>) -> bool {
    forall|i: int, j: int|
        0 <= i < j < entries.len() ==> !same_package(#[trigger] entries[i], #[trigger] entries[j])
}

/// Whether the entry at `index` is the last that `found` holds of its
/// package.
pub open spec fn last_of_its_package(found: Seq<SummaryModel>, index: int) -> bool {
    forall|j: int| index < j < found.len() ==> !same_package(#[trigger] found[j], found[index])
}

/// Whether `entry` is among `found` and the last that `found` holds of its
/// package.
pub open spec fn holds_as_last(found: Seq<SummaryModel>, entry: SummaryModel) -> bool {
    exists|j: int|
        0 <= j < found.len() && #[trigger] found[j] == entry && last_of_its_package(found, j)
}

/// Whether `entries` hold an entry for the package of `entry`.
pub open spec fn holds_package(entries: Seq<SummaryModel>, entry: SummaryModel) -> bool {
    exists|k: int| 0 <= k < entries.len() && same_package(#[trigger] entries[k], entry)
}

/// Whether `merged` is `found` put together: sorted by name, with one entry
/// for each package that `found` holds, namely the last that `found` holds
/// of it.
pub open spec fn is_merge_of(found: Seq<SummaryModel>, merged: Seq<SummaryModel>) -> bool {
    &&& sorted_by_name(merged)
    &&& one_entry_each(merged)
    &&& forall|k: int| 0 <= k < merged.len() ==> holds_as_last(found, #[trigger] merged[k])
    &&& forall|j: int| 0 <= j < found.len() ==> holds_package(merged, #[trigger] found[j])
}

fn same_entry_key(a: &PackageSummary, b: &PackageSummary) -> (r: bool)
    ensures
        r == same_package(a@, b@),
{
    a.source == b.source && same_text(a.name.as_str(), b.name.as_str())
}

fn find_package(entries: &Vec<PackageSummary>, entry: &PackageSummary) -> (r: Option<usize>)
    ensures
        match r {
            Some(k) => k < entries@.len() && same_package(entries@[k as int]@, entry@),
            None => forall|k: int|
                0 <= k < entries@.len() ==> !same_package(
                    #[trigger] summary_models(entries@)[k],
                    entry@,
                ),
        },
{
    let mut at: usize = 0;
    while at < entries.len()
        invariant
            at <= entries.len(),
            forall|k: int|
                0 <= k < at ==> !same_package(#[trigger] summary_models(entries@)[k], entry@),
        decreases entries.len() - at,
    {
        if same_entry_key(&entries[at], entry) {
            return Some(at);
        }
        at += 1;
    }
    None
}

fn place_for(entries: &Vec<PackageSummary>, name: &Vec<char>) -> (r: usize)
    ensures
        r <= entries@.len(),
        forall|k: int|
            0 <= k < r ==> text_le((#[trigger] summary_models(entries@)[k]).name, name@),
        r < entries@.len() ==> !text_le(summary_models(entries@)[r as int].name, name@),
{
    let mut p: usize = 0;
    while p < entries.len()
        invariant
            p <= entries.len(),
            forall|k: int|
                0 <= k < p ==> text_le((#[trigger] summary_models(entries@)[k]).name, name@),
        decreases entries.len() - p,
    {
        let other = chars_of(entries[p].name.as_str());
        if !name_le(other.as_slice(), name.as_slice()) {
            return p;
        }
        p += 1;
    }
    p
}

proof fn lemma_last_stays(seen: Seq<SummaryModel>, e: SummaryModel, j: int)
    requires
        0 <= j < seen.len(),
        last_of_its_package(seen, j),
        !same_package(seen[j], e),
    ensures
        last_of_its_package(seen.push(e), j),
        seen.push(e)[j] == seen[j],
{
    let next = seen.push(e);
    assert forall|m: int| j < m < next.len() implies !same_package(#[trigger] next[m], next[j]) by {
        if m < seen.len() {
            assert(next[m] == seen[m]);
        }
    }
}

proof fn lemma_replaced_order(before: Seq<SummaryModel>, e: SummaryModel, k: int)
    requires
        sorted_by_name(before),
        one_entry_each(before),
        0 <= k < before.len(),
        same_package(before[k], e),
    ensures
        sorted_by_name(before.update(k, e)),
        one_entry_each(before.update(k, e)),
{
    let after = before.update(k, e);
    assert forall|a: int, b: int| 0 <= a < b < after.len() implies text_le(
        (#[trigger] after[a]).name,
        (#[trigger] after[b]).name,
    ) by {
        assert(text_le(before[a].name, before[b].name));
    }
    assert forall|a: int, b: int| 0 <= a < b < after.len() implies !same_package(
        #[trigger] after[a],
        #[trigger] after[b],
    ) by {
        assert(!same_package(before[a], before[b]));
    }
}

proof fn lemma_replaced_last(
    seen: Seq<SummaryModel>,
    e: SummaryModel,
    before: Seq<SummaryModel>,
    k: int,
    q: int,
)
    requires
        one_entry_each(before),
        0 <= k < before.len(),
        0 <= q < before.len(),
        same_package(before[k], e),
        holds_as_last(seen, before[q]),
    ensures
        holds_as_last(seen.push(e), before.update(k, e)[q]),
{
    let next = seen.push(e);
    let i = seen.len() as int;
    if q == k {
        assert(next[i] == e && last_of_its_package(next, i));
    } else {
        let j = choose|j: int|
            0 <= j < seen.len() && #[trigger] seen[j] == before[q] && last_of_its_package(seen, j);
        if q < k {
            assert(!same_package(before[q], before[k]));
        } else {
            assert(!same_package(before[k], before[q]));
        }
        lemma_last_stays(seen, e, j);
        assert(next[j] == before[q] && last_of_its_package(next, j));
    }
}

proof fn lemma_replaced(
    seen: Seq<SummaryModel>,
    e: SummaryModel,
    before: Seq<SummaryModel>,
    k: int,
)
    requires
        is_merge_of(seen, before),
        0 <= k < before.len(),
        same_package(before[k], e),
    ensures
        is_merge_of(seen.push(e), before.update(k, e)),
{
    let next = seen.push(e);
    let after = before.update(k, e);
    let i = seen.len() as int;
    lemma_replaced_order(before, e, k);
    assert forall|q: int| 0 <= q < after.len() implies holds_as_last(next, #[trigger] after[q]) by {
        assert(holds_as_last(seen, before[q]));
        lemma_replaced_last(seen, e, before, k, q);
    }
    assert forall|j: int| 0 <= j < next.len() implies holds_package(after, #[trigger] next[j]) by {
        if j == i {
            assert(same_package(after[k], next[j]));
        } else {
            assert(next[j] == seen[j]);
            assert(holds_package(before, seen[j]));
            let q = choose|q: int|
                0 <= q < before.len() && same_package(#[trigger] before[q], seen[j]);
            assert(same_package(after[q], next[j]));
        }
    }
}

proof fn lemma_inserted_sorted(before: Seq<SummaryModel>, e: SummaryModel, p: int)
    requires
        sorted_by_name(before),
        0 <= p <= before.len(),
        forall|k: int| 0 <= k < p ==> text_le((#[trigger] before[k]).name, e.name),
        p < before.len() ==> !text_le(before[p].name, e.name),
    ensures
        sorted_by_name(before.insert(p, e)),
{
    let after = before.insert(p, e);
    assert forall|a: int, b: int| 0 <= a < b < after.len() implies text_le(
        (#[trigger] after[a]).name,
        (#[trigger] after[b]).name,
    ) by {
        if b < p {
            assert(after[a] == before[a] && after[b] == before[b]);
            assert(text_le(before[a].name, before[b].name));
        } else if b == p {
            assert(after[a] == before[a]);
            assert(text_le(before[a].name, e.name));
        } else if a == p {
            assert(after[b] == before[b - 1]);
            lemma_text_le_total(before[p].name, e.name);
            if b - 1 > p {
                assert(text_le(before[p].name, before[b - 1].name));
                lemma_text_le_transitive(e.name, before[p].name, before[b - 1].name);
            }
        } else if a < p {
            assert(after[a] == before[a] && after[b] == before[b - 1]);
            assert(text_le(before[a].name, before[b - 1].name));
        } else {
            assert(after[a] == before[a - 1] && after[b] == before[b - 1]);
            assert(text_le(before[a - 1].name, before[b - 1].name));
        }
    }
}

proof fn lemma_inserted_once(before: Seq<SummaryModel>, e: SummaryModel, p: int)
    requires
        one_entry_each(before),
        0 <= p <= before.len(),
        forall|k: int| 0 <= k < before.len() ==> !same_package(#[trigger] before[k], e),
    ensures
        one_entry_each(before.insert(p, e)),
{
    let after = before.insert(p, e);
    assert forall|a: int, b: int| 0 <= a < b < after.len() implies !same_package(
        #[trigger] after[a],
        #[trigger] after[b],
    ) by {
        let x = if a < p {
            a
        } else {
            a - 1
        };
        let y = if b < p {
            b
        } else {
            b - 1
        };
        if a == p {
            assert(after[b] == before[y]);
            assert(!same_package(before[y], e));
        } else if b == p {
            assert(after[a] == before[x]);
            assert(!same_package(before[x], e));
        } else {
            assert(after[a] == before[x] && after[b] == before[y]);
            assert(!same_package(before[x], before[y]));
        }
    }
}

proof fn lemma_inserted(seen: Seq<SummaryModel>, e: SummaryModel, before: Seq<SummaryModel>, p: int)
    requires
        is_merge_of(seen, before),
        0 <= p <= before.len(),
        forall|k: int| 0 <= k < before.len() ==> !same_package(#[trigger] before[k], e),
        forall|k: int| 0 <= k < p ==> text_le((#[trigger] before[k]).name, e.name),
        p < before.len() ==> !text_le(before[p].name, e.name),
    ensures
        is_merge_of(seen.push(e), before.insert(p, e)),
{
    let next = seen.push(e);
    let after = before.insert(p, e);
    let i = seen.len() as int;
    lemma_inserted_sorted(before, e, p);
    lemma_inserted_once(before, e, p);
    assert forall|q: int| 0 <= q < after.len() implies holds_as_last(next, #[trigger] after[q]) by {
        if q == p {
            assert(next[i] == after[q] && last_of_its_package(next, i));
        } else {
            let x = if q < p {
                q
            } else {
                q - 1
            };
            assert(after[q] == before[x]);
            assert(holds_as_last(seen, before[x]));
            let j = choose|j: int|
                0 <= j < seen.len() && #[trigger] seen[j] == before[x] && last_of_its_package(
                    seen,
                    j,
                );
            assert(!same_package(before[x], e));
            lemma_last_stays(seen, e, j);
            assert(next[j] == after[q] && last_of_its_package(next, j));
        }
    }
    assert forall|j: int| 0 <= j < next.len() implies holds_package(after, #[trigger] next[j]) by {
        if j == i {
            assert(same_package(after[p], next[j]));
        } else {
            assert(next[j] == seen[j]);
            assert(holds_package(before, seen[j]));
            let x = choose|x: int|
                0 <= x < before.len() && same_package(#[trigger] before[x], seen[j]);
            let q = if x < p {
                x
            } else {
                x + 1
            };
            assert(after[q] == before[x]);
            assert(same_package(after[q], next[j]));
        }
    }
}

/// Puts together what a search found: of the entries that stand for the
/// same package the last one counts, and the result is sorted by name.
/// Entries of the same name from different sources stand next to each other
/// in no promised order.
pub fn merge_results(found: Vec<PackageSummary>) -> (r: Vec<PackageSummary>)
    ensures
        is_merge_of(summary_models(found@), summary_models(r@)),
{
    let ghost all = summary_models(found@);
    let mut out: Vec<PackageSummary> = Vec::new();
    let mut i: usize = 0;
    while i < found.len()
        invariant
            i <= found.len(),
            all == summary_models(found@),
            is_merge_of(all.take(i as int), summary_models(out@)),
        decreases found.len() - i,
    {
        let ghost before = summary_models(out@);
        let ghost seen = all.take(i as int);
        let entry = found[i].clone();
        let ghost e = entry@;
        assert(all.take(i + 1) =~= seen.push(e));
        match find_package(&out, &entry) {
            Some(k) => {
                out.set(k, entry);
                proof {
                    assert(summary_models(out@) =~= before.update(k as int, e));
                    lemma_replaced(seen, e, before, k as int);
                }
            },
            None => {
                let name = chars_of(entry.name.as_str());
                let p = place_for(&out, &name);
                out.insert(p, entry);
                proof {
                    assert(summary_models(out@) =~= before.insert(p as int, e));
                    lemma_inserted(seen, e, before, p as int);
                }
            },
        }
        i += 1;
    }
    assert(all.take(i as int) =~= all);
    out
}

} // verus!
