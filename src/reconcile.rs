//! Reconciliation: installed packages compared against the catalog's update
//! lookup, giving one status row per package and the packages to update.

use vstd::prelude::*;
use crate::addon_manager::{
    Addon, AddonView, AddonManager, Addons, addon_views, has_id, first_with_id, lemma_first_exists,
    lemma_first_unique,
};
use crate::app::{TableItem, TableItemView, item_views};
use crate::curse::UpdateMap;
use crate::text::{id_greater, id_lt};

verus! {

/// A decimal digit.
pub open spec fn is_digit(c: char) -> bool {
    '0' <= c && c <= '9'
}

/// The value of a string of decimal digits.
pub open spec fn digits_value(d: Seq<char>) -> int
    decreases d.len(),
{
    if d.len() == 0 {
        0
    } else {
        digits_value(d.drop_last()) * 10 + (d.last() as int - '0' as int)
    }
}

/// The value of an integer numeral: an optional sign, then at least one
/// decimal digit.
pub open spec fn numeral_value(s: Seq<char>) -> Option<int> {
    if s.len() > 0 && (s[0] == '+' || s[0] == '-') {
        let d = s.drop_first();
        if d.len() > 0 && forall|k: int| 0 <= k < d.len() ==> is_digit(#[trigger] d[k]) {
            Some(
                if s[0] == '-' {
                    -digits_value(d)
                } else {
                    digits_value(d)
                },
            )
        } else {
            None
        }
    } else if s.len() > 0 && forall|k: int| 0 <= k < s.len() ==> is_digit(#[trigger] s[k]) {
        Some(digits_value(s))
    } else {
        None
    }
}

/// The `i32` that a text denotes, where it is a numeral within range.
pub open spec fn parsed_i32(s: Seq<char>) -> Option<i32> {
    match numeral_value(s) {
        Some(v) => if i32::MIN <= v <= i32::MAX {
            Some(v as i32)
        } else {
            None
        },
        None => None,
    }
}

/// Relies on `str::parse::<i32>`: an optional sign followed by decimal
/// digits, within the range of `i32`; anything else is refused.
#[verifier::external_body]
fn parse_i32(s: &str) -> (r: Option<i32>)
    ensures
        r == parsed_i32(s@),
{
    s.parse::<i32>().ok()
}

/// The catalog identifiers of `s`, in order: each package identifier that
/// reads as a non-zero `i32`.
pub open spec fn catalog_ids(s: Seq<AddonView>) -> Seq<i32>
    decreases s.len(),
{
    if s.len() == 0 {
        Seq::empty()
    } else {
        let rest = catalog_ids(s.drop_last());
        match parsed_i32(s.last().addon_id) {
            Some(v) => if v != 0 {
                rest.push(v)
            } else {
                rest
            },
            None => rest,
        }
    }
}

/// The package of the lookup that has identifier `id`, where there is one.
pub open spec fn lookup(updates: Seq<AddonView>, id: Seq<char>) -> Option<AddonView> {
    if has_id(updates, id) {
        Some(updates[first_with_id(updates, id)])
    } else {
        None
    }
}

/// The update of installed package `p`: the lookup's package of its
/// identifier, where that one's file identifier is greater.
pub open spec fn newer_update(updates: Seq<AddonView>, p: AddonView) -> Option<AddonView> {
    match lookup(updates, p.addon_id) {
        Some(u) => if id_lt(p.file_id, u.file_id) {
            Some(u)
        } else {
            None
        },
        None => None,
    }
}

/// The version shown as available for `p`.
pub open spec fn shown_version(updates: Seq<AddonView>, p: AddonView) -> Seq<char> {
    match newer_update(updates, p) {
        Some(u) => u.version,
        None => p.version,
    }
}

/// The archive that updating or reinstalling `p` would fetch.
pub open spec fn shown_url(updates: Seq<AddonView>, p: AddonView) -> Seq<char> {
    match newer_update(updates, p) {
        Some(u) => u.download_url,
        None => p.download_url,
    }
}

/// The status label of `p`: up to date where the shown version is the
/// installed one.
pub open spec fn status_text(updates: Seq<AddonView>, p: AddonView) -> Seq<char> {
    if shown_version(updates, p) == p.version {
        "Up-to-date"@
    } else {
        "Outdated"@
    }
}

/// The status row of installed package `p`: status, name, game version,
/// installed version and available version.
pub open spec fn status_row(updates: Seq<AddonView>, p: AddonView) -> TableItemView {
    TableItemView {
        cells: seq![status_text(updates, p), p.name, p.game_version, p.version, shown_version(updates, p)],
        download_url: shown_url(updates, p),
        addon: p,
    }
}

/// The updates to apply to `s`, in its order: the newer update of each
/// package that has one.
pub open spec fn update_candidates(updates: Seq<AddonView>, s: Seq<AddonView>) -> Seq<AddonView>
    decreases s.len(),
{
    if s.len() == 0 {
        Seq::empty()
    } else {
        let rest = update_candidates(updates, s.drop_last());
        match newer_update(updates, s.last()) {
            Some(u) => rest.push(u),
            None => rest,
        }
    }
}

/// The outcome of reconciling a manifest against an update lookup.
pub struct Reconciliation {
    /// One status row per installed package, in manifest order.
    pub rows: Vec<TableItem>,
    /// The newer packages to install in place of the installed ones.
    pub updates: Vec<Addon>,
}

/// The catalog identifiers to look up for a manifest: each package
/// identifier that reads as a non-zero `i32`, in manifest order.
pub fn addon_ids(installed: &Addons) -> (r: Vec<i32>)
    ensures
        r@ == catalog_ids(installed@),
{
    let mut ids: Vec<i32> = Vec::new();
    let mut i: usize = 0;
    while i < installed.addons.len()
        invariant
            i <= installed@.len(),
            ids@ == catalog_ids(installed@.subrange(0, i as int)),
        decreases installed@.len() - i,
    {
        assert(installed@.subrange(0, i + 1).drop_last() =~= installed@.subrange(0, i as int));
        match parse_i32(installed.addons[i].addon_id.as_str()) {
            Some(v) => {
                if v != 0 {
                    ids.push(v);
                }
            },
            None => {},
        }
        i = i + 1;
    }
    assert(installed@.subrange(0, installed@.len() as int) =~= installed@);
    ids
}

/// The text of a status label.
fn status_label(up_to_date: bool) -> (r: String)
    ensures
        r@ == (if up_to_date {
            "Up-to-date"@
        } else {
            "Outdated"@
        }),
{
    let mut r = String::new();
    if up_to_date {
        r.append("Up-to-date");
    } else {
        r.append("Outdated");
    }
    assert(r@ =~= (if up_to_date {
        "Up-to-date"@
    } else {
        "Outdated"@
    }));
    r
}

/// The status row of one installed package, and its newer update if any.
fn reconcile_one(p: &Addon, updates: &UpdateMap) -> (r: (TableItem, Option<Addon>))
    ensures
        r.0@ == status_row(updates@, p@),
        (match r.1 {
            Some(u) => Some(u@),
            None => None,
        }) == newer_update(updates@, p@),
{
    let mut newer: Option<Addon> = None;
    let download_url;
    let latest_version;
    match AddonManager::position(&updates.items, &p.addon_id) {
        Some(k) => {
            proof {
                lemma_first_unique(updates@, p.addon_id@, k as int);
            }
            let u = &updates.items[k];
            if id_greater(u.file_id.as_str(), p.file_id.as_str()) {
                download_url = u.download_url.clone();
                latest_version = u.version.clone();
                newer = Some(u.duplicate());
            } else {
                download_url = p.download_url.clone();
                latest_version = p.version.clone();
            }
        },
        None => {
            download_url = p.download_url.clone();
            latest_version = p.version.clone();
        },
    }
    let status = status_label(latest_version == p.version);
    let mut cells: Vec<String> = Vec::new();
    cells.push(status);
    cells.push(p.name.clone());
    cells.push(p.game_version.clone());
    cells.push(p.version.clone());
    cells.push(latest_version);
    let row = TableItem { cells: cells, download_url: download_url, addon: p.duplicate() };
    assert(row@.cells =~= status_row(updates@, p@).cells);
    (row, newer)
}

/// Reconciles a manifest against the catalog's update lookup: a status row
/// for each installed package, in manifest order, and the newer packages to
/// install, one for each package whose lookup entry has a greater file
/// identifier.
pub fn reconcile(installed: &Addons, updates: &UpdateMap) -> (r: Reconciliation)
    ensures
        item_views(r.rows@) == installed@.map_values(|p: AddonView| status_row(updates@, p)),
        addon_views(r.updates@) == update_candidates(updates@, installed@),
{
    let mut rows: Vec<TableItem> = Vec::new();
    let mut cands: Vec<Addon> = Vec::new();
    let mut i: usize = 0;
    while i < installed.addons.len()
        invariant
            i <= installed@.len(),
            item_views(rows@) == installed@.subrange(0, i as int).map_values(
                |p: AddonView| status_row(updates@, p),
            ),
            addon_views(cands@) == update_candidates(updates@, installed@.subrange(0, i as int)),
        decreases installed@.len() - i,
    {
        assert(installed@.subrange(0, i + 1).drop_last() =~= installed@.subrange(0, i as int));
        let ghost rows_before = rows@;
        let ghost cands_before = cands@;
        let (row, newer) = reconcile_one(&installed.addons[i], updates);
        rows.push(row);
        assert(item_views(rows@) =~= item_views(rows_before).push(row@));
        assert(item_views(rows@) =~= installed@.subrange(0, i + 1).map_values(
            |p: AddonView| status_row(updates@, p),
        ));
        match newer {
            Some(u) => {
                cands.push(u);
                assert(addon_views(cands@) =~= addon_views(cands_before).push(u@));
            },
            None => {},
        }
        i = i + 1;
    }
    assert(installed@.subrange(0, installed@.len() as int) =~= installed@);
    Reconciliation { rows: rows, updates: cands }
}

/// The two sources of a package's status agree: a package with no newer
/// update is up to date, and one whose newer update shows another version is
/// outdated.
pub proof fn lemma_status_agrees(updates: Seq<AddonView>, p: AddonView)
    ensures
        newer_update(updates, p) is None ==> status_text(updates, p) == "Up-to-date"@,
        newer_update(updates, p) matches Some(u) ==> (u.version != p.version ==> status_text(
            updates,
            p,
        ) == "Outdated"@),
{
}

/// An update found for a package has the package's identifier and a greater
/// file identifier.
pub proof fn lemma_newer_update_matches(updates: Seq<AddonView>, p: AddonView)
    ensures
        newer_update(updates, p) matches Some(u) ==> u.addon_id == p.addon_id && id_lt(
            p.file_id,
            u.file_id,
        ),
{
    if has_id(updates, p.addon_id) {
        lemma_first_exists(updates, p.addon_id);
    }
}

/// Each update to apply stands for an installed package of the same
/// identifier whose file identifier it exceeds.
pub proof fn lemma_candidates_are_newer(updates: Seq<AddonView>, s: Seq<AddonView>)
    ensures
        forall|k: int|
            0 <= k < update_candidates(updates, s).len() ==> exists|i: int|
                0 <= i < s.len() && s[i].addon_id == (#[trigger] update_candidates(updates, s)[k]).addon_id
                    && id_lt(s[i].file_id, update_candidates(updates, s)[k].file_id),
    decreases s.len(),
{
    if s.len() > 0 {
        let t = s.drop_last();
        let rest = update_candidates(updates, t);
        lemma_candidates_are_newer(updates, t);
        lemma_newer_update_matches(updates, s.last());
        let c = update_candidates(updates, s);
        assert forall|k: int| 0 <= k < c.len() implies exists|i: int|
            0 <= i < s.len() && s[i].addon_id == (#[trigger] c[k]).addon_id && id_lt(
                s[i].file_id,
                c[k].file_id,
            ) by {
            if k < rest.len() {
                assert(c[k] == rest[k]);
                let i = choose|i: int|
                    0 <= i < t.len() && t[i].addon_id == (#[trigger] rest[k]).addon_id && id_lt(
                        t[i].file_id,
                        rest[k].file_id,
                    );
                assert(s[i] == t[i]);
            } else {
                assert(s[s.len() - 1] == s.last());
            }
        }
    }
}

} // verus!
