//! The catalog side: entries as the catalog service lists them, the choice of
//! an entry's latest applicable file, and the packages, rows and update
//! lookups made from them.

use vstd::prelude::*;
use crate::addon_manager::{
    Addon, AddonView, AddonManager, addon_views, has_id, first_with_id, ids_unique,
    is_first_with_id, lemma_first_unique,
};
use crate::app::{TableItem, TableItemView, Version, item_views};
use crate::text::{copy_strings, id_greater, id_lt, lemma_id_order, str_equal, views_of};

verus! {

/// The release channel of a stable file.
pub const STABLE_RELEASE: u64 = 1;

/// One downloadable file of a catalog entry.
pub struct CatalogFile {
    pub id: String,
    pub file_date: String,
    pub display_name: String,
    pub game_version: Vec<String>,
    pub download_url: String,
    pub release_type: u64,
    pub game_version_flavor: String,
    pub modules: Vec<String>,
}

/// One add-on as the catalog lists it, with its recent files.
pub struct CatalogEntry {
    pub id: String,
    pub name: String,
    pub download_count: u64,
    pub latest_files: Vec<CatalogFile>,
}

/// The catalog's flavor tag of a game line.
pub open spec fn flavor_of(v: Version) -> Seq<char> {
    match v {
        Version::Classic => "wow_classic"@,
        Version::Tbc => "wow_burning_crusade"@,
        Version::Retail => "wow_retail"@,
    }
}

/// A file that the lookup for `flavor` may choose: stable and of that flavor.
pub open spec fn applicable(f: CatalogFile, flavor: Seq<char>) -> bool {
    f.release_type == STABLE_RELEASE && f.game_version_flavor@ == flavor
}

/// Some file of `files` is applicable.
pub open spec fn has_applicable(files: Seq<CatalogFile>, flavor: Seq<char>) -> bool {
    exists|j: int| 0 <= j < files.len() && #[trigger] applicable(files[j], flavor)
}

/// `i` is the latest applicable file: no applicable file has a greater
/// identifier, and each applicable file before it has a smaller one.
pub open spec fn is_latest(files: Seq<CatalogFile>, flavor: Seq<char>, i: int) -> bool {
    &&& 0 <= i < files.len()
    &&& applicable(files[i], flavor)
    &&& forall|j: int|
        0 <= j < files.len() && #[trigger] applicable(files[j], flavor) ==> !id_lt(
            files[i].id@,
            files[j].id@,
        )
    &&& forall|j: int|
        0 <= j < i && #[trigger] applicable(files[j], flavor) ==> id_lt(files[j].id@, files[i].id@)
}

/// The position of the latest applicable file, where there is one.
pub open spec fn latest_index(files: Seq<CatalogFile>, flavor: Seq<char>) -> int {
    choose|i: int| is_latest(files, flavor, i)
}

/// The first ten characters of a date-time text: its calendar date.
pub open spec fn date_prefix(s: Seq<char>) -> Seq<char> {
    if s.len() <= 10 {
        s
    } else {
        s.subrange(0, 10)
    }
}

/// The decimal digit of `d`.
pub open spec fn digit_char(d: int) -> char {
    if d == 0 {
        '0'
    } else if d == 1 {
        '1'
    } else if d == 2 {
        '2'
    } else if d == 3 {
        '3'
    } else if d == 4 {
        '4'
    } else if d == 5 {
        '5'
    } else if d == 6 {
        '6'
    } else if d == 7 {
        '7'
    } else if d == 8 {
        '8'
    } else {
        '9'
    }
}

/// The decimal numeral of `n`.
pub open spec fn decimal(n: nat) -> Seq<char>
    decreases n,
{
    if n < 10 {
        seq![digit_char(n as int)]
    } else {
        decimal(n / 10).push(digit_char((n % 10) as int))
    }
}

/// The three digits of `n < 1000`, with leading zeros.
pub open spec fn three_digits(n: nat) -> Seq<char> {
    seq![digit_char((n / 100) as int), digit_char(((n / 10) % 10) as int), digit_char((n % 10) as int)]
}

/// The decimal numeral of `n` with a comma between groups of three digits,
/// counted from the right.
pub open spec fn grouped(n: nat) -> Seq<char>
    decreases n,
{
    if n < 1000 {
        decimal(n)
    } else {
        grouped(n / 1000) + seq![','] + three_digits(n % 1000)
    }
}

/// The package that file `f` of entry `e` stands for.
pub open spec fn addon_of(e: CatalogEntry, f: CatalogFile) -> AddonView {
    AddonView {
        addon_id: e.id@,
        name: e.name@,
        file_id: f.id@,
        file_date: date_prefix(f.file_date@),
        modules: views_of(f.modules@),
        download_url: f.download_url@,
        version: f.display_name@,
        game_version: if f.game_version@.len() > 0 {
            f.game_version@[0]@
        } else {
            Seq::empty()
        },
        download_count: grouped(e.download_count as nat),
    }
}

/// The package that entry `e` offers for `flavor`: the one of its latest
/// applicable file, where it has one.
pub open spec fn entry_addon(e: CatalogEntry, flavor: Seq<char>) -> Option<AddonView> {
    if has_applicable(e.latest_files@, flavor) {
        Some(addon_of(e, e.latest_files@[latest_index(e.latest_files@, flavor)]))
    } else {
        None
    }
}

/// The search row of a package: name, game version, date and download count.
pub open spec fn search_item(a: AddonView) -> TableItemView {
    TableItemView {
        cells: seq![a.name, a.game_version, a.file_date, a.download_count],
        download_url: a.download_url,
        addon: a,
    }
}

/// The search rows of `entries`, in order, skipping those with no
/// applicable file.
pub open spec fn search_items(entries: Seq<CatalogEntry>, flavor: Seq<char>) -> Seq<TableItemView>
    decreases entries.len(),
{
    if entries.len() == 0 {
        Seq::empty()
    } else {
        let rest = search_items(entries.drop_last(), flavor);
        match entry_addon(entries.last(), flavor) {
            Some(a) => rest.push(search_item(a)),
            None => rest,
        }
    }
}

/// `s` with `a` recorded under its identifier: it replaces the entry of that
/// identifier in place, or goes at the end.
pub open spec fn insert_by_id(s: Seq<AddonView>, a: AddonView) -> Seq<AddonView> {
    if has_id(s, a.addon_id) {
        s.update(first_with_id(s, a.addon_id), a)
    } else {
        s.push(a)
    }
}

/// The update lookup made of `entries`: the package of each entry with an
/// applicable file, recorded under its identifier, a later entry replacing
/// an earlier one.
pub open spec fn update_lookup(entries: Seq<CatalogEntry>, flavor: Seq<char>) -> Seq<AddonView>
    decreases entries.len(),
{
    if entries.len() == 0 {
        Seq::empty()
    } else {
        let rest = update_lookup(entries.drop_last(), flavor);
        match entry_addon(entries.last(), flavor) {
            Some(a) => insert_by_id(rest, a),
            None => rest,
        }
    }
}

/// Packages of distinct identifiers, as the catalog's batch lookup returns them.
pub struct UpdateMap {
    pub items: Vec<Addon>,
}

impl View for UpdateMap {
    type V = Seq<AddonView>;

    open spec fn view(&self) -> Seq<AddonView> {
        addon_views(self.items@)
    }
}

impl UpdateMap {
    /// A lookup with no package.
    pub fn new() -> (r: UpdateMap)
        ensures
            r@.len() == 0,
    {
        UpdateMap { items: Vec::new() }
    }

    /// Records `a` under its identifier, replacing a package of the same one.
    pub fn insert(&mut self, a: Addon)
        ensures
            final(self)@ == insert_by_id(old(self)@, a@),
    {
        let ghost s = self@;
        match AddonManager::position(&self.items, &a.addon_id) {
            Some(i) => {
                proof {
                    lemma_first_unique(s, a.addon_id@, i as int);
                }
                self.items.set(i, a);
                assert(self@ =~= s.update(i as int, a@));
            },
            None => {
                self.items.push(a);
                assert(self@ =~= s.push(a@));
            },
        }
    }
}

/// Recording a package under its identifier keeps identifiers distinct.
pub proof fn lemma_insert_keeps_ids_unique(s: Seq<AddonView>, a: AddonView)
    requires
        ids_unique(s),
    ensures
        ids_unique(insert_by_id(s, a)),
        has_id(insert_by_id(s, a), a.addon_id),
{
    let r = insert_by_id(s, a);
    if has_id(s, a.addon_id) {
        let w = choose|i: int| 0 <= i < s.len() && #[trigger] s[i].addon_id == a.addon_id;
        assert(is_first_with_id(s, a.addon_id, w));
        lemma_first_unique(s, a.addon_id, w);
        assert(r[w] == a);
    } else {
        assert(r[s.len() as int] == a);
        assert forall|x: int, y: int|
            0 <= x < r.len() && 0 <= y < r.len() && x != y implies #[trigger] r[x].addon_id
            != #[trigger] r[y].addon_id by {
            if x < s.len() && y < s.len() {
                assert(r[x] == s[x] && r[y] == s[y]);
            } else if x < s.len() {
                assert(r[x] == s[x]);
            } else {
                assert(r[y] == s[y]);
            }
        }
    }
}

/// The update lookup made of any catalog answer has distinct identifiers.
pub proof fn lemma_update_lookup_ids_unique(entries: Seq<CatalogEntry>, flavor: Seq<char>)
    ensures
        ids_unique(update_lookup(entries, flavor)),
    decreases entries.len(),
{
    if entries.len() > 0 {
        lemma_update_lookup_ids_unique(entries.drop_last(), flavor);
        match entry_addon(entries.last(), flavor) {
            Some(a) => lemma_insert_keeps_ids_unique(update_lookup(entries.drop_last(), flavor), a),
            None => {},
        }
    }
}

/// At most one position is the latest applicable file.
pub proof fn lemma_latest_unique(files: Seq<CatalogFile>, flavor: Seq<char>, i: int, j: int)
    requires
        is_latest(files, flavor, i),
        is_latest(files, flavor, j),
    ensures
        i == j,
{
    if j < i {
        assert(applicable(files[j], flavor));
    } else if i < j {
        assert(applicable(files[i], flavor));
    }
}

/// The catalog's flavor tag of a game line.
pub fn flavor_name(v: Version) -> (r: &'static str)
    ensures
        r@ == flavor_of(v),
{
    match v {
        Version::Classic => "wow_classic",
        Version::Tbc => "wow_burning_crusade",
        Version::Retail => "wow_retail",
    }
}

/// The decimal digit of `d`.
fn digit(d: u64) -> (c: char)
    requires
        d < 10,
    ensures
        c == digit_char(d as int),
{
    if d == 0 {
        '0'
    } else if d == 1 {
        '1'
    } else if d == 2 {
        '2'
    } else if d == 3 {
        '3'
    } else if d == 4 {
        '4'
    } else if d == 5 {
        '5'
    } else if d == 6 {
        '6'
    } else if d == 7 {
        '7'
    } else if d == 8 {
        '8'
    } else {
        '9'
    }
}

/// Appends the decimal numeral of `n`.
fn push_decimal(s: &mut String, n: u64)
    ensures
        final(s)@ == old(s)@ + decimal(n as nat),
    decreases n,
{
    if n < 10 {
        s.push(digit(n));
        assert(final(s)@ =~= old(s)@ + decimal(n as nat));
    } else {
        push_decimal(s, n / 10);
        s.push(digit(n % 10));
        assert(final(s)@ =~= old(s)@ + decimal(n as nat));
    }
}

/// Appends the numeral of `n` grouped by thousands.
fn push_grouped(s: &mut String, n: u64)
    ensures
        final(s)@ == old(s)@ + grouped(n as nat),
    decreases n,
{
    if n < 1000 {
        push_decimal(s, n);
    } else {
        push_grouped(s, n / 1000);
        let r = n % 1000;
        s.push(',');
        s.push(digit(r / 100));
        s.push(digit((r / 10) % 10));
        s.push(digit(r % 10));
        assert(final(s)@ =~= old(s)@ + grouped(n as nat));
    }
}

/// The catalog client's handling of catalog answers.
pub struct CurseForgeAPI {}

impl CurseForgeAPI {
    /// The calendar date at the head of a catalog timestamp: its first ten
    /// characters.
    pub fn parse_date(file_date: &str) -> (r: String)
        ensures
            r@ == date_prefix(file_date@),
    {
        let n = file_date.unicode_len();
        let end: usize = if n <= 10 {
            n
        } else {
            10
        };
        let head = file_date.substring_char(0, end);
        let mut r = String::new();
        r.append(head);
        assert(file_date@.subrange(0, n as int) =~= file_date@);
        assert(r@ =~= date_prefix(file_date@));
        r
    }

    /// A download count as a decimal numeral grouped by thousands, as in
    /// `1,234,567`.
    pub fn parse_download_count(download_count: u64) -> (r: String)
        ensures
            r@ == grouped(download_count as nat),
    {
        let mut s = String::new();
        push_grouped(&mut s, download_count);
        assert(s@ =~= grouped(download_count as nat));
        s
    }

    /// The latest applicable file of a catalog entry for a game line: among
    /// its stable files of that line's flavor, the one with the greatest
    /// identifier (the first of them, should two share it).
    pub fn latest_file(entry: &CatalogEntry, game_version: Version) -> (r: Option<&CatalogFile>)
        ensures
            r is None <==> !has_applicable(entry.latest_files@, flavor_of(game_version)),
            r matches Some(f) ==> is_latest(
                entry.latest_files@,
                flavor_of(game_version),
                latest_index(entry.latest_files@, flavor_of(game_version)),
            ) && *f == entry.latest_files@[latest_index(
                entry.latest_files@,
                flavor_of(game_version),
            )],
    {
        let flavor = flavor_name(game_version);
        let files = &entry.latest_files;
        let ghost fl = flavor@;
        let mut best: Option<usize> = None;
        let mut i: usize = 0;
        while i < files.len()
            invariant
                fl == flavor@,
                i <= files@.len(),
                best is None ==> forall|j: int| 0 <= j < i ==> !#[trigger] applicable(files@[j], fl),
                best matches Some(b) ==> b < i && applicable(files@[b as int], fl) && (forall|j: int|
                    0 <= j < i && #[trigger] applicable(files@[j], fl) ==> !id_lt(
                        files@[b as int].id@,
                        files@[j].id@,
                    )) && (forall|j: int|
                    0 <= j < b && #[trigger] applicable(files@[j], fl) ==> id_lt(
                        files@[j].id@,
                        files@[b as int].id@,
                    )),
            decreases files@.len() - i,
        {
            let f = &files[i];
            if f.release_type == STABLE_RELEASE && str_equal(f.game_version_flavor.as_str(), flavor) {
                assert(applicable(files@[i as int], fl));
                match best {
                    None => {
                        proof {
                            lemma_id_order(f.id@, f.id@, f.id@);
                        }
                        best = Some(i);
                    },
                    Some(b) => {
                        if id_greater(f.id.as_str(), files[b].id.as_str()) {
                            proof {
                                let fi = files@[i as int].id@;
                                let fb = files@[b as int].id@;
                                assert forall|j: int|
                                    0 <= j < i && #[trigger] applicable(files@[j], fl) implies id_lt(
                                    files@[j].id@,
                                    fi,
                                ) by {
                                    lemma_id_order(files@[j].id@, fb, fi);
                                    lemma_id_order(fb, files@[j].id@, fi);
                                }
                                assert forall|j: int|
                                    0 <= j < i + 1 && #[trigger] applicable(files@[j], fl) implies !id_lt(
                                    fi,
                                    files@[j].id@,
                                ) by {
                                    lemma_id_order(files@[j].id@, fi, fi);
                                }
                            }
                            best = Some(i);
                        }
                    },
                }
            }
            i = i + 1;
        }
        match best {
            None => None,
            Some(b) => {
                proof {
                    let fl2 = flavor_of(game_version);
                    assert(fl2 == fl);
                    assert(is_latest(files@, fl, b as int));
                    let c = latest_index(files@, fl);
                    lemma_latest_unique(files@, fl, b as int, c);
                }
                Some(&files[b])
            },
        }
    }

    /// The package that a catalog entry offers for a game line: the one of
    /// its latest applicable file, or none where it has no such file.
    pub fn parse_json(entry: &CatalogEntry, game_version: Version) -> (r: Option<Addon>)
        ensures
            (match r {
                Some(a) => Some(a@),
                None => None,
            }) == entry_addon(*entry, flavor_of(game_version)),
    {
        match CurseForgeAPI::latest_file(entry, game_version) {
            None => None,
            Some(file) => {
                let game_version_tag = if file.game_version.len() > 0 {
                    file.game_version[0].clone()
                } else {
                    String::new()
                };
                let addon = Addon {
                    addon_id: entry.id.clone(),
                    name: entry.name.clone(),
                    file_id: file.id.clone(),
                    file_date: CurseForgeAPI::parse_date(file.file_date.as_str()),
                    modules: copy_strings(&file.modules),
                    download_url: file.download_url.clone(),
                    version: file.display_name.clone(),
                    game_version: game_version_tag,
                    download_count: CurseForgeAPI::parse_download_count(entry.download_count),
                };
                assert(addon@.modules =~= views_of(file.modules@));
                assert(addon@ == addon_of(*entry, *file));
                Some(addon)
            },
        }
    }

    /// The search row of a package.
    fn search_row(a: Addon) -> (r: TableItem)
        ensures
            r@ == search_item(a@),
    {
        let mut cells: Vec<String> = Vec::new();
        cells.push(a.name.clone());
        cells.push(a.game_version.clone());
        cells.push(a.file_date.clone());
        cells.push(a.download_count.clone());
        let url = a.download_url.clone();
        let r = TableItem { cells: cells, download_url: url, addon: a };
        assert(r@.cells =~= search_item(a@).cells);
        r
    }

    /// The rows of a catalog search answer for a game line: one for each
    /// entry with an applicable file, in the answer's order.
    pub fn search(entries: &Vec<CatalogEntry>, game_version: Version) -> (r: Vec<TableItem>)
        ensures
            item_views(r@) == search_items(entries@, flavor_of(game_version)),
    {
        let ghost fl = flavor_of(game_version);
        let mut items: Vec<TableItem> = Vec::new();
        let mut i: usize = 0;
        while i < entries.len()
            invariant
                fl == flavor_of(game_version),
                i <= entries@.len(),
                item_views(items@) == search_items(entries@.subrange(0, i as int), fl),
            decreases entries@.len() - i,
        {
            let ghost before = items@;
            assert(entries@.subrange(0, i + 1).drop_last() =~= entries@.subrange(0, i as int));
            match CurseForgeAPI::parse_json(&entries[i], game_version) {
                Some(a) => {
                    let row = CurseForgeAPI::search_row(a);
                    items.push(row);
                    assert(item_views(items@) =~= item_views(before).push(row@));
                },
                None => {},
            }
            i = i + 1;
        }
        assert(entries@.subrange(0, entries@.len() as int) =~= entries@);
        items
    }

    /// The update lookup of a batch catalog answer for a game line: for each
    /// entry with an applicable file, its package under its identifier.
    pub fn check_for_updates(entries: &Vec<CatalogEntry>, game_version: Version) -> (r: UpdateMap)
        ensures
            r@ == update_lookup(entries@, flavor_of(game_version)),
            ids_unique(r@),
    {
        let ghost fl = flavor_of(game_version);
        let mut map = UpdateMap::new();
        let mut i: usize = 0;
        while i < entries.len()
            invariant
                fl == flavor_of(game_version),
                i <= entries@.len(),
                map@ == update_lookup(entries@.subrange(0, i as int), fl),
            decreases entries@.len() - i,
        {
            assert(entries@.subrange(0, i + 1).drop_last() =~= entries@.subrange(0, i as int));
            match CurseForgeAPI::parse_json(&entries[i], game_version) {
                Some(a) => {
                    map.insert(a);
                },
                None => {},
            }
            i = i + 1;
        }
        assert(entries@.subrange(0, entries@.len() as int) =~= entries@);
        proof {
            lemma_update_lookup_ids_unique(entries@, fl);
        }
        map
    }
}

} // verus!
