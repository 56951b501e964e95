//! The manifest: the ordered record of the packages installed under one root
//! directory, and the changes that install, update and removal make to it.

use vstd::prelude::*;
use crate::text::{copy_strings, str_equal, views_of};

verus! {

/// One installed or catalog-listed version of an add-on.
#[derive(Debug, Clone)]
pub struct Addon {
    pub addon_id: String,
    pub name: String,
    pub file_id: String,
    pub file_date: String,
    pub modules: Vec<String>,
    pub download_url: String,
    pub version: String,
    pub game_version: String,
    pub download_count: String,
}

/// The contents of an `Addon`, as text values.
pub struct AddonView {
    pub addon_id: Seq<char>,
    pub name: Seq<char>,
    pub file_id: Seq<char>,
    pub file_date: Seq<char>,
    pub modules: Seq<Seq<char>>,
    pub download_url: Seq<char>,
    pub version: Seq<char>,
    pub game_version: Seq<char>,
    pub download_count: Seq<char>,
}

impl View for Addon {
    type V = AddonView;

    open spec fn view(&self) -> AddonView {
        AddonView {
            addon_id: self.addon_id@,
            name: self.name@,
            file_id: self.file_id@,
            file_date: self.file_date@,
            modules: views_of(self.modules@),
            download_url: self.download_url@,
            version: self.version@,
            game_version: self.game_version@,
            download_count: self.download_count@,
        }
    }
}

impl Addon {
    /// A field-for-field copy.
    pub fn duplicate(&self) -> (r: Addon)
        ensures
            r@ == self@,
    {
        Addon {
            addon_id: self.addon_id.clone(),
            name: self.name.clone(),
            file_id: self.file_id.clone(),
            file_date: self.file_date.clone(),
            modules: copy_strings(&self.modules),
            download_url: self.download_url.clone(),
            version: self.version.clone(),
            game_version: self.game_version.clone(),
            download_count: self.download_count.clone(),
        }
    }
}

/// The views of a sequence of packages.
pub open spec fn addon_views(s: Seq<Addon>) -> Seq<AddonView> {
    s.map_values(|a: Addon| a@)
}

/// The manifest of one root directory: installed packages in order.
pub struct Addons {
    pub addons: Vec<Addon>,
}

impl View for Addons {
    type V = Seq<AddonView>;

    open spec fn view(&self) -> Seq<AddonView> {
        addon_views(self.addons@)
    }
}

impl Addons {
    /// A manifest with no package.
    pub fn new() -> (r: Addons)
        ensures
            r@.len() == 0,
    {
        Addons { addons: Vec::new() }
    }
}

/// Some package of `s` has identifier `id`.
pub open spec fn has_id(s: Seq<AddonView>, id: Seq<char>) -> bool {
    exists|i: int| 0 <= i < s.len() && #[trigger] s[i].addon_id == id
}

/// `i` is the first position of `s` that holds identifier `id`.
pub open spec fn is_first_with_id(s: Seq<AddonView>, id: Seq<char>, i: int) -> bool {
    &&& 0 <= i < s.len()
    &&& s[i].addon_id == id
    &&& forall|j: int| 0 <= j < i ==> #[trigger] s[j].addon_id != id
}

/// The first position of `s` that holds identifier `id`, where there is one.
pub open spec fn first_with_id(s: Seq<AddonView>, id: Seq<char>) -> int {
    choose|i: int| is_first_with_id(s, id, i)
}

/// No two packages of `s` share an identifier.
pub open spec fn ids_unique(s: Seq<AddonView>) -> bool {
    forall|i: int, j: int|
        0 <= i < s.len() && 0 <= j < s.len() && i != j ==> #[trigger] s[i].addon_id
            != #[trigger] s[j].addon_id
}

/// The manifest after removing the package with identifier `id`: its first
/// entry of that identifier goes, and nothing else changes.
pub open spec fn manifest_after_delete(s: Seq<AddonView>, id: Seq<char>) -> Seq<AddonView> {
    if has_id(s, id) {
        s.remove(first_with_id(s, id))
    } else {
        s
    }
}

/// A module name that names one directory directly below the root.
pub open spec fn is_plain_segment(m: Seq<char>) -> bool {
    &&& m.len() > 0
    &&& m != seq!['.']
    &&& m != seq!['.', '.']
    &&& forall|k: int| 0 <= k < m.len() ==> #[trigger] m[k] != '/' && m[k] != '\\'
}

/// The path of module directory `m` below `root`.
pub open spec fn dir_below(root: Seq<char>, m: Seq<char>) -> Seq<char> {
    root + seq!['/'] + m
}

/// The directories that removing the package with identifier `id` deletes:
/// those of the manifest entry that goes.
pub open spec fn removed_paths(root: Seq<char>, s: Seq<AddonView>, id: Seq<char>) -> Seq<Seq<char>> {
    if has_id(s, id) {
        s[first_with_id(s, id)].modules.map_values(|m: Seq<char>| dir_below(root, m))
    } else {
        Seq::empty()
    }
}

/// Whether removing the package with identifier `id` would name a module
/// directory that is not directly below the root.
pub open spec fn removal_unsafe(s: Seq<AddonView>, id: Seq<char>) -> bool {
    has_id(s, id) && exists|k: int|
        0 <= k < s[first_with_id(s, id)].modules.len() && !is_plain_segment(
            #[trigger] s[first_with_id(s, id)].modules[k],
        )
}

/// Why a change to the manifest was refused.
#[derive(Debug)]
pub enum StorageError {
    /// A module name that would leave the root directory, or name the root itself.
    UnsafeModuleName(String),
}

/// The manifest store's changes to a manifest held in memory.
pub struct AddonManager {}

/// Whether `m` names exactly one directory directly below the root.
pub fn plain_segment(m: &str) -> (r: bool)
    ensures
        r == is_plain_segment(m@),
{
    proof {
        reveal_strlit(".");
        reveal_strlit("..");
        assert("."@ =~= seq!['.']);
        assert(".."@ =~= seq!['.', '.']);
    }
    let n = m.unicode_len();
    if n == 0 {
        return false;
    }
    if str_equal(m, ".") || str_equal(m, "..") {
        return false;
    }
    let mut i: usize = 0;
    while i < n
        invariant
            n == m@.len(),
            i <= n,
            forall|k: int| 0 <= k < i ==> #[trigger] m@[k] != '/' && m@[k] != '\\',
        decreases n - i,
    {
        let c = m.get_char(i);
        if c == '/' || c == '\\' {
            return false;
        }
        i = i + 1;
    }
    true
}

/// `root`, a separator, then `m`.
fn join_path(root: &str, m: &str) -> (r: String)
    ensures
        r@ == dir_below(root@, m@),
{
    let mut r = String::new();
    r.append(root);
    r.push('/');
    r.append(m);
    assert(r@ =~= dir_below(root@, m@));
    r
}

impl AddonManager {
    /// The manifest to write under a root: a fresh empty one where none exists
    /// yet, and nothing where one does.
    pub fn init_addon_db(manifest_exists: bool) -> (r: Option<Addons>)
        ensures
            manifest_exists <==> (r is None),
            r matches Some(a) ==> a@.len() == 0,
    {
        if manifest_exists {
            None
        } else {
            Some(Addons::new())
        }
    }

    /// The first position of the package with identifier `id`.
    pub fn position(addons: &Vec<Addon>, id: &String) -> (r: Option<usize>)
        ensures
            r matches Some(i) ==> is_first_with_id(addon_views(addons@), id@, i as int),
            r is None ==> !has_id(addon_views(addons@), id@),
    {
        let mut i: usize = 0;
        while i < addons.len()
            invariant
                i <= addons@.len(),
                forall|j: int| 0 <= j < i ==> #[trigger] addon_views(addons@)[j].addon_id != id@,
            decreases addons@.len() - i,
        {
            if addons[i].addon_id == *id {
                return Some(i);
            }
            i = i + 1;
        }
        None
    }

    /// Records a package at the end of the manifest. No check for a package
    /// of the same identifier is made: remove that one first.
    pub fn add_to_db(addons: &mut Addons, addon: Addon)
        ensures
            final(addons)@ == old(addons)@.push(addon@),
    {
        addons.addons.push(addon);
        assert(final(addons)@ =~= old(addons)@.push(addon@));
    }

    /// Removes the package with the identifier of `addon` from the manifest and
    /// returns the module directories under `root` to delete with it: those of
    /// the manifest entry that goes. Where no entry has that identifier, the
    /// manifest is kept and nothing is to be deleted. Where a module name of
    /// that entry is not a single directory name, nothing changes and the name
    /// is reported.
    pub fn delete(root: &str, addons: &mut Addons, addon: &Addon) -> (r: Result<
        Vec<String>,
        StorageError,
    >)
        ensures
            r is Err ==> removal_unsafe(old(addons)@, addon.addon_id@),
            removal_unsafe(old(addons)@, addon.addon_id@) ==> r is Err,
            r is Err ==> final(addons)@ == old(addons)@,
            r matches Ok(paths) ==> views_of(paths@) == removed_paths(
                root@,
                old(addons)@,
                addon.addon_id@,
            ) && final(addons)@ == manifest_after_delete(old(addons)@, addon.addon_id@),
    {
        let ghost s = addons@;
        let ghost id = addon.addon_id@;
        match AddonManager::position(&addons.addons, &addon.addon_id) {
            None => {
                assert(views_of(Seq::<String>::empty()) =~= Seq::<Seq<char>>::empty());
                Ok(Vec::new())
            },
            Some(index) => {
                proof {
                    lemma_first_unique(s, id, index as int);
                }
                let ghost mods = s[index as int].modules;
                let mut paths: Vec<String> = Vec::new();
                let mut k: usize = 0;
                let n = addons.addons[index].modules.len();
                while k < n
                    invariant
                        addons@ == s,
                        index < s.len(),
                        id == addon.addon_id@,
                        has_id(s, id),
                        first_with_id(s, id) == index,
                        mods == s[index as int].modules,
                        n == mods.len(),
                        k <= n,
                        forall|j: int| 0 <= j < k ==> is_plain_segment(#[trigger] mods[j]),
                        views_of(paths@) == mods.subrange(0, k as int).map_values(
                            |m: Seq<char>| dir_below(root@, m),
                        ),
                    decreases n - k,
                {
                    let m = &addons.addons[index].modules[k];
                    if !plain_segment(m.as_str()) {
                        assert(!is_plain_segment(mods[k as int]));
                        assert(!is_plain_segment(s[first_with_id(s, id)].modules[k as int]));
                        return Err(StorageError::UnsafeModuleName(m.clone()));
                    }
                    let p = join_path(root, m.as_str());
                    let ghost before = paths@;
                    paths.push(p);
                    proof {
                        assert(paths@ == before.push(p));
                        assert(views_of(paths@) =~= views_of(before).push(p@));
                    }
                    k = k + 1;
                    assert(views_of(paths@) =~= mods.subrange(0, k as int).map_values(
                        |m: Seq<char>| dir_below(root@, m),
                    ));
                }
                assert(mods.subrange(0, n as int) =~= mods);
                addons.addons.remove(index);
                assert(addons@ =~= s.remove(index as int));
                Ok(paths)
            },
        }
    }
}

/// The first position of an identifier is the one that `first_with_id` names.
pub proof fn lemma_first_unique(s: Seq<AddonView>, id: Seq<char>, i: int)
    requires
        is_first_with_id(s, id, i),
    ensures
        has_id(s, id),
        first_with_id(s, id) == i,
{
    assert(s[i].addon_id == id);
    let j = first_with_id(s, id);
    assert(is_first_with_id(s, id, j));
    if j < i {
        assert(s[j].addon_id != id);
    } else if i < j {
        assert(s[i].addon_id != id);
    }
}

/// Where a manifest holds an identifier, `first_with_id` names its first position.
pub proof fn lemma_first_exists(s: Seq<AddonView>, id: Seq<char>)
    requires
        has_id(s, id),
    ensures
        is_first_with_id(s, id, first_with_id(s, id)),
    decreases s.len(),
{
    let t = s.drop_last();
    if has_id(t, id) {
        lemma_first_exists(t, id);
        let i = first_with_id(t, id);
        assert(s[i] == t[i]);
        assert forall|j: int| 0 <= j < i implies #[trigger] s[j].addon_id != id by {
            assert(s[j] == t[j]);
            assert(t[j].addon_id != id);
        }
        assert(is_first_with_id(s, id, i));
    } else {
        let w = choose|i: int| 0 <= i < s.len() && #[trigger] s[i].addon_id == id;
        if w < s.len() - 1 {
            assert(t[w].addon_id == id);
        }
        assert forall|j: int| 0 <= j < s.len() - 1 implies #[trigger] s[j].addon_id != id by {
            assert(s[j] == t[j]);
            if t[j].addon_id == id {
                assert(has_id(t, id));
            }
        }
        assert(is_first_with_id(s, id, s.len() - 1));
    }
}

/// In a manifest of distinct identifiers, the first entry of an identifier is
/// its only one.
pub proof fn lemma_unique_position(s: Seq<AddonView>, i: int)
    requires
        ids_unique(s),
        0 <= i < s.len(),
    ensures
        has_id(s, s[i].addon_id),
        first_with_id(s, s[i].addon_id) == i,
{
    assert(is_first_with_id(s, s[i].addon_id, i));
    lemma_first_unique(s, s[i].addon_id, i);
}

/// Removing a package from a manifest of distinct identifiers keeps them
/// distinct, and the identifier no longer occurs in it.
pub proof fn lemma_delete_keeps_ids_unique(s: Seq<AddonView>, id: Seq<char>)
    requires
        ids_unique(s),
    ensures
        ids_unique(manifest_after_delete(s, id)),
        !has_id(manifest_after_delete(s, id), id),
{
    if has_id(s, id) {
        lemma_first_exists(s, id);
        let i = first_with_id(s, id);
        let r = s.remove(i);
        assert forall|a: int, b: int|
            0 <= a < r.len() && 0 <= b < r.len() && a != b implies #[trigger] r[a].addon_id
            != #[trigger] r[b].addon_id by {
            let sa = if a < i { a } else { a + 1 };
            let sb = if b < i { b } else { b + 1 };
            assert(r[a] == s[sa]);
            assert(r[b] == s[sb]);
        }
        if has_id(r, id) {
            let w = choose|k: int| 0 <= k < r.len() && #[trigger] r[k].addon_id == id;
            let sw = if w < i { w } else { w + 1 };
            assert(r[w] == s[sw]);
        }
    }
}

/// Appending a package whose identifier a manifest does not hold keeps the
/// manifest's identifiers distinct.
pub proof fn lemma_append_fresh_keeps_ids_unique(s: Seq<AddonView>, a: AddonView)
    requires
        ids_unique(s),
        !has_id(s, a.addon_id),
    ensures
        ids_unique(s.push(a)),
{
    let r = s.push(a);
    assert forall|x: int, y: int|
        0 <= x < r.len() && 0 <= y < r.len() && x != y implies #[trigger] r[x].addon_id
        != #[trigger] r[y].addon_id by {
        if x == s.len() {
            assert(r[y] == s[y]);
        } else if y == s.len() {
            assert(r[x] == s[x]);
        } else {
            assert(r[x] == s[x] && r[y] == s[y]);
        }
    }
}

/// Removal from a manifest of distinct identifiers: the package's entry goes
/// and its module directories are the ones deleted; an identifier that the
/// manifest does not hold leaves it unchanged and deletes nothing.
pub proof fn lemma_remove_semantics(root: Seq<char>, s: Seq<AddonView>, id: Seq<char>)
    requires
        ids_unique(s),
    ensures
        !has_id(manifest_after_delete(s, id), id),
        ids_unique(manifest_after_delete(s, id)),
        forall|i: int|
            0 <= i < s.len() && #[trigger] s[i].addon_id == id ==> removed_paths(root, s, id)
                == s[i].modules.map_values(|m: Seq<char>| dir_below(root, m))
                && manifest_after_delete(s, id) == s.remove(i),
        !has_id(s, id) ==> manifest_after_delete(s, id) == s && removed_paths(root, s, id).len()
            == 0,
{
    lemma_delete_keeps_ids_unique(s, id);
    assert forall|i: int| 0 <= i < s.len() && #[trigger] s[i].addon_id == id implies first_with_id(s, id) == i by {
        lemma_unique_position(s, i);
    }
}

/// An update — removing the installed entry of a package, then recording the
/// new version of the same identifier — keeps a manifest's identifiers
/// distinct, and leaves the new version as the only entry of its identifier.
pub proof fn lemma_update_replaces(s: Seq<AddonView>, new: AddonView)
    requires
        ids_unique(s),
    ensures
        ids_unique(manifest_after_delete(s, new.addon_id).push(new)),
        forall|i: int|
            0 <= i < manifest_after_delete(s, new.addon_id).len() + 1 && (#[trigger] manifest_after_delete(s, new.addon_id).push(new)[i]).addon_id
                == new.addon_id ==> manifest_after_delete(s, new.addon_id).push(new)[i] == new,
        has_id(manifest_after_delete(s, new.addon_id).push(new), new.addon_id),
{
    let t = manifest_after_delete(s, new.addon_id);
    lemma_delete_keeps_ids_unique(s, new.addon_id);
    lemma_append_fresh_keeps_ids_unique(t, new);
    let r = t.push(new);
    assert(r[t.len() as int] == new);
    assert forall|i: int| 0 <= i < t.len() + 1 && (#[trigger] r[i]).addon_id == new.addon_id implies r[i] == new by {
        if i < t.len() {
            assert(r[i] == t[i]);
        }
    }
}

/// A change that install, update and removal make to a manifest.
pub enum ManifestOp {
    /// Record a package at the end.
    Append(AddonView),
    /// Remove the package with this identifier.
    Remove(Seq<char>),
}

/// The manifest after one change.
pub open spec fn apply_op(s: Seq<AddonView>, op: ManifestOp) -> Seq<AddonView> {
    match op {
        ManifestOp::Append(a) => s.push(a),
        ManifestOp::Remove(id) => manifest_after_delete(s, id),
    }
}

/// The manifest after a sequence of changes, in order.
pub open spec fn apply_ops(s: Seq<AddonView>, ops: Seq<ManifestOp>) -> Seq<AddonView>
    decreases ops.len(),
{
    if ops.len() == 0 {
        s
    } else {
        apply_op(apply_ops(s, ops.drop_last()), ops.last())
    }
}

/// Each append in `ops` records an identifier that the manifest does not
/// hold at that point, as the store's callers see to.
pub open spec fn appends_fresh(s: Seq<AddonView>, ops: Seq<ManifestOp>) -> bool {
    forall|i: int|
        0 <= i < ops.len() ==> match #[trigger] ops[i] {
            ManifestOp::Append(a) => !has_id(apply_ops(s, ops.subrange(0, i)), a.addon_id),
            ManifestOp::Remove(_) => true,
        }
}

/// After any sequence of appends and removals in which each append records
/// an identifier not present at that point, no two packages of the manifest
/// share an identifier.
pub proof fn lemma_ops_keep_ids_unique(s: Seq<AddonView>, ops: Seq<ManifestOp>)
    requires
        ids_unique(s),
        appends_fresh(s, ops),
    ensures
        ids_unique(apply_ops(s, ops)),
    decreases ops.len(),
{
    if ops.len() > 0 {
        let prefix = ops.drop_last();
        assert forall|i: int| 0 <= i < prefix.len() implies match #[trigger] prefix[i] {
            ManifestOp::Append(a) => !has_id(apply_ops(s, prefix.subrange(0, i)), a.addon_id),
            ManifestOp::Remove(_) => true,
        } by {
            assert(prefix[i] == ops[i]);
            assert(prefix.subrange(0, i) =~= ops.subrange(0, i));
        }
        lemma_ops_keep_ids_unique(s, prefix);
        let last = ops.len() - 1;
        assert(ops.subrange(0, last) =~= prefix);
        match ops[last] {
            ManifestOp::Append(a) => {
                lemma_append_fresh_keeps_ids_unique(apply_ops(s, prefix), a);
            },
            ManifestOp::Remove(id) => {
                lemma_delete_keeps_ids_unique(apply_ops(s, prefix), id);
            },
        }
    }
}

} // verus!
