use crate::meta::{MetaView, ResourceMeta};
use vstd::prelude::*;
use vstd::seq_lib::group_filter_ensures;

verus! {

/// Whether `path` lies under `base`, compared whole component by whole
/// component.
pub uninterp spec fn path_starts_with(path: Seq<char>, base: Seq<char>) -> bool;

/// Relies on `std::path::Path::starts_with`: whether `base` is a prefix of
/// `path` in path components; the answer depends on the two texts alone.
#[verifier::external_body]
fn path_has_prefix(path: &str, base: &str) -> (r: bool)
    ensures
        r == path_starts_with(path@, base@),
{
    std::path::Path::new(path).starts_with(base)
}

/// An indexed resource: its path and its metadata.
pub open spec fn entry_view(e: (String, ResourceMeta)) -> (Seq<char>, MetaView) {
    (e.0@, e.1@)
}

/// A sequence of entries as the contracts see it.
pub open spec fn entries_view(v: Seq<(String, ResourceMeta)>) -> Seq<(Seq<char>, MetaView)> {
    v.map_values(|e: (String, ResourceMeta)| entry_view(e))
}

/// No path occurs twice.
pub open spec fn unique_paths(s: Seq<(Seq<char>, MetaView)>) -> bool {
    forall|i: int, j: int| 0 <= i < s.len() && 0 <= j < s.len() && i != j ==> s[i].0 != s[j].0
}

/// Some entry of `s` has path `p`.
pub open spec fn has_path(s: Seq<(Seq<char>, MetaView)>, p: Seq<char>) -> bool {
    exists|i: int| 0 <= i < s.len() && s[i].0 == p
}

/// Where `p` stands in `s`, if it does.
pub open spec fn position_of(s: Seq<(Seq<char>, MetaView)>, p: Seq<char>) -> int {
    choose|i: int| 0 <= i < s.len() && s[i].0 == p
}

/// `s` with the metadata of `p` set to `m`: in place where `p` is present,
/// at the end where it is not.
pub open spec fn upsert(s: Seq<(Seq<char>, MetaView)>, p: Seq<char>, m: MetaView) -> Seq<
    (Seq<char>, MetaView),
> {
    if has_path(s, p) {
        s.update(position_of(s, p), (p, m))
    } else {
        s.push((p, m))
    }
}

/// `s` with each of `items` set in turn, so that of two items with one path
/// the later one stays.
pub open spec fn upsert_all(s: Seq<(Seq<char>, MetaView)>, items: Seq<(Seq<char>, MetaView)>) -> Seq<
    (Seq<char>, MetaView),
>
    decreases items.len(),
{
    if items.len() == 0 {
        s
    } else {
        upsert(upsert_all(s, items.drop_last()), items.last().0, items.last().1)
    }
}

/// The metadata's CRC-32, widened to a `long`, is `id`.
pub open spec fn exact_id(m: MetaView, id: i64) -> bool {
    m.id.crc32 as i64 == id
}

/// The metadata's CRC-32 equals the low 32 bits of `id`.
pub open spec fn low_id(m: MetaView, id: i64) -> bool {
    m.id.crc32 == id as u32
}

/// `i` is the first position whose metadata has the exact identity `id`.
pub open spec fn first_exact(s: Seq<(Seq<char>, MetaView)>, id: i64, i: int) -> bool {
    &&& 0 <= i < s.len()
    &&& exact_id(s[i].1, id)
    &&& forall|j: int| 0 <= j < i ==> !exact_id(#[trigger] s[j].1, id)
}

/// `i` is the first position whose metadata matches `id` in its low 32 bits.
pub open spec fn first_low(s: Seq<(Seq<char>, MetaView)>, id: i64, i: int) -> bool {
    &&& 0 <= i < s.len()
    &&& low_id(s[i].1, id)
    &&& forall|j: int| 0 <= j < i ==> !low_id(#[trigger] s[j].1, id)
}

/// The entries of `a` that do not occur in `b`, in their order in `a`.
pub open spec fn missing_from(a: Seq<(Seq<char>, MetaView)>, b: Seq<(Seq<char>, MetaView)>) -> Seq<
    (Seq<char>, MetaView),
> {
    a.filter(|e: (Seq<char>, MetaView)| !b.contains(e))
}

/// An index as the contracts see it: its root and its entries in order.
pub struct IndexView {
    pub root: Seq<char>,
    pub entries: Seq<(Seq<char>, MetaView)>,
}

/// The resources under one root directory, each path with its metadata, in
/// the order in which they were first added.
pub struct RustResourcesIndex {
    root: String,
    entries: Vec<(String, ResourceMeta)>,
}

/// What a re-index changed: the entries that left the index and those that
/// came in. A resource whose metadata changed is in both.
pub struct Difference {
    pub deleted: Vec<(String, ResourceMeta)>,
    pub added: Vec<(String, ResourceMeta)>,
}

impl View for RustResourcesIndex {
    type V = IndexView;

    closed spec fn view(&self) -> IndexView {
        IndexView { root: self.root@, entries: entries_view(self.entries@) }
    }
}

/// A copy of an entry.
fn copy_entry(e: &(String, ResourceMeta)) -> (r: (String, ResourceMeta))
    ensures
        entry_view(r) == entry_view(*e),
{
    (e.0.clone(), e.1.duplicate())
}

impl RustResourcesIndex {
    /// No path is indexed twice.
    pub open spec fn wf(&self) -> bool {
        unique_paths(self@.entries)
    }

    /// Where `path` stands in the index.
    fn find_path(&self, path: &String) -> (r: Option<usize>)
        requires
            self.wf(),
        ensures
            match r {
                Some(i) => i < self@.entries.len() && self@.entries[i as int].0 == path@
                    && position_of(self@.entries, path@) == i,
                None => !has_path(self@.entries, path@),
            },
    {
        let mut i: usize = 0;
        while i < self.entries.len()
            invariant
                self.wf(),
                i <= self.entries@.len(),
                forall|j: int| 0 <= j < i ==> self@.entries[j].0 != path@,
            decreases self.entries@.len() - i,
        {
            if self.entries[i].0 == *path {
                let ghost s = self@.entries;
                assert(s[i as int] == entry_view(self.entries@[i as int]));
                assert(has_path(s, path@));
                let ghost k = position_of(s, path@);
                assert(k == i);
                return Some(i);
            }
            assert(self@.entries[i as int] == entry_view(self.entries@[i as int]));
            i = i + 1;
        }
        None
    }

    /// Sets the metadata of `path`, adding the path where it is new. Returns
    /// the metadata it had before, if it was present.
    pub fn updateResource(&mut self, path: String, meta: ResourceMeta) -> (r: Option<ResourceMeta>)
        requires
            old(self).wf(),
        ensures
            final(self).wf(),
            final(self)@.root == old(self)@.root,
            final(self)@.entries == upsert(old(self)@.entries, path@, meta@),
            r is Some <==> has_path(old(self)@.entries, path@),
            r matches Some(m) ==> m@ == old(self)@.entries[position_of(old(self)@.entries, path@)].1,
    {
        let ghost s = self@.entries;
        match self.find_path(&path) {
            Some(i) => {
                let prev = self.entries[i].1.duplicate();
                let ghost p = path@;
                let ghost m = meta@;
                self.entries.set(i, (path, meta));
                assert(self@.entries =~= s.update(i as int, (p, m)));
                Some(prev)
            },
            None => {
                let ghost p = path@;
                let ghost m = meta@;
                self.entries.push((path, meta));
                assert(self@.entries =~= s.push((p, m)));
                None
            },
        }
    }

    /// An index of `resources` under `root_path`; where a path occurs twice,
    /// the later metadata stays.
    pub fn init(root_path: String, resources: Vec<(String, ResourceMeta)>) -> (r: RustResourcesIndex)
        ensures
            r.wf(),
            r@.root == root_path@,
            r@.entries == upsert_all(Seq::empty(), entries_view(resources@)),
    {
        let ghost items = entries_view(resources@);
        let mut index = RustResourcesIndex { root: root_path, entries: Vec::new() };
        assert(index@.entries =~= Seq::empty());
        let mut i: usize = 0;
        while i < resources.len()
            invariant
                index.wf(),
                index@.root == root_path@,
                items == entries_view(resources@),
                i <= resources@.len(),
                index@.entries == upsert_all(Seq::empty(), items.subrange(0, i as int)),
            decreases resources@.len() - i,
        {
            let (path, meta) = copy_entry(&resources[i]);
            index.updateResource(path, meta);
            assert(items.subrange(0, i + 1).drop_last() =~= items.subrange(0, i as int));
            i = i + 1;
        }
        assert(items.subrange(0, i as int) =~= items);
        index
    }

    /// The first position whose metadata has the exact identity `id`.
    fn find_exact(&self, id: i64) -> (r: Option<usize>)
        ensures
            match r {
                Some(i) => first_exact(self@.entries, id, i as int),
                None => forall|j: int| 0 <= j < self@.entries.len() ==> !exact_id(#[trigger] self@.entries[j].1, id),
            },
    {
        let mut i: usize = 0;
        while i < self.entries.len()
            invariant
                i <= self.entries@.len(),
                forall|j: int| 0 <= j < i ==> !exact_id(#[trigger] self@.entries[j].1, id),
            decreases self.entries@.len() - i,
        {
            assert(self@.entries[i as int] == entry_view(self.entries@[i as int]));
            if self.entries[i].1.id.crc32 as i64 == id {
                return Some(i);
            }
            i = i + 1;
        }
        None
    }

    /// The first position whose metadata matches `id` in its low 32 bits.
    fn find_low(&self, id: i64) -> (r: Option<usize>)
        ensures
            match r {
                Some(i) => first_low(self@.entries, id, i as int),
                None => forall|j: int| 0 <= j < self@.entries.len() ==> !low_id(#[trigger] self@.entries[j].1, id),
            },
    {
        let low: u32 = id as u32;
        let mut i: usize = 0;
        while i < self.entries.len()
            invariant
                low == id as u32,
                i <= self.entries@.len(),
                forall|j: int| 0 <= j < i ==> !low_id(#[trigger] self@.entries[j].1, id),
            decreases self.entries@.len() - i,
        {
            assert(self@.entries[i as int] == entry_view(self.entries@[i as int]));
            if self.entries[i].1.id.crc32 == low {
                return Some(i);
            }
            i = i + 1;
        }
        None
    }

    /// The path of the first resource whose CRC-32, widened to a `long`, is
    /// `id`.
    pub fn getPath(&self, id: i64) -> (r: Option<String>)
        ensures
            match r {
                Some(p) => exists|i: int| first_exact(self@.entries, id, i) && self@.entries[i].0 == p@,
                None => forall|j: int| 0 <= j < self@.entries.len() ==> !exact_id(#[trigger] self@.entries[j].1, id),
            },
    {
        match self.find_exact(id) {
            Some(i) => {
                assert(self@.entries[i as int] == entry_view(self.entries@[i as int]));
                Some(self.entries[i].0.clone())
            },
            None => None,
        }
    }

    /// The metadata of the first resource whose CRC-32, widened to a `long`,
    /// is `id`.
    pub fn getMeta(&self, id: i64) -> (r: Option<ResourceMeta>)
        ensures
            match r {
                Some(m) => exists|i: int| first_exact(self@.entries, id, i) && self@.entries[i].1 == m@,
                None => forall|j: int| 0 <= j < self@.entries.len() ==> !exact_id(#[trigger] self@.entries[j].1, id),
            },
    {
        match self.find_exact(id) {
            Some(i) => {
                assert(self@.entries[i as int] == entry_view(self.entries@[i as int]));
                Some(self.entries[i].1.duplicate())
            },
            None => None,
        }
    }

    /// Whether some resource's CRC-32 equals the low 32 bits of `id`.
    pub fn contains(&self, id: i64) -> (r: bool)
        ensures
            r == exists|j: int| 0 <= j < self@.entries.len() && low_id(#[trigger] self@.entries[j].1, id),
    {
        match self.find_low(id) {
            Some(i) => true,
            None => false,
        }
    }

    /// Takes out the first resource whose CRC-32 equals the low 32 bits of
    /// `id`, and returns its path; leaves the index as it is where there is
    /// none.
    pub fn remove(&mut self, id: i64) -> (r: Option<String>)
        requires
            old(self).wf(),
        ensures
            final(self).wf(),
            final(self)@.root == old(self)@.root,
            match r {
                Some(p) => exists|i: int|
                    first_low(old(self)@.entries, id, i) && old(self)@.entries[i].0 == p@
                        && final(self)@.entries == old(self)@.entries.remove(i),
                None => final(self)@.entries == old(self)@.entries && forall|j: int|
                    0 <= j < old(self)@.entries.len() ==> !low_id(#[trigger] old(self)@.entries[j].1, id),
            },
    {
        let ghost s = self@.entries;
        match self.find_low(id) {
            Some(i) => {
                assert(s[i as int] == entry_view(self.entries@[i as int]));
                let (path, meta) = self.entries.remove(i);
                assert(self@.entries =~= s.remove(i as int));
                assert(self.wf()) by {
                    assert forall|a: int, b: int|
                        0 <= a < self@.entries.len() && 0 <= b < self@.entries.len() && a != b implies
                        self@.entries[a].0 != self@.entries[b].0 by {
                        let a2: int = if a < i { a } else { a + 1 };
                        let b2: int = if b < i { b } else { b + 1 };
                        assert(self@.entries[a] == s[a2]);
                        assert(self@.entries[b] == s[b2]);
                    }
                }
                Some(path)
            },
            None => None,
        }
    }

    /// The resources whose paths lie under `prefix`, or all of them where
    /// there is no prefix, in index order.
    pub fn listResources(&self, prefix: Option<&str>) -> (r: Vec<(String, ResourceMeta)>)
        ensures
            entries_view(r@) == match prefix {
                Some(p) => entries_under(self@.entries, p@),
                None => self@.entries,
            },
    {
        let ghost s = self@.entries;
        let mut r: Vec<(String, ResourceMeta)> = Vec::new();
        let mut i: usize = 0;
        while i < self.entries.len()
            invariant
                s == self@.entries,
                i <= self.entries@.len(),
                entries_view(r@) == match prefix {
                    Some(p) => entries_under(s.subrange(0, i as int), p@),
                    None => s.subrange(0, i as int),
                },
            decreases self.entries@.len() - i,
        {
            assert(s[i as int] == entry_view(self.entries@[i as int]));
            let e = &self.entries[i];
            let take = match prefix {
                Some(p) => path_has_prefix(e.0.as_str(), p),
                None => true,
            };
            let ghost before = r@;
            if take {
                r.push(copy_entry(e));
                assert(entries_view(r@) =~= entries_view(before).push(s[i as int]));
            }
            proof {
                let next = s.subrange(0, i + 1);
                assert(next.drop_last() =~= s.subrange(0, i as int));
                assert(next.last() == s[i as int]);
                assert(next =~= s.subrange(0, i as int).push(s[i as int]));
                reveal(Seq::filter);
            }
            i = i + 1;
        }
        assert(s.subrange(0, i as int) =~= s);
        r
    }
}

/// The entries of `s` whose paths lie under `base`, in their order in `s`.
pub open spec fn entries_under(s: Seq<(Seq<char>, MetaView)>, base: Seq<char>) -> Seq<
    (Seq<char>, MetaView),
> {
    s.filter(|e: (Seq<char>, MetaView)| path_starts_with(e.0, base))
}

/// Whether `e` occurs in `v`.
fn contains_entry(v: &Vec<(String, ResourceMeta)>, e: &(String, ResourceMeta)) -> (r: bool)
    ensures
        r == entries_view(v@).contains(entry_view(*e)),
{
    let ghost s = entries_view(v@);
    let mut i: usize = 0;
    while i < v.len()
        invariant
            s == entries_view(v@),
            i <= v@.len(),
            forall|j: int| 0 <= j < i ==> s[j] != entry_view(*e),
        decreases v@.len() - i,
    {
        assert(s[i as int] == entry_view(v@[i as int]));
        if v[i].0 == e.0 && v[i].1.same_as(&e.1) {
            assert(s[i as int] == entry_view(*e));
            return true;
        }
        i = i + 1;
    }
    false
}

/// The entries of `a` that do not occur in `b`, in their order in `a`.
fn missing_entries(a: &Vec<(String, ResourceMeta)>, b: &Vec<(String, ResourceMeta)>) -> (r: Vec<
    (String, ResourceMeta),
>)
    ensures
        entries_view(r@) == missing_from(entries_view(a@), entries_view(b@)),
{
    let ghost s = entries_view(a@);
    let ghost t = entries_view(b@);
    let mut r: Vec<(String, ResourceMeta)> = Vec::new();
    let mut i: usize = 0;
    while i < a.len()
        invariant
            s == entries_view(a@),
            t == entries_view(b@),
            i <= a@.len(),
            entries_view(r@) == missing_from(s.subrange(0, i as int), t),
        decreases a@.len() - i,
    {
        assert(s[i as int] == entry_view(a@[i as int]));
        let ghost before = r@;
        if !contains_entry(b, &a[i]) {
            r.push(copy_entry(&a[i]));
            assert(entries_view(r@) =~= entries_view(before).push(s[i as int]));
        }
        proof {
            let next = s.subrange(0, i + 1);
            assert(next.drop_last() =~= s.subrange(0, i as int));
            assert(next.last() == s[i as int]);
            reveal(Seq::filter);
        }
        i = i + 1;
    }
    assert(s.subrange(0, i as int) =~= s);
    r
}

impl RustResourcesIndex {
    /// Replaces the contents of the index with a fresh scan of its root, and
    /// reports what changed: the entries that are no longer there, and those
    /// that were not there before.
    pub fn reindex(&mut self, scanned: Vec<(String, ResourceMeta)>) -> (r: Difference)
        requires
            old(self).wf(),
        ensures
            final(self).wf(),
            final(self)@.root == old(self)@.root,
            final(self)@.entries == upsert_all(Seq::empty(), entries_view(scanned@)),
            entries_view(r.deleted@) == missing_from(old(self)@.entries, final(self)@.entries),
            entries_view(r.added@) == missing_from(final(self)@.entries, old(self)@.entries),
    {
        let fresh = RustResourcesIndex::init(self.root.clone(), scanned);
        let deleted = missing_entries(&self.entries, &fresh.entries);
        let added = missing_entries(&fresh.entries, &self.entries);
        self.entries = fresh.entries;
        Difference { deleted, added }
    }
}

/// What a re-index reports accounts for the whole change: an entry of the old
/// index is in the new one or among the deleted, an entry of the new index is
/// in the old one or among the added, and each reported entry was really
/// deleted or added.
pub proof fn lemma_difference_accounts(
    before: Seq<(Seq<char>, MetaView)>,
    after: Seq<(Seq<char>, MetaView)>,
)
    ensures
        forall|e: (Seq<char>, MetaView)|
            before.contains(e) ==> after.contains(e) || #[trigger] missing_from(before, after).contains(e),
        forall|e: (Seq<char>, MetaView)|
            after.contains(e) ==> before.contains(e) || #[trigger] missing_from(after, before).contains(e),
        forall|e: (Seq<char>, MetaView)|
            #[trigger] missing_from(before, after).contains(e) ==> before.contains(e) && !after.contains(e),
        forall|e: (Seq<char>, MetaView)|
            #[trigger] missing_from(after, before).contains(e) ==> after.contains(e) && !before.contains(e),
{
    broadcast use group_filter_ensures, Seq::lemma_filter_contains_rev;

    assert forall|e: (Seq<char>, MetaView)|
        before.contains(e) implies after.contains(e) || #[trigger] missing_from(before, after).contains(e) by {
        if !after.contains(e) {
            let i: int = choose|i: int| 0 <= i < before.len() && before[i] == e;
            before.lemma_filter_contains(|x: (Seq<char>, MetaView)| !after.contains(x), i);
        }
    }
    assert forall|e: (Seq<char>, MetaView)|
        after.contains(e) implies before.contains(e) || #[trigger] missing_from(after, before).contains(e) by {
        if !before.contains(e) {
            let i: int = choose|i: int| 0 <= i < after.len() && after[i] == e;
            after.lemma_filter_contains(|x: (Seq<char>, MetaView)| !before.contains(x), i);
        }
    }
    assert forall|e: (Seq<char>, MetaView)|
        #[trigger] missing_from(before, after).contains(e) implies before.contains(e) && !after.contains(e) by {
        let f = missing_from(before, after);
        let i: int = choose|i: int| 0 <= i < f.len() && f[i] == e;
        before.lemma_filter_pred(|x: (Seq<char>, MetaView)| !after.contains(x), i);
    }
    assert forall|e: (Seq<char>, MetaView)|
        #[trigger] missing_from(after, before).contains(e) implies after.contains(e) && !before.contains(e) by {
        let f = missing_from(after, before);
        let i: int = choose|i: int| 0 <= i < f.len() && f[i] == e;
        after.lemma_filter_pred(|x: (Seq<char>, MetaView)| !before.contains(x), i);
    }
}

/// Setting the metadata of a path acts as a map update: afterwards the path
/// holds that metadata, and the entries of every other path are as before.
pub proof fn lemma_upsert_is_map_update(s: Seq<(Seq<char>, MetaView)>, p: Seq<char>, m: MetaView)
    requires
        unique_paths(s),
    ensures
        unique_paths(upsert(s, p, m)),
        upsert(s, p, m).contains((p, m)),
        forall|e: (Seq<char>, MetaView)|
            e.0 == p && #[trigger] upsert(s, p, m).contains(e) ==> e == (p, m),
        forall|e: (Seq<char>, MetaView)|
            e.0 != p ==> (#[trigger] upsert(s, p, m).contains(e) <==> s.contains(e)),
{
    let u = upsert(s, p, m);
    if has_path(s, p) {
        let k: int = position_of(s, p);
        assert(u[k] == (p, m));
        assert forall|e: (Seq<char>, MetaView)| e.0 != p implies (#[trigger] u.contains(e) <==> s.contains(e)) by {
            if u.contains(e) {
                let i: int = choose|i: int| 0 <= i < u.len() && u[i] == e;
                assert(s[i] == e);
            }
            if s.contains(e) {
                let i: int = choose|i: int| 0 <= i < s.len() && s[i] == e;
                assert(u[i] == e);
            }
        }
    } else {
        assert(u[s.len() as int] == (p, m));
        assert forall|e: (Seq<char>, MetaView)| e.0 != p implies (#[trigger] u.contains(e) <==> s.contains(e)) by {
            if u.contains(e) {
                let i: int = choose|i: int| 0 <= i < u.len() && u[i] == e;
                assert(s[i] == e);
            }
            if s.contains(e) {
                let i: int = choose|i: int| 0 <= i < s.len() && s[i] == e;
                assert(u[i] == e);
            }
        }
    }
}

/// Taking out an entry takes out its path: no other entry has it.
pub proof fn lemma_removed_path_is_gone(s: Seq<(Seq<char>, MetaView)>, i: int)
    requires
        unique_paths(s),
        0 <= i < s.len(),
    ensures
        !has_path(s.remove(i), s[i].0),
{
    let r = s.remove(i);
    assert forall|j: int| 0 <= j < r.len() implies r[j].0 != s[i].0 by {
        if j < i {
            assert(r[j] == s[j]);
        } else {
            assert(r[j] == s[j + 1]);
        }
    }
}

} // verus!
