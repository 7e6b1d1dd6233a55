//! Live index updates: file system change events are turned into pending
//! writes (records to upsert, paths to remove), the latest change to a path
//! deciding, and pending writes are flushed in groups.
use vstd::prelude::*;
use crate::db::{FileRecord, RecordView};
use crate::indexer::{
    build_exclusion_entries, entry_record, exclusion_entries, fs_record, opt_view, path_excluded,
    string_views, FsMeta,
};
pub use crate::indexer::{is_excluded, normalise};
use crate::text::{has_substring, str_equal, views_of};

verus! {

/// The folders the watcher always ignores, as written.
pub open spec fn watch_always_skipped() -> Seq<Seq<char>> {
    seq![
        "appdata\\local\\temp"@,
        "appdata\\locallow"@,
        "appdata\\local\\packages"@,
        "appdata\\local\\google\\chrome"@,
        "appdata\\local\\microsoft\\edge"@,
        "appdata\\local\\brave software"@,
        "appdata\\roaming\\mozilla"@,
        "appdata\\local\\microsoft\\teams"@,
        "appdata\\local\\microsoft\\onedrive"@,
        "appdata\\local\\microsoft\\windows"@,
        "appdata\\roaming\\microsoft"@,
        "\\cache\\"@,
        "\\caches\\"@,
        "\\node_modules\\"@,
        "\\.git\\"@,
        "\\__pycache__\\"@,
        "\\target\\debug\\"@,
        "\\target\\release\\"@,
        "\\.next\\"@,
        "\\$windows.~ws\\"@,
        "\\$windows.~bt\\"@,
    ]
}

fn watch_always_skipped_list() -> (r: Vec<&'static str>)
    ensures
        views_of(r@) == watch_always_skipped(),
{
    let r = vec![
        "appdata\\local\\temp",
        "appdata\\locallow",
        "appdata\\local\\packages",
        "appdata\\local\\google\\chrome",
        "appdata\\local\\microsoft\\edge",
        "appdata\\local\\brave software",
        "appdata\\roaming\\mozilla",
        "appdata\\local\\microsoft\\teams",
        "appdata\\local\\microsoft\\onedrive",
        "appdata\\local\\microsoft\\windows",
        "appdata\\roaming\\microsoft",
        "\\cache\\",
        "\\caches\\",
        "\\node_modules\\",
        "\\.git\\",
        "\\__pycache__\\",
        "\\target\\debug\\",
        "\\target\\release\\",
        "\\.next\\",
        "\\$windows.~ws\\",
        "\\$windows.~bt\\",
    ];
    assert(views_of(r@) =~= watch_always_skipped());
    r
}

/// The watcher always ignores the same 21 different folders as an
/// indexing run skips; whatever the user's folders, a path whose lowercase
/// form contains any of them is ignored.
pub proof fn lemma_watch_skipped_folders(user: Seq<Seq<char>>, p: Seq<char>, k: int)
    ensures
        watch_always_skipped().len() == 21,
        watch_always_skipped().no_duplicates(),
        watch_always_skipped().contains("appdata\\local\\temp"@),
        watch_always_skipped().contains("appdata\\locallow"@),
        watch_always_skipped().contains("appdata\\local\\google\\chrome"@),
        watch_always_skipped().contains("appdata\\local\\microsoft\\edge"@),
        watch_always_skipped().contains("appdata\\local\\brave software"@),
        watch_always_skipped().contains("appdata\\roaming\\mozilla"@),
        watch_always_skipped().contains("appdata\\local\\microsoft\\teams"@),
        watch_always_skipped().contains("appdata\\local\\microsoft\\onedrive"@),
        watch_always_skipped().contains("appdata\\local\\microsoft\\windows"@),
        watch_always_skipped().contains("appdata\\roaming\\microsoft"@),
        watch_always_skipped().contains("appdata\\local\\packages"@),
        watch_always_skipped().contains("\\cache\\"@),
        watch_always_skipped().contains("\\caches\\"@),
        watch_always_skipped().contains("\\node_modules\\"@),
        watch_always_skipped().contains("\\.git\\"@),
        watch_always_skipped().contains("\\__pycache__\\"@),
        watch_always_skipped().contains("\\target\\debug\\"@),
        watch_always_skipped().contains("\\target\\release\\"@),
        watch_always_skipped().contains("\\.next\\"@),
        watch_always_skipped().contains("\\$windows.~ws\\"@),
        watch_always_skipped().contains("\\$windows.~bt\\"@),
        0 <= k < 21 && has_substring(
            crate::text::lowercase(p),
            watch_always_skipped()[k],
        ) ==> path_excluded(p, exclusion_entries(user, watch_always_skipped())),
{
    crate::indexer::lemma_always_skipped_folders(user, p, 0);
    lemma_fixed_lists_reordered();
    let a = crate::indexer::always_skipped();
    let w = watch_always_skipped();
    assert forall|m: int| 0 <= m < 21 implies #[trigger] w[m] == a[
        if m < 2 { m } else if m == 2 { 10 } else if m < 11 { m - 1 } else { m }
    ] by {}
    assert forall|m: int| 0 <= m < 21 implies crate::indexer::plain_pattern(#[trigger] w[m]) by {
        let j = if m < 2 { m } else if m == 2 { 10 } else if m < 11 { m - 1 } else { m };
        assert(w[m] == a[j]);
        assert(crate::indexer::plain_pattern(a[j]));
    }
    assert forall|x: Seq<char>| a.contains(x) implies w.contains(x) by {
        let i = choose|i: int| 0 <= i < a.len() && a[i] == x;
        let j = if i < 2 { i } else if i < 10 { i + 1 } else if i == 10 { 2 } else { i };
        assert(w[j] == a[i]);
    }
    assert forall|m: int, n: int| 0 <= m < n < 21 implies w[m] != w[n] by {
        let jm = if m < 2 { m } else if m == 2 { 10 } else if m < 11 { m - 1 } else { m };
        let jn = if n < 2 { n } else if n == 2 { 10 } else if n < 11 { n - 1 } else { n };
        assert(w[m] == a[jm]);
        assert(w[n] == a[jn]);
    }
    if 0 <= k < 21 && has_substring(crate::text::lowercase(p), w[k]) {
        crate::indexer::lemma_plain_entry_matches_anywhere(user, w, k, p);
    }
}

/// The watcher's exclusion entries: the user's excluded folders,
/// normalised, followed by the always-ignored folders, lowercased.
pub fn build_excluded(user: &[String]) -> (r: Vec<String>)
    ensures
        string_views(r@) == exclusion_entries(string_views(user@), watch_always_skipped()),
{
    let always = watch_always_skipped_list();
    build_exclusion_entries(user, &always)
}

/// The watcher's fixed list is the indexer's in another order.
proof fn lemma_fixed_lists_reordered()
    ensures
        watch_always_skipped() == crate::indexer::always_skipped().take(2) + seq![
            crate::indexer::always_skipped()[10],
        ] + crate::indexer::always_skipped().subrange(2, 10) + crate::indexer::always_skipped().skip(
            11,
        ),
{
    let a = crate::indexer::always_skipped();
    assert(watch_always_skipped() =~= a.take(2) + seq![a[10]] + a.subrange(2, 10) + a.skip(11));
}

/// The watcher and an indexing run skip the same paths: built from the same
/// user folders, their exclusion entries are the same set, in another
/// order.
pub proof fn lemma_watcher_and_indexer_exclude_alike(user: Seq<Seq<char>>, p: Seq<char>)
    ensures
        exclusion_entries(user, watch_always_skipped()).to_set() == exclusion_entries(
            user,
            crate::indexer::always_skipped(),
        ).to_set(),
        path_excluded(p, exclusion_entries(user, watch_always_skipped())) == path_excluded(
            p,
            exclusion_entries(user, crate::indexer::always_skipped()),
        ),
{
    lemma_fixed_lists_reordered();
    let a = crate::indexer::always_skipped();
    let w = watch_always_skipped();
    let ea = exclusion_entries(user, a);
    let ew = exclusion_entries(user, w);
    let u = user.len();
    assert(a.len() == 21);
    assert(w.len() == 21);
    assert(ea.len() == ew.len());
    // Each entry of one list stands in the other.
    assert forall|i: int| #![trigger ea[i]] 0 <= i < ea.len() implies exists|j: int| 0 <= j < ew.len() && #[trigger] ew[j] == ea[i] by {
        if i < u {
            assert(ew[i] == ea[i]);
        } else {
            let k = i - u;
            let j = if k < 2 { k } else if k < 10 { k + 1 } else if k == 10 { 2 } else { k };
            assert(w[j] == a[k]);
            assert(ew[u + j] == ea[i]);
        }
    }
    assert forall|j: int| #![trigger ew[j]] 0 <= j < ew.len() implies exists|i: int| 0 <= i < ea.len() && #[trigger] ea[i] == ew[j] by {
        if j < u {
            assert(ea[j] == ew[j]);
        } else {
            let m = j - u;
            let k = if m < 2 { m } else if m == 2 { 10 } else if m < 11 { m - 1 } else { m };
            assert(w[m] == a[k]);
            assert(ea[u + k] == ew[j]);
        }
    }
    assert forall|x: Seq<char>| ew.to_set().contains(x) <==> ea.to_set().contains(x) by {
        if ew.to_set().contains(x) {
            assert(ew.contains(x));
            let j = choose|j: int| 0 <= j < ew.len() && ew[j] == x;
            assert(exists|i: int| 0 <= i < ea.len() && #[trigger] ea[i] == ew[j]);
        }
        if ea.to_set().contains(x) {
            assert(ea.contains(x));
            let i = choose|i: int| 0 <= i < ea.len() && ea[i] == x;
            assert(exists|j: int| 0 <= j < ew.len() && #[trigger] ew[j] == ea[i]);
        }
    }
    assert(ew.to_set() =~= ea.to_set());
    let lp = crate::text::lowercase(p);
    if path_excluded(p, ew) {
        let j = choose|j: int| 0 <= j < ew.len() && #[trigger] crate::indexer::excludes(ew[j], lp);
        let i = choose|i: int| 0 <= i < ea.len() && #[trigger] ea[i] == ew[j];
        assert(crate::indexer::excludes(ea[i], lp));
    }
    if path_excluded(p, ea) {
        let i = choose|i: int| 0 <= i < ea.len() && #[trigger] crate::indexer::excludes(ea[i], lp);
        let j = choose|j: int| 0 <= j < ew.len() && #[trigger] ew[j] == ea[i];
        assert(crate::indexer::excludes(ew[j], lp));
    }
}

/// Pending upserts by path, and pending removals.
pub type PendingModel = (Map<Seq<char>, RecordView>, Set<Seq<char>>);

/// A record becomes the pending upsert of its path, replacing any earlier
/// one and any pending removal of that path.
pub open spec fn upsert_step(st: PendingModel, r: RecordView) -> PendingModel {
    (st.0.insert(r.path, r), st.1.remove(r.path))
}

/// A path becomes pending removal, dropping any pending upsert of it.
pub open spec fn remove_step(st: PendingModel, p: Seq<char>) -> PendingModel {
    (st.0.remove(p), st.1.insert(p))
}

/// The records, one per path, are exactly the pending upserts `m`.
pub open spec fn records_hold(v: Seq<FileRecord>, m: Map<Seq<char>, RecordView>) -> bool {
    &&& forall|i: int, j: int| 0 <= i < j < v.len() ==> v[i].path@ != v[j].path@
    &&& forall|i: int| 0 <= i < v.len() ==> m.contains_key(#[trigger] v[i].path@) && m[v[i].path@] == v[i]@
    &&& forall|p: Seq<char>| #[trigger] m.contains_key(p) ==> exists|i: int| 0 <= i < v.len() && #[trigger] v[i].path@ == p
}

/// The paths, each once, are exactly the pending removals `s`.
pub open spec fn paths_hold(v: Seq<String>, s: Set<Seq<char>>) -> bool {
    &&& forall|i: int, j: int| 0 <= i < j < v.len() ==> v[i]@ != v[j]@
    &&& forall|i: int| 0 <= i < v.len() ==> s.contains(#[trigger] v[i]@)
    &&& forall|p: Seq<char>| #[trigger] s.contains(p) ==> exists|i: int| 0 <= i < v.len() && #[trigger] v[i]@ == p
}

/// No path is both pending upsert and pending removal.
pub open spec fn pending_disjoint(st: PendingModel) -> bool {
    forall|p: Seq<char>| !(#[trigger] st.0.contains_key(p) && st.1.contains(p))
}

/// Writes waiting to be flushed to the index: records to upsert, by path,
/// and paths to remove. They are kept in vectors, each path once, with a map
/// and a set as their model: vstd specifies std's `HashMap` and `HashSet`
/// only for keys whose hashing it models (integers and `bool`), not for
/// `String` paths.
pub struct PendingChanges {
    upserts: Vec<FileRecord>,
    removes: Vec<String>,
    upsert_view: Ghost<Map<Seq<char>, RecordView>>,
    remove_view: Ghost<Set<Seq<char>>>,
}

fn find_record(v: &Vec<FileRecord>, path: &str) -> (r: Option<usize>)
    ensures
        match r {
            Some(i) => i < v@.len() && v@[i as int].path@ == path@,
            None => forall|k: int| 0 <= k < v@.len() ==> #[trigger] v@[k].path@ != path@,
        },
{
    let mut i: usize = 0;
    while i < v.len()
        invariant
            i <= v@.len(),
            forall|k: int| 0 <= k < i ==> #[trigger] v@[k].path@ != path@,
        decreases v@.len() - i,
    {
        if str_equal(v[i].path.as_str(), path) {
            return Some(i);
        }
        i = i + 1;
    }
    None
}

fn find_path(v: &Vec<String>, path: &str) -> (r: Option<usize>)
    ensures
        match r {
            Some(i) => i < v@.len() && v@[i as int]@ == path@,
            None => forall|k: int| 0 <= k < v@.len() ==> #[trigger] v@[k]@ != path@,
        },
{
    let mut i: usize = 0;
    while i < v.len()
        invariant
            i <= v@.len(),
            forall|k: int| 0 <= k < i ==> #[trigger] v@[k]@ != path@,
        decreases v@.len() - i,
    {
        if str_equal(v[i].as_str(), path) {
            return Some(i);
        }
        i = i + 1;
    }
    None
}

impl PendingChanges {
    /// The pending state: upserts by path, and removals.
    pub closed spec fn model(&self) -> PendingModel {
        (self.upsert_view@, self.remove_view@)
    }

    #[verifier::type_invariant]
    spec fn consistent(&self) -> bool {
        &&& self.upsert_view@.dom().finite()
        &&& self.upsert_view@.dom().len() == self.upserts@.len()
        &&& self.remove_view@.finite()
        &&& self.remove_view@.len() == self.removes@.len()
        &&& records_hold(self.upserts@, self.upsert_view@)
        &&& paths_hold(self.removes@, self.remove_view@)
        &&& pending_disjoint((self.upsert_view@, self.remove_view@))
    }

    /// Nothing pending.
    pub fn new() -> (r: Self)
        ensures
            r.model().0 == Map::<Seq<char>, RecordView>::empty(),
            r.model().1 == Set::<Seq<char>>::empty(),
    {
        PendingChanges {
            upserts: Vec::new(),
            removes: Vec::new(),
            upsert_view: Ghost(Map::empty()),
            remove_view: Ghost(Set::empty()),
        }
    }

    /// A record becomes the pending upsert of its path; a pending removal of
    /// that path is dropped.
    pub fn stage_upsert(&mut self, r: FileRecord)
        ensures
            final(self).model() == upsert_step(old(self).model(), r@),
            pending_disjoint(final(self).model()),
    {
        let mut cur = PendingChanges::new();
        std::mem::swap(self, &mut cur);
        proof {
            use_type_invariant(&cur);
        }
        let PendingChanges { mut upserts, mut removes, upsert_view, remove_view } = cur;
        let ghost m = upsert_view@;
        let ghost s = remove_view@;
        let ghost p = r.path@;
        let ghost rv = r@;
        let ghost v = upserts@;
        let ghost w = removes@;
        let found = find_record(&upserts, r.path.as_str());
        let gone = find_path(&removes, r.path.as_str());
        match found {
            Some(i) => {
                upserts.set(i, r);
                proof {
                    assert(m.contains_key(v[i as int].path@));
                    assert(m.dom().insert(p) =~= m.dom());
                    let m2 = m.insert(p, rv);
                    assert forall|q: Seq<char>| #[trigger] m2.contains_key(q) implies exists|k: int|
                        0 <= k < upserts@.len() && #[trigger] upserts@[k].path@ == q by {
                        if q == p {
                            assert(upserts@[i as int].path@ == q);
                        } else {
                            let k: int = choose|k: int| 0 <= k < v.len() && #[trigger] v[k].path@ == q;
                            assert(upserts@[k].path@ == q);
                        }
                    }
                }
            },
            None => {
                upserts.push(r);
                proof {
                    if m.contains_key(p) {
                        let k: int = choose|k: int| 0 <= k < v.len() && #[trigger] v[k].path@ == p;
                        assert(false);
                    }
                    let m2 = m.insert(p, rv);
                    assert forall|q: Seq<char>| #[trigger] m2.contains_key(q) implies exists|k: int|
                        0 <= k < upserts@.len() && #[trigger] upserts@[k].path@ == q by {
                        if q == p {
                            assert(upserts@[v.len() as int].path@ == q);
                        } else {
                            let k: int = choose|k: int| 0 <= k < v.len() && #[trigger] v[k].path@ == q;
                            assert(upserts@[k].path@ == q);
                        }
                    }
                }
            },
        }
        match gone {
            Some(j) => {
                removes.remove(j);
                proof {
                    assert(s.contains(w[j as int]@));
                    let s2 = s.remove(p);
                    assert forall|i: int| 0 <= i < removes@.len() implies s2.contains(
                        #[trigger] removes@[i]@,
                    ) by {
                        if i < j {
                            assert(removes@[i] == w[i]);
                        } else {
                            assert(removes@[i] == w[i + 1]);
                        }
                    }
                    assert forall|q: Seq<char>| #[trigger] s2.contains(q) implies exists|k: int|
                        0 <= k < removes@.len() && #[trigger] removes@[k]@ == q by {
                        let k: int = choose|k: int| 0 <= k < w.len() && #[trigger] w[k]@ == q;
                        if k < j {
                            assert(removes@[k] == w[k]);
                        } else {
                            assert(k != j);
                            assert(removes@[k - 1] == w[k]);
                        }
                    }
                }
            },
            None => {
                proof {
                    if s.contains(p) {
                        let k: int = choose|k: int| 0 <= k < w.len() && #[trigger] w[k]@ == p;
                        assert(false);
                    }
                    assert(s.remove(p) =~= s);
                }
            },
        }
        proof {
            let m2 = m.insert(p, rv);
            let s2 = s.remove(p);
            assert(m2.dom().finite());
            assert(m2.dom().len() == upserts@.len());
            assert(s2.finite());
            assert(s2.len() == removes@.len());
            assert(records_hold(upserts@, m2));
            assert(paths_hold(removes@, s2));
            assert forall|q: Seq<char>| !(#[trigger] m2.contains_key(q) && s2.contains(q)) by {
                assert(pending_disjoint((m, s)));
                assert(!((m, s).0.contains_key(q) && (m, s).1.contains(q)));
                if q != p && m2.contains_key(q) {
                    assert(m.contains_key(q));
                }
            }
        }
        *self = PendingChanges {
            upserts,
            removes,
            upsert_view: Ghost(m.insert(p, rv)),
            remove_view: Ghost(s.remove(p)),
        };
    }

    /// A path becomes pending removal; a pending upsert of that path is
    /// dropped.
    pub fn stage_remove(&mut self, path: String)
        ensures
            final(self).model() == remove_step(old(self).model(), path@),
            pending_disjoint(final(self).model()),
    {
        let mut cur = PendingChanges::new();
        std::mem::swap(self, &mut cur);
        proof {
            use_type_invariant(&cur);
        }
        let PendingChanges { mut upserts, mut removes, upsert_view, remove_view } = cur;
        let ghost m = upsert_view@;
        let ghost s = remove_view@;
        let ghost p = path@;
        let ghost v = upserts@;
        let ghost w = removes@;
        let found = find_record(&upserts, path.as_str());
        let present = find_path(&removes, path.as_str());
        match found {
            Some(i) => {
                upserts.remove(i);
                proof {
                    assert(m.contains_key(v[i as int].path@));
                    let m2 = m.remove(p);
                    assert forall|k: int| 0 <= k < upserts@.len() implies m2.contains_key(
                        #[trigger] upserts@[k].path@,
                    ) && m2[upserts@[k].path@] == upserts@[k]@ by {
                        if k < i {
                            assert(upserts@[k] == v[k]);
                        } else {
                            assert(upserts@[k] == v[k + 1]);
                        }
                    }
                    assert forall|q: Seq<char>| #[trigger] m2.contains_key(q) implies exists|k: int|
                        0 <= k < upserts@.len() && #[trigger] upserts@[k].path@ == q by {
                        let k: int = choose|k: int| 0 <= k < v.len() && #[trigger] v[k].path@ == q;
                        if k < i {
                            assert(upserts@[k] == v[k]);
                        } else {
                            assert(k != i);
                            assert(upserts@[k - 1] == v[k]);
                        }
                    }
                }
            },
            None => {
                proof {
                    if m.contains_key(p) {
                        let k: int = choose|k: int| 0 <= k < v.len() && #[trigger] v[k].path@ == p;
                        assert(false);
                    }
                    assert(m.remove(p) =~= m);
                }
            },
        }
        match present {
            Some(j) => {
                proof {
                    assert(s.contains(w[j as int]@));
                    assert(s.insert(p) =~= s);
                }
            },
            None => {
                removes.push(path);
                proof {
                    if s.contains(p) {
                        let k: int = choose|k: int| 0 <= k < w.len() && #[trigger] w[k]@ == p;
                        assert(false);
                    }
                    let s2 = s.insert(p);
                    assert forall|q: Seq<char>| #[trigger] s2.contains(q) implies exists|k: int|
                        0 <= k < removes@.len() && #[trigger] removes@[k]@ == q by {
                        if q == p {
                            assert(removes@[w.len() as int]@ == q);
                        } else {
                            let k: int = choose|k: int| 0 <= k < w.len() && #[trigger] w[k]@ == q;
                            assert(removes@[k]@ == q);
                        }
                    }
                }
            },
        }
        proof {
            let m2 = m.remove(p);
            let s2 = s.insert(p);
            assert forall|q: Seq<char>| !(#[trigger] m2.contains_key(q) && s2.contains(q)) by {
                assert(pending_disjoint((m, s)));
                assert(!((m, s).0.contains_key(q) && (m, s).1.contains(q)));
                if q != p && m2.contains_key(q) {
                    assert(m.contains_key(q));
                }
            }
        }
        *self = PendingChanges {
            upserts,
            removes,
            upsert_view: Ghost(m.remove(p)),
            remove_view: Ghost(s.insert(p)),
        };
    }

    /// Hands out everything pending, leaving nothing: the records (one per
    /// path) are exactly the pending upserts and the paths (each once)
    /// exactly the pending removals.
    pub fn take_all(&mut self) -> (out: (Vec<FileRecord>, Vec<String>))
        ensures
            records_hold(out.0@, old(self).model().0),
            paths_hold(out.1@, old(self).model().1),
            out.0@.len() == old(self).model().0.dom().len(),
            out.1@.len() == old(self).model().1.len(),
            final(self).model().0 == Map::<Seq<char>, RecordView>::empty(),
            final(self).model().1 == Set::<Seq<char>>::empty(),
    {
        let mut cur = PendingChanges::new();
        std::mem::swap(self, &mut cur);
        proof {
            use_type_invariant(&cur);
        }
        let PendingChanges { upserts, removes, upsert_view, remove_view } = cur;
        (upserts, removes)
    }

    /// Whether pending writes are due: `interval_ms` or more milliseconds
    /// since the last flush, or more than `FLUSH_THRESHOLD` paths pending.
    pub fn flush_due(&self, elapsed_ms: u64) -> (r: bool)
        ensures
            r == (elapsed_ms >= FLUSH_INTERVAL_MS || self.model().0.dom().len() + self.model().1.len()
                > FLUSH_THRESHOLD),
    {
        proof {
            use_type_invariant(self);
        }
        elapsed_ms >= FLUSH_INTERVAL_MS || self.upserts.len() > FLUSH_THRESHOLD
            || self.removes.len() > FLUSH_THRESHOLD - self.upserts.len()
    }

    /// Hands out everything pending when a flush is due (see `flush_due`),
    /// else nothing and the pending writes stay.
    pub fn flush_if_due(&mut self, elapsed_ms: u64) -> (out: Option<(Vec<FileRecord>, Vec<String>)>)
        ensures
            ({
                let due = elapsed_ms >= FLUSH_INTERVAL_MS || old(self).model().0.dom().len() + old(
                    self,
                ).model().1.len() > FLUSH_THRESHOLD;
                &&& out is Some <==> due
                &&& out matches Some(w) ==> {
                    &&& records_hold(w.0@, old(self).model().0)
                    &&& paths_hold(w.1@, old(self).model().1)
                    &&& final(self).model().0 == Map::<Seq<char>, RecordView>::empty()
                    &&& final(self).model().1 == Set::<Seq<char>>::empty()
                }
                &&& out is None ==> final(self).model() == old(self).model()
            }),
    {
        if self.flush_due(elapsed_ms) {
            Some(self.take_all())
        } else {
            None
        }
    }
}

/// Milliseconds after which pending writes are flushed.
pub const FLUSH_INTERVAL_MS: u64 = 2000;

/// Number of pending paths above which pending writes are flushed at once.
pub const FLUSH_THRESHOLD: usize = 200;

/// The kind of a file system change, as far as the index cares.
#[derive(Debug, Clone, Copy, PartialEq, Eq, Structural)]
pub enum ChangeKind {
    Create,
    ModifyData,
    Remove,
    RenameFrom,
    RenameTo,
    RenameBoth,
    Other,
}

/// A path named by a change, with what the file system says of it now.
pub struct ChangedPath {
    pub path: String,
    pub file_name: Option<String>,
    pub is_dir: bool,
    pub extension: Option<String>,
    pub meta: Option<FsMeta>,
}

/// A file system change and the paths it concerns.
pub struct ChangeEvent {
    pub kind: ChangeKind,
    pub paths: Vec<ChangedPath>,
}

/// The record a changed path gives: none when it has no file name.
pub open spec fn changed_record(cp: ChangedPath) -> Option<RecordView> {
    match cp.file_name {
        Some(n) => Some(fs_record(cp.path@, n@, cp.is_dir, opt_view(cp.extension), cp.meta)),
        None => None,
    }
}

/// Builds the record of a changed path, if it has a file name.
pub fn path_to_record(cp: ChangedPath) -> (r: Option<FileRecord>)
    ensures
        match r {
            Some(x) => changed_record(cp) == Some(x@),
            None => changed_record(cp) is None,
        },
        r is Some <==> cp.file_name is Some,
        r matches Some(x) ==> {
            &&& x.path@ == cp.path@
            &&& x.is_dir == cp.is_dir
            &&& x.id == 0
            &&& cp.is_dir ==> x.extension is None && x.size is None
            &&& cp.file_name matches Some(n) && x.filename@ == n@
        },
{
    proof {
        lemma_changed_record_fields(cp);
    }
    match cp.file_name {
        Some(name) => Some(entry_record(cp.path, name, cp.is_dir, cp.extension, cp.meta)),
        None => None,
    }
}

/// Kinds of change whose paths are (re)indexed: creation, a change of
/// contents, and the new name of a rename.
pub open spec fn upserts_paths(kind: ChangeKind) -> bool {
    kind is Create || kind is ModifyData || kind is RenameTo || kind is RenameBoth
}

/// Kinds of change whose paths leave the index: removal, and the old name of
/// a rename.
pub open spec fn removes_paths(kind: ChangeKind) -> bool {
    kind is Remove || kind is RenameFrom
}

/// The pending state after the paths of a change of kind `kind` are
/// handled in order: removed paths become pending removals; for the other
/// kinds that index, each path not excluded and with a file name becomes a
/// pending upsert; other kinds change nothing.
pub open spec fn apply_change(
    st: PendingModel,
    kind: ChangeKind,
    paths: Seq<ChangedPath>,
    excluded: Seq<Seq<char>>,
) -> PendingModel
    decreases paths.len(),
{
    if paths.len() == 0 {
        st
    } else {
        let prev = apply_change(st, kind, paths.drop_last(), excluded);
        let cp = paths.last();
        if removes_paths(kind) {
            remove_step(prev, cp.path@)
        } else if upserts_paths(kind) && !path_excluded(cp.path@, excluded) {
            match changed_record(cp) {
                Some(rv) => upsert_step(prev, rv),
                None => prev,
            }
        } else {
            prev
        }
    }
}

/// Records a file system change in the pending writes.
pub fn handle_event(event: ChangeEvent, excluded: &[String], pending: &mut PendingChanges)
    ensures
        final(pending).model() == apply_change(
            old(pending).model(),
            event.kind,
            event.paths@,
            string_views(excluded@),
        ),
        pending_disjoint(final(pending).model()),
{
    broadcast use vstd::std_specs::vec::axiom_spec_into_iter;
    let kind = event.kind;
    let ghost all = event.paths@;
    let ghost start = pending.model();
    let ghost exs = string_views(excluded@);
    let n: usize = event.paths.len();
    let mut i: usize = 0;
    proof {
        assert(all.take(0) =~= Seq::<ChangedPath>::empty());
        use_type_invariant(&*pending);
    }
    for cp in it: event.paths.into_iter()
        invariant
            it.seq() == all,
            all.len() == n,
            i == it.index(),
            exs == string_views(excluded@),
            pending.model() == apply_change(start, kind, all.take(i as int), exs),
            pending_disjoint(pending.model()),
    {
        proof {
            assert(all.take(i + 1).drop_last() =~= all.take(i as int));
            assert(all.take(i + 1).last() == cp);
        }
        match kind {
            ChangeKind::Remove | ChangeKind::RenameFrom => {
                pending.stage_remove(cp.path);
            },
            ChangeKind::Create | ChangeKind::ModifyData | ChangeKind::RenameTo
            | ChangeKind::RenameBoth => {
                if !is_excluded(cp.path.as_str(), excluded) {
                    match path_to_record(cp) {
                        Some(r) => {
                            pending.stage_upsert(r);
                        },
                        None => {},
                    }
                }
            },
            ChangeKind::Other => {},
        }
        i = i + 1;
    }
    proof {
        assert(all.take(all.len() as int) =~= all);
    }
}

/// The latest change to a path decides: staging a removal after an upsert
/// of the same path leaves what the removal alone leaves, and staging an
/// upsert after a removal leaves what the upsert alone leaves.
pub proof fn lemma_latest_change_wins(st: PendingModel, r: RecordView)
    ensures
        remove_step(upsert_step(st, r), r.path) == remove_step(st, r.path),
        upsert_step(remove_step(st, r.path), r) == upsert_step(st, r),
{
    assert(remove_step(upsert_step(st, r), r.path).0 =~= remove_step(st, r.path).0);
    assert(remove_step(upsert_step(st, r), r.path).1 =~= remove_step(st, r.path).1);
    assert(upsert_step(remove_step(st, r.path), r).0 =~= upsert_step(st, r).0);
    assert(upsert_step(remove_step(st, r.path), r).1 =~= upsert_step(st, r).1);
}

/// What a changed path records: a path with a file name gives a record of
/// that path and name, with the path's folder flag and id 0; a folder's
/// record has no extension and no size, a file's has its extension
/// lowercased and, with metadata, its length; the modification time comes
/// from the metadata. A path without a file name gives no record.
pub proof fn lemma_changed_record_fields(cp: ChangedPath)
    ensures
        changed_record(cp) is Some <==> cp.file_name is Some,
        changed_record(cp) matches Some(rv) ==> {
            &&& rv.path == cp.path@
            &&& cp.file_name matches Some(n) && rv.filename == n@
            &&& rv.is_dir == cp.is_dir
            &&& rv.id == 0
            &&& cp.is_dir ==> rv.extension is None && rv.size is None
            &&& !cp.is_dir ==> rv.extension == match cp.extension {
                Some(e) => Some(crate::text::lowercase(e@)),
                None => None,
            }
            &&& !cp.is_dir ==> rv.size == match cp.meta {
                Some(m) => Some(m.len as i64),
                None => None,
            }
            &&& rv.modified_time == match cp.meta {
                Some(m) => match m.modified_secs {
                    Some(t) => Some(t as i64),
                    None => None,
                },
                None => None,
            }
        },
{
    if let Some(n) = cp.file_name {
        crate::indexer::lemma_fs_record_fields(
            cp.path@,
            n@,
            cp.is_dir,
            opt_view(cp.extension),
            cp.meta,
        );
    }
}

/// The paths named by a change, as a set.
pub open spec fn named_paths(paths: Seq<ChangedPath>) -> Set<Seq<char>> {
    Set::new(|q: Seq<char>| exists|i: int| 0 <= i < paths.len() && #[trigger] paths[i].path@ == q)
}

/// A removal, and the old name of a rename, make every path they name
/// pending removal and drop any pending upsert of it; nothing else changes.
/// Exclusions and file names play no part.
pub proof fn lemma_removal_changes(
    st: PendingModel,
    kind: ChangeKind,
    paths: Seq<ChangedPath>,
    excluded: Seq<Seq<char>>,
)
    requires
        kind == ChangeKind::Remove || kind == ChangeKind::RenameFrom,
    ensures
        apply_change(st, kind, paths, excluded).0 == st.0.remove_keys(named_paths(paths)),
        apply_change(st, kind, paths, excluded).1 == st.1.union(named_paths(paths)),
    decreases paths.len(),
{
    if paths.len() == 0 {
        assert(named_paths(paths) =~= Set::<Seq<char>>::empty());
        assert(st.0.remove_keys(named_paths(paths)) =~= st.0);
        assert(st.1.union(named_paths(paths)) =~= st.1);
    } else {
        let prev = paths.drop_last();
        lemma_removal_changes(st, kind, prev, excluded);
        let p = paths.last().path@;
        assert forall|q: Seq<char>| named_paths(paths).contains(q) <==> (named_paths(prev).contains(q) || q == p) by {
            if named_paths(paths).contains(q) {
                let i = choose|i: int| 0 <= i < paths.len() && #[trigger] paths[i].path@ == q;
                if i < prev.len() {
                    assert(prev[i] == paths[i]);
                }
            }
            if named_paths(prev).contains(q) {
                let i = choose|i: int| 0 <= i < prev.len() && #[trigger] prev[i].path@ == q;
                assert(paths[i] == prev[i]);
            }
            if q == p {
                assert(paths[paths.len() - 1].path@ == q);
            }
        }
        let res = apply_change(st, kind, paths, excluded);
        assert(res.0 =~= st.0.remove_keys(named_paths(paths)));
        assert(res.1 =~= st.1.union(named_paths(paths)));
    }
}

/// A change of another kind leaves the pending writes as they are.
pub proof fn lemma_other_changes_nothing(st: PendingModel, paths: Seq<ChangedPath>, excluded: Seq<Seq<char>>)
    ensures
        apply_change(st, ChangeKind::Other, paths, excluded) == st,
    decreases paths.len(),
{
    if paths.len() > 0 {
        lemma_other_changes_nothing(st, paths.drop_last(), excluded);
    }
}

} // verus!
