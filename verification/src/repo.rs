//! The folder repository: a capability set {create, get-by-id, get-by-owner,
//! update, delete} over a store of folders keyed by identifier, and a verified
//! in-memory adapter.
//!
//! Contracts are stated over an abstract map from folder identifier to folder
//! value, so any backend implementing the capability set is a valid
//! substitute.

use vstd::prelude::*;

use crate::folder::{Folder, FolderView, PersistenceError};

verus! {

/// No two folders of the sequence share an identifier.
pub open spec fn ids_unique(s: Seq<FolderView>) -> bool {
    forall|i: int, j: int|
        0 <= i < s.len() && 0 <= j < s.len() && i != j ==> s[i].id != s[j].id
}

/// The contents of a folder store as a map from identifier to folder value;
/// a later entry overrides an earlier one with the same identifier.
pub open spec fn map_of(s: Seq<FolderView>) -> Map<Seq<char>, FolderView>
    decreases s.len(),
{
    if s.len() == 0 {
        Map::empty()
    } else {
        map_of(s.drop_last()).insert(s.last().id, s.last())
    }
}

/// The folders of `s` owned by `user_id`, in order.
pub open spec fn folders_of_user(s: Seq<FolderView>, user_id: Seq<char>) -> Seq<FolderView>
    decreases s.len(),
{
    if s.len() == 0 {
        Seq::empty()
    } else if s.last().user_id == user_id {
        folders_of_user(s.drop_last(), user_id).push(s.last())
    } else {
        folders_of_user(s.drop_last(), user_id)
    }
}

/// An identifier is a key of `map_of(s)` exactly when some folder of `s`
/// carries it.
proof fn lemma_map_of_contains_key(s: Seq<FolderView>, k: Seq<char>)
    ensures
        map_of(s).contains_key(k) <==> exists|i: int| 0 <= i < s.len() && s[i].id == k,
    decreases s.len(),
{
    if s.len() == 0 {
    } else {
        lemma_map_of_contains_key(s.drop_last(), k);
        if s.last().id == k {
            assert(s[s.len() - 1].id == k);
        } else {
            if map_of(s).contains_key(k) {
                let i = choose|i: int| 0 <= i < s.drop_last().len() && s.drop_last()[i].id == k;
                assert(s[i].id == k);
            }
            if exists|i: int| 0 <= i < s.len() && s[i].id == k {
                let i = choose|i: int| 0 <= i < s.len() && s[i].id == k;
                assert(s.drop_last()[i].id == k);
            }
        }
    }
}

/// With pairwise-distinct identifiers, `map_of(s)` maps the identifier of
/// each folder of `s` to that folder.
proof fn lemma_map_of_index(s: Seq<FolderView>, i: int)
    requires
        ids_unique(s),
        0 <= i < s.len(),
    ensures
        map_of(s).contains_key(s[i].id),
        map_of(s)[s[i].id] == s[i],
    decreases s.len(),
{
    if i == s.len() - 1 {
    } else {
        lemma_ids_unique_drop_last(s);
        lemma_map_of_index(s.drop_last(), i);
        assert(s.drop_last()[i] == s[i]);
        assert(s[i].id != s.last().id);
    }
}

/// Appending a folder inserts it into the map under its identifier.
proof fn lemma_map_of_push(s: Seq<FolderView>, v: FolderView)
    ensures
        map_of(s.push(v)) == map_of(s).insert(v.id, v),
{
    assert(s.push(v).drop_last() =~= s);
    assert(s.push(v).last() == v);
}

/// Replacing the folder at index `i` by one with the same identifier
/// re-inserts that identifier in the map.
proof fn lemma_map_of_update(s: Seq<FolderView>, i: int, v: FolderView)
    requires
        ids_unique(s),
        0 <= i < s.len(),
        s[i].id == v.id,
    ensures
        map_of(s.update(i, v)) == map_of(s).insert(v.id, v),
    decreases s.len(),
{
    if i == s.len() - 1 {
        assert(s.update(i, v).drop_last() =~= s.drop_last());
        assert(s.update(i, v).last() == v);
        assert(map_of(s.drop_last()).insert(s.last().id, s.last()).insert(v.id, v)
            =~= map_of(s.drop_last()).insert(v.id, v));
    } else {
        lemma_ids_unique_drop_last(s);
        assert(s.update(i, v).drop_last() =~= s.drop_last().update(i, v));
        assert(s.update(i, v).last() == s.last());
        lemma_map_of_update(s.drop_last(), i, v);
        assert(s.drop_last()[i] == s[i]);
        assert(v.id != s.last().id);
        assert(map_of(s.drop_last()).insert(v.id, v).insert(s.last().id, s.last())
            =~= map_of(s.drop_last()).insert(s.last().id, s.last()).insert(v.id, v));
    }
}

/// Removing the folder at index `i` removes its identifier from the map.
proof fn lemma_map_of_remove(s: Seq<FolderView>, i: int)
    requires
        ids_unique(s),
        0 <= i < s.len(),
    ensures
        map_of(s.remove(i)) == map_of(s).remove(s[i].id),
    decreases s.len(),
{
    if i == s.len() - 1 {
        assert(s.remove(i) =~= s.drop_last());
        lemma_map_of_contains_key(s.drop_last(), s[i].id);
        assert(forall|j: int| 0 <= j < s.drop_last().len()
            ==> #[trigger] s.drop_last()[j].id != s[i].id);
        assert(!map_of(s.drop_last()).contains_key(s[i].id));
        assert(map_of(s.drop_last()).insert(s.last().id, s.last()).remove(s[i].id)
            =~= map_of(s.drop_last()));
    } else {
        lemma_ids_unique_drop_last(s);
        assert(s.remove(i).drop_last() =~= s.drop_last().remove(i));
        assert(s.remove(i).len() == s.len() - 1);
        assert(s.remove(i).last() == s.last());
        lemma_map_of_remove(s.drop_last(), i);
        assert(s.drop_last()[i] == s[i]);
        assert(s[i].id != s.last().id);
        assert(map_of(s.drop_last()).remove(s[i].id).insert(s.last().id, s.last())
            =~= map_of(s.drop_last()).insert(s.last().id, s.last()).remove(s[i].id));
    }
}

/// `folders_of_user` holds exactly the folders of `s` owned by `user_id`.
proof fn lemma_folders_of_user_contains(s: Seq<FolderView>, u: Seq<char>)
    ensures
        forall|fv: FolderView| #[trigger] folders_of_user(s, u).contains(fv)
            <==> (s.contains(fv) && fv.user_id == u),
    decreases s.len(),
{
    if s.len() == 0 {
    } else {
        let st = s.drop_last();
        lemma_folders_of_user_contains(st, u);
        let f = folders_of_user(s, u);
        let ft = folders_of_user(st, u);
        assert forall|fv: FolderView| #[trigger] f.contains(fv)
            implies s.contains(fv) && fv.user_id == u by {
            let i = choose|i: int| 0 <= i < f.len() && f[i] == fv;
            if s.last().user_id == u && i == ft.len() {
                assert(fv == s.last());
                assert(s[s.len() - 1] == fv);
            } else {
                assert(ft[i] == fv);
                assert(ft.contains(fv));
                let j = choose|j: int| 0 <= j < st.len() && st[j] == fv;
                assert(s[j] == fv);
            }
        }
        assert forall|fv: FolderView| s.contains(fv) && fv.user_id == u
            implies #[trigger] f.contains(fv) by {
            let j = choose|j: int| 0 <= j < s.len() && s[j] == fv;
            if j == s.len() - 1 {
                assert(s.last() == fv);
                assert(f[f.len() - 1] == fv);
            } else {
                assert(st[j] == fv);
                assert(st.contains(fv));
                assert(ft.contains(fv));
                let i = choose|i: int| 0 <= i < ft.len() && ft[i] == fv;
                assert(f[i] == fv);
            }
        }
    }
}

/// With pairwise-distinct identifiers in `s`, the folders of one user keep
/// pairwise-distinct identifiers.
proof fn lemma_folders_of_user_unique(s: Seq<FolderView>, u: Seq<char>)
    requires
        ids_unique(s),
    ensures
        ids_unique(folders_of_user(s, u)),
    decreases s.len(),
{
    if s.len() == 0 {
    } else {
        let st = s.drop_last();
        lemma_ids_unique_drop_last(s);
        lemma_folders_of_user_unique(st, u);
        lemma_folders_of_user_contains(st, u);
        let f = folders_of_user(s, u);
        let ft = folders_of_user(st, u);
        if s.last().user_id == u {
            assert forall|i: int| 0 <= i < ft.len()
                implies #[trigger] ft[i].id != s.last().id by {
                assert(ft.contains(ft[i]));
                assert(st.contains(ft[i]));
                let j = choose|j: int| 0 <= j < st.len() && st[j] == ft[i];
                assert(s[j] == ft[i]);
                assert(s[j].id != s[s.len() - 1].id);
            }
            assert forall|p: int, q: int|
                0 <= p < f.len() && 0 <= q < f.len() && p != q
                implies f[p].id != f[q].id by {
                if p < ft.len() && q < ft.len() {
                    assert(f[p] == ft[p]);
                    assert(f[q] == ft[q]);
                } else if p == ft.len() {
                    assert(f[q] == ft[q]);
                } else {
                    assert(f[p] == ft[p]);
                }
            }
        }
    }
}

/// The folders returned for one user are exactly the stored folders whose
/// owner is that user: each is in the map under its identifier, and every
/// stored folder of that user appears.
pub proof fn lemma_folders_of_user_set(s: Seq<FolderView>, u: Seq<char>)
    requires
        ids_unique(s),
    ensures
        ids_unique(folders_of_user(s, u)),
        forall|fv: FolderView| #[trigger] folders_of_user(s, u).contains(fv)
            <==> (map_of(s).contains_key(fv.id) && map_of(s)[fv.id] == fv && fv.user_id == u),
{
    lemma_folders_of_user_contains(s, u);
    lemma_folders_of_user_unique(s, u);
    let f = folders_of_user(s, u);
    assert forall|fv: FolderView| #[trigger] f.contains(fv)
        implies map_of(s).contains_key(fv.id) && map_of(s)[fv.id] == fv && fv.user_id == u by {
        let i = choose|i: int| 0 <= i < s.len() && s[i] == fv;
        lemma_map_of_index(s, i);
    }
    assert forall|fv: FolderView|
        map_of(s).contains_key(fv.id) && map_of(s)[fv.id] == fv && fv.user_id == u
        implies #[trigger] f.contains(fv) by {
        lemma_map_of_contains_key(s, fv.id);
        let i = choose|i: int| 0 <= i < s.len() && s[i].id == fv.id;
        lemma_map_of_index(s, i);
        assert(s[i] == fv);
        assert(s.contains(fv));
    }
}

/// Dropping the last folder keeps identifiers pairwise distinct.
proof fn lemma_ids_unique_drop_last(s: Seq<FolderView>)
    requires
        ids_unique(s),
        s.len() > 0,
    ensures
        ids_unique(s.drop_last()),
{
    assert forall|p: int, q: int|
        0 <= p < s.drop_last().len() && 0 <= q < s.drop_last().len() && p != q
        implies s.drop_last()[p].id != s.drop_last()[q].id by {
        assert(s.drop_last()[p] == s[p]);
        assert(s.drop_last()[q] == s[q]);
    }
}

/// The capability set of a folder store. Any backend implementing these five
/// operations against its abstract `repo_view` — the stored folders keyed by
/// identifier — is a valid substitute.
///
/// A result of `Err` reports a `PersistenceError` from the backing store; an
/// absent document is a normal outcome (`None` on reads, a silent no-op on
/// update and delete), never an error.
pub trait FolderRepository: Sized {
    /// The implementation's internal invariant.
    spec fn inv(&self) -> bool;

    /// The stored folders, keyed by identifier.
    spec fn repo_view(&self) -> Map<Seq<char>, FolderView>;

    /// Inserts a new document keyed by `folder.id`. Succeeds only if no
    /// document with that identifier exists; on success the store gains
    /// exactly that document.
    fn create_folder(&mut self, folder: Folder) -> (r: Result<(), PersistenceError>)
        requires
            old(self).inv(),
        ensures
            final(self).inv(),
            r is Ok ==> !old(self).repo_view().contains_key(folder@.id)
                && final(self).repo_view() == old(self).repo_view().insert(folder@.id, folder@),
            r is Err ==> final(self).repo_view() == old(self).repo_view(),
    ;

    /// Returns the document with the given identifier, or `None` if the store
    /// has none.
    fn get_folder_by_id(&self, id: &str) -> (r: Result<Option<Folder>, PersistenceError>)
        requires
            self.inv(),
        ensures
            (match r {
                Ok(Some(f)) => self.repo_view().contains_key(id@)
                    && f@ == self.repo_view()[id@],
                Ok(None) => !self.repo_view().contains_key(id@),
                Err(_) => true,
            }),
    ;

    /// Returns all folders owned by `user_id`: exactly the stored folders
    /// whose owner is that user, with no ordering promised, and with no
    /// folder listed twice.
    fn get_folders_by_user_id(&self, user_id: &str) -> (r: Result<
        Vec<Folder>,
        PersistenceError,
    >)
        requires
            self.inv(),
        ensures
            (match r {
                Ok(v) => ids_unique(v.deep_view()) && (forall|fv: FolderView|
                    #[trigger] v.deep_view().contains(fv) <==> (self.repo_view().contains_key(
                        fv.id,
                    ) && self.repo_view()[fv.id] == fv && fv.user_id == user_id@)),
                Err(_) => true,
            }),
    ;

    /// Replaces the whole document matching `folder.id` by `folder` and hands
    /// the same value back. If no document matches, the store is left as it
    /// was and success is still reported: the caller cannot tell an update
    /// from a no-op on an absent identifier.
    fn update_folder(&mut self, folder: Folder) -> (r: Result<Folder, PersistenceError>)
        requires
            old(self).inv(),
        ensures
            final(self).inv(),
            (match r {
                Ok(f) => f@ == folder@ && (if old(self).repo_view().contains_key(folder@.id) {
                    final(self).repo_view() == old(self).repo_view().insert(folder@.id, folder@)
                } else {
                    final(self).repo_view() == old(self).repo_view()
                }),
                Err(_) => final(self).repo_view() == old(self).repo_view(),
            }),
    ;

    /// Removes the document matching `id`; succeeds whether or not one
    /// existed.
    fn delete_folder(&mut self, id: &str) -> (r: Result<(), PersistenceError>)
        requires
            old(self).inv(),
        ensures
            final(self).inv(),
            r is Ok ==> final(self).repo_view() == old(self).repo_view().remove(id@),
            r is Err ==> final(self).repo_view() == old(self).repo_view(),
    ;
}

/// An in-memory folder store: the substitutable adapter for callers that need
/// no external backend. Folders are held in insertion order with pairwise
/// distinct identifiers; it holds no connection, so none of its operations
/// ever reports a `PersistenceError::Backend`.
pub struct MemoryFolderRepository {
    folders: Vec<Folder>,
}

impl MemoryFolderRepository {
    /// The stored folders as mathematical values, in insertion order.
    pub closed spec fn folder_views(&self) -> Seq<FolderView> {
        self.folders.deep_view()
    }

    /// An empty store.
    pub fn new() -> (r: MemoryFolderRepository)
        ensures
            r.inv(),
            r.folder_views() == Seq::<FolderView>::empty(),
            r.repo_view() == Map::<Seq<char>, FolderView>::empty(),
    {
        let r = MemoryFolderRepository { folders: Vec::new() };
        proof {
            assert(r.folder_views() =~= Seq::<FolderView>::empty());
        }
        r
    }

    /// Index of the folder carrying identifier `id`, if one is stored.
    fn find_index(&self, id: &str) -> (r: Option<usize>)
        ensures
            (match r {
                Some(i) => i < self.folder_views().len()
                    && self.folder_views()[i as int].id == id@,
                None => forall|j: int|
                    0 <= j < self.folder_views().len()
                        ==> #[trigger] self.folder_views()[j].id != id@,
            }),
    {
        let key: String = id.to_owned();
        let n = self.folders.len();
        let mut i: usize = 0;
        while i < n
            invariant
                n == self.folders.len(),
                i <= n,
                key@ == id@,
                forall|j: int| 0 <= j < i ==> #[trigger] self.folder_views()[j].id != id@,
            decreases n - i,
        {
            if self.folders[i].id == key {
                assert(self.folder_views()[i as int].id == id@);
                return Some(i);
            }
            i += 1;
        }
        None
    }
}

impl FolderRepository for MemoryFolderRepository {
    /// Identifiers are pairwise distinct.
    open spec fn inv(&self) -> bool {
        ids_unique(self.folder_views())
    }

    open spec fn repo_view(&self) -> Map<Seq<char>, FolderView> {
        map_of(self.folder_views())
    }

    fn create_folder(&mut self, folder: Folder) -> (r: Result<(), PersistenceError>)
        ensures
            r is Ok <==> !old(self).repo_view().contains_key(folder@.id),
            r is Err ==> r == Result::<(), PersistenceError>::Err(PersistenceError::DuplicateId),
    {
        let ghost s0 = self.folder_views();
        let ghost fv = folder@;
        let idx = self.find_index(folder.id.as_str());
        proof {
            lemma_map_of_contains_key(s0, fv.id);
        }
        match idx {
            Some(_) => Err(PersistenceError::DuplicateId),
            None => {
                self.folders.push(folder);
                proof {
                    assert(self.folder_views() =~= s0.push(fv));
                    lemma_map_of_push(s0, fv);
                    assert forall|p: int, q: int|
                        0 <= p < s0.push(fv).len() && 0 <= q < s0.push(fv).len() && p != q
                        implies s0.push(fv)[p].id != s0.push(fv)[q].id by {
                        if p < s0.len() && q < s0.len() {
                            assert(s0.push(fv)[p] == s0[p]);
                            assert(s0.push(fv)[q] == s0[q]);
                        } else if p == s0.len() {
                            assert(s0.push(fv)[q] == s0[q]);
                        } else {
                            assert(s0.push(fv)[p] == s0[p]);
                        }
                    }
                }
                Ok(())
            },
        }
    }

    fn get_folder_by_id(&self, id: &str) -> (r: Result<Option<Folder>, PersistenceError>)
        ensures
            r is Ok,
    {
        let idx = self.find_index(id);
        match idx {
            Some(i) => {
                proof {
                    lemma_map_of_index(self.folder_views(), i as int);
                }
                Ok(Some(self.folders[i].clone()))
            },
            None => {
                proof {
                    lemma_map_of_contains_key(self.folder_views(), id@);
                }
                Ok(None)
            },
        }
    }

    fn get_folders_by_user_id(&self, user_id: &str) -> (r: Result<
        Vec<Folder>,
        PersistenceError,
    >)
        ensures
            r is Ok,
            (match r {
                Ok(v) => v.deep_view() == folders_of_user(self.folder_views(), user_id@),
                Err(_) => true,
            }),
    {
        let key: String = user_id.to_owned();
        let mut out: Vec<Folder> = Vec::new();
        let n = self.folders.len();
        let mut i: usize = 0;
        proof {
            assert(out.deep_view() =~= folders_of_user(self.folder_views().take(0), user_id@));
        }
        while i < n
            invariant
                n == self.folders.len(),
                i <= n,
                key@ == user_id@,
                out.deep_view() == folders_of_user(self.folder_views().take(i as int), user_id@),
            decreases n - i,
        {
            let ghost pre = out.deep_view();
            let ghost s = self.folder_views();
            if self.folders[i].user_id == key {
                out.push(self.folders[i].clone());
                proof {
                    assert(out.deep_view() =~= pre.push(s[i as int]));
                }
            }
            proof {
                assert(s.take(i as int + 1).drop_last() =~= s.take(i as int));
                assert(s.take(i as int + 1).last() == s[i as int]);
            }
            i += 1;
        }
        proof {
            assert(self.folder_views().take(n as int) =~= self.folder_views());
            lemma_folders_of_user_set(self.folder_views(), user_id@);
        }
        Ok(out)
    }

    fn update_folder(&mut self, folder: Folder) -> (r: Result<Folder, PersistenceError>)
        ensures
            r is Ok,
    {
        let ghost s0 = self.folder_views();
        let ghost fv = folder@;
        let idx = self.find_index(folder.id.as_str());
        proof {
            lemma_map_of_contains_key(s0, fv.id);
        }
        match idx {
            Some(i) => {
                let copy = folder.clone();
                self.folders.set(i, folder);
                proof {
                    assert(self.folder_views() =~= s0.update(i as int, fv));
                    lemma_map_of_update(s0, i as int, fv);
                    assert forall|p: int, q: int|
                        0 <= p < s0.update(i as int, fv).len()
                            && 0 <= q < s0.update(i as int, fv).len() && p != q
                        implies s0.update(i as int, fv)[p].id != s0.update(i as int, fv)[q].id by {
                        assert(s0[p].id != s0[q].id);
                    }
                }
                Ok(copy)
            },
            None => Ok(folder),
        }
    }

    fn delete_folder(&mut self, id: &str) -> (r: Result<(), PersistenceError>)
        ensures
            r is Ok,
    {
        let ghost s0 = self.folder_views();
        let idx = self.find_index(id);
        match idx {
            Some(i) => {
                self.folders.remove(i);
                proof {
                    assert(self.folder_views() =~= s0.remove(i as int));
                    lemma_map_of_remove(s0, i as int);
                    s0.remove_ensures(i as int);
                    assert forall|p: int, q: int|
                        0 <= p < s0.remove(i as int).len() && 0 <= q < s0.remove(i as int).len()
                            && p != q
                        implies s0.remove(i as int)[p].id != s0.remove(i as int)[q].id by {
                        let pp: int = if p < i { p } else { p + 1 };
                        let qq: int = if q < i { q } else { q + 1 };
                        assert(s0.remove(i as int)[p] == s0[pp]);
                        assert(s0.remove(i as int)[q] == s0[qq]);
                        assert(s0[pp].id != s0[qq].id);
                    }
                }
                Ok(())
            },
            None => {
                proof {
                    lemma_map_of_contains_key(s0, id@);
                    assert(map_of(s0).remove(id@) =~= map_of(s0));
                }
                Ok(())
            },
        }
    }
}

/// A folder just created is found again by its identifier, equal to what was
/// inserted: after a successful create of `f` against store contents `m`, a
/// lookup of `f.id` yields exactly `f`.
pub proof fn lemma_create_then_get(m: Map<Seq<char>, FolderView>, f: FolderView)
    ensures
        m.insert(f.id, f).contains_key(f.id),
        m.insert(f.id, f)[f.id] == f,
{
}

/// An identifier never inserted stays absent: it is not a key of the empty
/// store, creating a folder with a different identifier does not make it a
/// key, and deleting it leaves it absent.
pub proof fn lemma_never_inserted_absent(m: Map<Seq<char>, FolderView>, f: FolderView, id: Seq<char>)
    requires
        !m.contains_key(id),
        f.id != id,
    ensures
        !Map::<Seq<char>, FolderView>::empty().contains_key(id),
        !m.insert(f.id, f).contains_key(id),
        !m.remove(id).contains_key(id),
{
}

/// A successful update of an existing document replaces all its fields and
/// nothing else: afterwards the identifier maps to the new value, every other
/// document is unchanged, and no document appeared or disappeared.
pub proof fn lemma_update_then_get(m: Map<Seq<char>, FolderView>, f: FolderView)
    requires
        m.contains_key(f.id),
    ensures
        m.insert(f.id, f)[f.id] == f,
        m.insert(f.id, f).dom() == m.dom(),
        forall|k: Seq<char>| k != f.id && m.contains_key(k)
            ==> #[trigger] m.insert(f.id, f)[k] == m[k],
{
    assert(m.insert(f.id, f).dom() =~= m.dom());
}

/// After a delete the identifier is absent, whether or not it was present,
/// and every other document is untouched — deletion neither cascades nor
/// reparents.
pub proof fn lemma_delete_then_get(m: Map<Seq<char>, FolderView>, id: Seq<char>)
    ensures
        !m.remove(id).contains_key(id),
        forall|k: Seq<char>| k != id
            ==> #[trigger] m.remove(id).contains_key(k) == m.contains_key(k),
        forall|k: Seq<char>| k != id && m.contains_key(k)
            ==> #[trigger] m.remove(id)[k] == m[k],
{
}

} // verus!
