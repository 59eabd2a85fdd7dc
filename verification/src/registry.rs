//! The function registry: routing records from function identifiers to the
//! core that owns them.
//!
//! A registry value is an immutable snapshot. Mutation is expressed as
//! building a new snapshot from the previous one plus a delta
//! (`register`, `remove_core`); the engine publishes the new snapshot by
//! replacing its field, so a reader holding a snapshot is never exposed to
//! a partially-updated mapping.

use vstd::prelude::*;

verus! {

use crate::ident::FuncId;
use crate::errors::LoadError;

/// The two backend kinds a routing record can point at.
#[derive(Clone, Copy, PartialEq, Eq, Structural, Debug)]
pub enum ExecutionType {
    /// A sandboxed bytecode module run by the embedded virtual machine.
    Wasm,
    /// A native dynamic library sharing the host's address space.
    DynLib,
}

/// One routing record: a function identifier, the identifier of the core
/// that owns it, and that core's backend kind. Purely a routing record; it
/// owns no resources.
#[derive(Clone, Copy, PartialEq, Eq, Structural, Debug)]
pub struct CoreFunction {
    /// The core that exports the function.
    pub core_id: FuncId,
    /// The exported function itself.
    pub fn_id: FuncId,
    /// How the owning core executes.
    pub exec_type: ExecutionType,
}

/// The mapping that a sequence of routing records denotes: later records
/// shadow earlier ones with the same function identifier.
pub open spec fn entries_map(s: Seq<CoreFunction>) -> Map<FuncId, CoreFunction>
    decreases s.len(),
{
    if s.len() == 0 {
        Map::empty()
    } else {
        entries_map(s.drop_last()).insert(s.last().fn_id, s.last())
    }
}

/// An identifier is in the denoted mapping exactly when some record
/// carries it.
pub proof fn lemma_entries_map_dom(s: Seq<CoreFunction>)
    ensures
        forall|id: FuncId|
            entries_map(s).contains_key(id) <==> (exists|k: int|
                0 <= k < s.len() && s[k].fn_id == id),
    decreases s.len(),
{
    if s.len() == 0 {
    } else {
        lemma_entries_map_dom(s.drop_last());
        assert forall|id: FuncId| entries_map(s).contains_key(id) implies (exists|k: int|
            0 <= k < s.len() && s[k].fn_id == id) by {
            if id == s.last().fn_id {
                assert(s[s.len() - 1].fn_id == id);
            } else {
                assert(entries_map(s.drop_last()).contains_key(id));
                let k = choose|k: int|
                    0 <= k < s.drop_last().len() && #[trigger] s.drop_last()[k].fn_id == id;
                assert(s.drop_last()[k] == s[k]);
                assert(s[k].fn_id == id);
            }
        }
        assert forall|id: FuncId| (exists|k: int| 0 <= k < s.len() && s[k].fn_id == id)
            implies entries_map(s).contains_key(id) by {
            let k = choose|k: int| 0 <= k < s.len() && #[trigger] s[k].fn_id == id;
            if k < s.len() - 1 {
                assert(s.drop_last()[k] == s[k]);
                assert(s.drop_last()[k].fn_id == id);
                assert(entries_map(s.drop_last()).contains_key(id));
            } else {
                assert(id == s.last().fn_id);
            }
        }
    }
}

/// When no two records carry the same identifier, each record is exactly
/// what the denoted mapping holds at its identifier.
pub proof fn lemma_entries_map_get(s: Seq<CoreFunction>, k: int)
    requires
        0 <= k < s.len(),
        forall|i: int, j: int| 0 <= i < j < s.len() ==> s[i].fn_id != s[j].fn_id,
    ensures
        entries_map(s).contains_key(s[k].fn_id),
        entries_map(s)[s[k].fn_id] == s[k],
    decreases s.len(),
{
    if k == s.len() - 1 {
    } else {
        assert forall|i: int, j: int| 0 <= i < j < s.drop_last().len()
            implies s.drop_last()[i].fn_id != s.drop_last()[j].fn_id by {
            assert(s.drop_last()[i] == s[i]);
            assert(s.drop_last()[j] == s[j]);
        }
        lemma_entries_map_get(s.drop_last(), k);
        assert(s.drop_last()[k] == s[k]);
        assert(s[k].fn_id != s[s.len() - 1].fn_id);
    }
}

/// What a successful registration publishes: `post` is `pre` plus one
/// record per identifier in `fns`, all owned by `core_id`, with every
/// previous record untouched; the new identifiers were unmapped and are
/// mutually distinct.
pub open spec fn register_post(
    pre: Map<FuncId, CoreFunction>,
    post: Map<FuncId, CoreFunction>,
    core_id: FuncId,
    exec_type: ExecutionType,
    fns: Seq<FuncId>,
) -> bool {
    &&& forall|k: int| 0 <= k < fns.len() ==> !pre.contains_key(#[trigger] fns[k])
    &&& forall|i: int, j: int| 0 <= i < j < fns.len() ==> fns[i] != fns[j]
    &&& forall|f: FuncId| #[trigger]
        post.contains_key(f) <==> (pre.contains_key(f) || fns.contains(f))
    &&& forall|k: int|
        0 <= k < fns.len() ==> post[#[trigger] fns[k]] == (CoreFunction {
            core_id,
            fn_id: fns[k],
            exec_type,
        })
    &&& forall|f: FuncId| #[trigger] pre.contains_key(f) ==> post[f] == pre[f]
}

/// What a removal publishes: `post` is `pre` with every record owned by
/// `core_id` gone and every other record untouched.
pub open spec fn remove_post(
    pre: Map<FuncId, CoreFunction>,
    post: Map<FuncId, CoreFunction>,
    core_id: FuncId,
) -> bool {
    &&& forall|f: FuncId| #[trigger]
        post.contains_key(f) <==> (pre.contains_key(f) && pre[f].core_id != core_id)
    &&& forall|f: FuncId| #[trigger] post.contains_key(f) ==> post[f] == pre[f]
}

/// An atomically-publishable snapshot of the function routing table.
pub struct FunctionRegistry {
    entries: Vec<CoreFunction>,
}

impl FunctionRegistry {
    /// The routing records, in registration order.
    pub closed spec fn entries_seq(&self) -> Seq<CoreFunction> {
        self.entries@
    }

    /// The mapping this snapshot denotes.
    pub closed spec fn spec_map(&self) -> Map<FuncId, CoreFunction> {
        entries_map(self.entries@)
    }

    /// No two records carry the same function identifier (registration
    /// rejects collisions rather than shadowing).
    pub closed spec fn wf(&self) -> bool {
        forall|i: int, j: int|
            0 <= i < j < self.entries@.len() ==> self.entries@[i].fn_id != self.entries@[j].fn_id
    }

    /// The empty routing table.
    pub fn new() -> (r: FunctionRegistry)
        ensures
            r.wf(),
            r.spec_map() == Map::<FuncId, CoreFunction>::empty(),
    {
        FunctionRegistry { entries: Vec::new() }
    }

    /// An identical snapshot, independently owned, so the previous one can
    /// keep serving readers while a new snapshot is built from this copy.
    pub fn snapshot(&self) -> (r: FunctionRegistry)
        ensures
            r.entries_seq() == self.entries_seq(),
            r.spec_map() == self.spec_map(),
            r.wf() == self.wf(),
    {
        let mut v: Vec<CoreFunction> = Vec::new();
        let mut i: usize = 0;
        while i < self.entries.len()
            invariant
                i <= self.entries@.len(),
                v@ == self.entries@.take(i as int),
            decreases self.entries@.len() - i,
        {
            v.push(self.entries[i]);
            proof {
                assert(self.entries@.take(i + 1) =~= self.entries@.take(i as int).push(
                    self.entries@[i as int],
                ));
            }
            i = i + 1;
        }
        proof {
            assert(self.entries@.take(self.entries@.len() as int) =~= self.entries@);
        }
        FunctionRegistry { entries: v }
    }

    /// Pure read against this snapshot: the record for `id`, if any.
    pub fn lookup(&self, id: &FuncId) -> (r: Option<CoreFunction>)
        requires
            self.wf(),
        ensures
            match r {
                Some(cf) => self.spec_map().contains_key(*id) && self.spec_map()[*id] == cf
                    && cf.fn_id == *id,
                None => !self.spec_map().contains_key(*id),
            },
    {
        let mut i: usize = 0;
        while i < self.entries.len()
            invariant
                self.wf(),
                i <= self.entries@.len(),
                forall|k: int| 0 <= k < i ==> self.entries@[k].fn_id != *id,
            decreases self.entries@.len() - i,
        {
            if self.entries[i].fn_id == *id {
                proof {
                    lemma_entries_map_get(self.entries@, i as int);
                }
                return Some(self.entries[i]);
            }
            i = i + 1;
        }
        proof {
            lemma_entries_map_dom(self.entries@);
        }
        None
    }

    /// A new snapshot holding every record of this one plus one record for
    /// each identifier in `fns`, all owned by `core_id`. The whole
    /// registration is rejected with `Collision` if any new identifier is
    /// already mapped or occurs twice in `fns`; in that case no snapshot is
    /// produced and nothing is overwritten.
    pub fn register(&self, core_id: FuncId, exec_type: ExecutionType, fns: &Vec<FuncId>) -> (r:
        Result<FunctionRegistry, LoadError>)
        requires
            self.wf(),
        ensures
            match r {
                Ok(nr) => {
                    &&& nr.wf()
                    &&& register_post(self.spec_map(), nr.spec_map(), core_id, exec_type, fns@)
                },
                Err(e) => {
                    &&& e == LoadError::Collision
                    &&& ((exists|k: int|
                        0 <= k < fns@.len() && self.spec_map().contains_key(fns@[k])) || (
                    exists|i: int, j: int|
                        0 <= i < j < fns@.len() && fns@[i] == fns@[j]))
                },
            },
    {
        let mut nr = self.snapshot();
        let mut i: usize = 0;
        while i < fns.len()
            invariant
                self.wf(),
                nr.wf(),
                i <= fns@.len(),
                forall|k: int| 0 <= k < i ==> !self.spec_map().contains_key(fns@[k]),
                forall|k1: int, k2: int| 0 <= k1 < k2 < i ==> fns@[k1] != fns@[k2],
                forall|id: FuncId| #![auto]
                    nr.spec_map().contains_key(id) <==> (self.spec_map().contains_key(id)
                        || fns@.take(i as int).contains(id)),
                forall|k: int| #![auto]
                    0 <= k < i ==> nr.spec_map()[fns@[k]] == (CoreFunction {
                        core_id,
                        fn_id: fns@[k],
                        exec_type,
                    }),
                forall|id: FuncId| #![auto]
                    self.spec_map().contains_key(id) ==> nr.spec_map()[id] == self.spec_map()[id],
            decreases fns@.len() - i,
        {
            let fid = fns[i];
            match nr.lookup(&fid) {
                Some(_) => {
                    proof {
                        if !self.spec_map().contains_key(fid) {
                            let k = choose|k: int|
                                0 <= k < i && fns@.take(i as int)[k] == fid;
                            assert(fns@[k] == fid);
                            assert(0 <= k < i < fns@.len() && fns@[k] == fns@[i as int]);
                        }
                    }
                    return Err(LoadError::Collision);
                },
                None => {
                    proof {
                        assert forall|k: int| 0 <= k < i implies fns@[k] != fid by {
                            if fns@[k] == fid {
                                assert(fns@.take(i as int)[k] == fid);
                                assert(fns@.take(i as int).contains(fid));
                            }
                        }
                    }
                    let ghost old_entries = nr.entries@;
                    nr.entries.push(CoreFunction { core_id, fn_id: fid, exec_type });
                    proof {
                        assert(nr.entries@.drop_last() =~= old_entries);
                        lemma_entries_map_dom(old_entries);
                        assert forall|k: int| 0 <= k < old_entries.len()
                            implies old_entries[k].fn_id != fid by {
                            assert(entries_map(old_entries).contains_key(old_entries[k].fn_id));
                        }
                        assert forall|k1: int, k2: int| 0 <= k1 < k2 < nr.entries@.len()
                            implies nr.entries@[k1].fn_id != nr.entries@[k2].fn_id by {
                            if k2 < nr.entries@.len() - 1 {
                                assert(nr.entries@[k1] == old_entries[k1]);
                                assert(nr.entries@[k2] == old_entries[k2]);
                            } else {
                                assert(nr.entries@[k1] == old_entries[k1]);
                            }
                        }
                        assert(fns@.take(i + 1) =~= fns@.take(i as int).push(fns@[i as int]));
                        assert forall|id: FuncId|
                            fns@.take(i + 1).contains(id) implies (fns@.take(i as int).contains(id)
                            || id == fid) by {
                            let k = choose|k: int|
                                0 <= k < fns@.take(i + 1).len() && #[trigger] fns@.take(i + 1)[k]
                                    == id;
                            if k < i {
                                assert(fns@.take(i as int)[k] == id);
                            }
                        }
                        assert(fns@.take(i + 1).contains(fid)) by {
                            assert(fns@.take(i + 1)[i as int] == fid);
                        }
                        assert forall|id: FuncId| fns@.take(i as int).contains(id)
                            implies fns@.take(i + 1).contains(id) by {
                            let k = choose|k: int|
                                0 <= k < fns@.take(i as int).len() && #[trigger] fns@.take(
                                    i as int,
                                )[k] == id;
                            assert(fns@.take(i + 1)[k] == id);
                        }
                    }
                    i = i + 1;
                },
            }
        }
        proof {
            assert(fns@.take(fns@.len() as int) =~= fns@);
            assert forall|k: int| 0 <= k < fns@.len() implies fns@.take(fns@.len() as int).contains(
                fns@[k],
            ) by {
                assert(fns@.take(fns@.len() as int)[k] == fns@[k]);
            }
        }
        Ok(nr)
    }

    /// A new snapshot with every record owned by `core_id` removed and all
    /// other records kept unchanged. Published together with the core's
    /// removal, so no dangling routing record is ever visible.
    pub fn remove_core(&self, core_id: FuncId) -> (r: FunctionRegistry)
        requires
            self.wf(),
        ensures
            r.wf(),
            remove_post(self.spec_map(), r.spec_map(), core_id),
    {
        let mut nr = FunctionRegistry { entries: Vec::new() };
        let mut i: usize = 0;
        while i < self.entries.len()
            invariant
                self.wf(),
                nr.wf(),
                i <= self.entries@.len(),
                forall|id: FuncId| #![auto]
                    nr.spec_map().contains_key(id) <==> (exists|k: int|
                        0 <= k < i && self.entries@[k].fn_id == id && self.entries@[k].core_id
                            != core_id),
                forall|id: FuncId| #![auto]
                    nr.spec_map().contains_key(id) ==> nr.spec_map()[id] == self.spec_map()[id],
            decreases self.entries@.len() - i,
        {
            let entry = self.entries[i];
            let ghost old_map = nr.spec_map();
            if !(entry.core_id == core_id) {
                let ghost old_entries = nr.entries@;
                nr.entries.push(entry);
                proof {
                    assert(nr.entries@.drop_last() =~= old_entries);
                    assert(nr.spec_map() == old_map.insert(entry.fn_id, entry));
                    lemma_entries_map_dom(old_entries);
                    assert forall|k: int| 0 <= k < old_entries.len()
                        implies old_entries[k].fn_id != entry.fn_id by {
                        if old_entries[k].fn_id == entry.fn_id {
                            assert(entries_map(old_entries).contains_key(old_entries[k].fn_id));
                            assert(old_map.contains_key(entry.fn_id));
                            let k2 = choose|k2: int|
                                0 <= k2 < i && #[trigger] self.entries@[k2].fn_id == entry.fn_id
                                    && self.entries@[k2].core_id != core_id;
                            assert(self.entries@[k2].fn_id == self.entries@[i as int].fn_id);
                            assert(false);
                        }
                    }
                    assert forall|k1: int, k2: int| 0 <= k1 < k2 < nr.entries@.len()
                        implies nr.entries@[k1].fn_id != nr.entries@[k2].fn_id by {
                        assert(nr.entries@[k1] == old_entries[k1]);
                        if k2 < nr.entries@.len() - 1 {
                            assert(nr.entries@[k2] == old_entries[k2]);
                        }
                    }
                    lemma_entries_map_get(self.entries@, i as int);
                    assert(self.spec_map()[entry.fn_id] == entry);
                    assert forall|id: FuncId| #![auto] nr.spec_map().contains_key(id)
                        implies (exists|k: int|
                        0 <= k < i + 1 && self.entries@[k].fn_id == id && self.entries@[k].core_id
                            != core_id) by {
                        if id == entry.fn_id {
                            assert(self.entries@[i as int].fn_id == id && self.entries@[
                            i as int].core_id != core_id);
                        } else {
                            assert(old_map.contains_key(id));
                            let k = choose|k: int|
                                0 <= k < i && #[trigger] self.entries@[k].fn_id == id
                                    && self.entries@[k].core_id != core_id;
                            assert(0 <= k < i + 1 && self.entries@[k].fn_id == id
                                && self.entries@[k].core_id != core_id);
                        }
                    }
                    assert forall|id: FuncId| #![auto] (exists|k: int|
                        0 <= k < i + 1 && self.entries@[k].fn_id == id && self.entries@[k].core_id
                            != core_id) implies nr.spec_map().contains_key(id) by {
                        let k = choose|k: int|
                            0 <= k < i + 1 && #[trigger] self.entries@[k].fn_id == id
                                && self.entries@[k].core_id != core_id;
                        if k < i {
                            assert(old_map.contains_key(id));
                        }
                    }
                }
            } else {
                proof {
                    assert forall|id: FuncId| #![auto] nr.spec_map().contains_key(id)
                        implies (exists|k: int|
                        0 <= k < i + 1 && self.entries@[k].fn_id == id && self.entries@[k].core_id
                            != core_id) by {
                        let k = choose|k: int|
                            0 <= k < i && #[trigger] self.entries@[k].fn_id == id
                                && self.entries@[k].core_id != core_id;
                        assert(0 <= k < i + 1 && self.entries@[k].fn_id == id && self.entries@[
                        k].core_id != core_id);
                    }
                    assert forall|id: FuncId| #![auto] (exists|k: int|
                        0 <= k < i + 1 && self.entries@[k].fn_id == id && self.entries@[k].core_id
                            != core_id) implies nr.spec_map().contains_key(id) by {
                        let k = choose|k: int|
                            0 <= k < i + 1 && #[trigger] self.entries@[k].fn_id == id
                                && self.entries@[k].core_id != core_id;
                        assert(k != i);
                        assert(0 <= k < i && self.entries@[k].fn_id == id && self.entries@[
                        k].core_id != core_id);
                    }
                }
            }
            i = i + 1;
        }
        proof {
            lemma_entries_map_dom(self.entries@);
            assert forall|id: FuncId| #![auto] nr.spec_map().contains_key(id)
                implies (self.spec_map().contains_key(id) && self.spec_map()[id].core_id
                != core_id) by {
                let k = choose|k: int|
                    0 <= k < self.entries@.len() && self.entries@[k].fn_id == id
                        && self.entries@[k].core_id != core_id;
                lemma_entries_map_get(self.entries@, k);
            }
            assert forall|id: FuncId| #![auto] (self.spec_map().contains_key(id)
                && self.spec_map()[id].core_id != core_id) implies nr.spec_map().contains_key(
                id,
            ) by {
                let k = choose|k: int|
                    0 <= k < self.entries@.len() && self.entries@[k].fn_id == id;
                lemma_entries_map_get(self.entries@, k);
            }
        }
        nr
    }
}

} // verus!
