//! The engine façade: it owns the core registry, the function routing
//! table and the broadcaster, and coordinates load, unload, dispatch and
//! fan-out.
//!
//! Every mutating operation reads the current snapshots, builds new ones,
//! and publishes them by replacing the fields; `call_function` reads the
//! current routing snapshot and never mutates it except to isolate a
//! faulted core. An embedder serializes writers around the engine and may
//! publish its routing snapshots behind an atomically-swapped pointer;
//! within the engine no reader ever observes a partially-updated registry.

use vstd::prelude::*;

verus! {

use crate::ident::{FuncId, spec_from_name};
use crate::errors::{LoadError, InvokeError, is_fault};
use crate::message::Response;
use crate::backend::{Core, CoreState};
use crate::fanout::{SideEffect, MessageBroadcaster};
use crate::registry::{FunctionRegistry, CoreFunction, ExecutionType, register_post, remove_post};
use crate::sandbox::SandboxedCore;
use vstd::string::StringSliceAdditionalSpecFns;

/// One loaded backend: the engine's own sandboxed kind, or an
/// embedder-supplied implementation of the `Core` capability interface
/// (a native library backend lives outside the verified library).
pub enum BackendHandle<C: Core> {
    /// A sandboxed bytecode module.
    Sandboxed(SandboxedCore),
    /// An embedder-supplied backend.
    External(C),
}

/// One registered core: its identifier, the engine's lifecycle state for
/// it, and the backend itself. The engine owns each core exclusively.
pub struct CoreSlot<C: Core> {
    id: FuncId,
    state: CoreState,
    backend: BackendHandle<C>,
}

/// The functions a backend exposes.
pub open spec fn handle_exports<C: Core>(h: BackendHandle<C>) -> Seq<FuncId> {
    match h {
        BackendHandle::Sandboxed(s) => s.exports(),
        BackendHandle::External(c) => c.exports(),
    }
}

/// The backend's internal validity.
pub open spec fn handle_inv<C: Core>(h: BackendHandle<C>) -> bool {
    match h {
        BackendHandle::Sandboxed(s) => s.inv(),
        BackendHandle::External(c) => c.inv(),
    }
}

/// The backend accepts calls.
pub open spec fn handle_ready<C: Core>(h: BackendHandle<C>) -> bool {
    match h {
        BackendHandle::Sandboxed(s) => s.ready(),
        BackendHandle::External(c) => c.ready(),
    }
}

/// Some slot carries identifier `id`.
spec fn slots_has<C: Core>(s: Seq<CoreSlot<C>>, id: FuncId) -> bool {
    exists|k: int| 0 <= k < s.len() && (#[trigger] s[k]).id == id
}

/// The position of the slot carrying `id` (meaningful under `slots_has`
/// and distinct identifiers).
spec fn slot_index<C: Core>(s: Seq<CoreSlot<C>>, id: FuncId) -> int {
    choose|k: int| 0 <= k < s.len() && (#[trigger] s[k]).id == id
}

/// No two slots carry the same identifier.
spec fn slots_distinct<C: Core>(s: Seq<CoreSlot<C>>) -> bool {
    forall|i: int, j: int| 0 <= i < j < s.len() ==> (#[trigger] s[i]).id != (#[trigger] s[j]).id
}

/// Under distinct identifiers, `slot_index` is the one position carrying
/// `id`.
proof fn lemma_slot_index<C: Core>(s: Seq<CoreSlot<C>>, id: FuncId)
    requires
        slots_distinct(s),
        slots_has(s, id),
    ensures
        0 <= slot_index(s, id) < s.len(),
        s[slot_index(s, id)].id == id,
        forall|k: int| 0 <= k < s.len() && (#[trigger] s[k]).id == id ==> k == slot_index(s, id),
{
    let idx = slot_index(s, id);
    assert(0 <= idx < s.len() && s[idx].id == id);
    assert forall|k: int| 0 <= k < s.len() && (#[trigger] s[k]).id == id implies k == idx by {
        if k < idx {
            assert(s[k].id != s[idx].id);
        } else if idx < k {
            assert(s[idx].id != s[k].id);
        }
    }
}

/// Publishing a load: when a new snapshot pair extends a well-formed
/// engine with one `Loaded` core and exactly its functions, the extended
/// engine is well-formed and every previous registration is untouched.
#[verifier::rlimit(100)]
proof fn lemma_publish_load<C: Core, S: SideEffect>(
    pre: PluginEngine<C, S>,
    post: PluginEngine<C, S>,
    id: FuncId,
    et: ExecutionType,
    fns: Seq<FuncId>,
)
    requires
        pre.wf(),
        post.broadcaster == pre.broadcaster,
        post.cores@.len() == pre.cores@.len() + 1,
        forall|k: int| 0 <= k < pre.cores@.len() ==> #[trigger] post.cores@[k] == pre.cores@[k],
        post.cores@.last().id == id,
        post.cores@.last().state == CoreState::Loaded,
        handle_exports(post.cores@.last().backend) == fns,
        handle_ready(post.cores@.last().backend),
        handle_inv(post.cores@.last().backend),
        !slots_has(pre.cores@, id),
        post.functions.wf(),
        register_post(pre.functions_map(), post.functions_map(), id, et, fns),
    ensures
        post.wf(),
        post.has_core(id),
        post.core_state_of(id) == CoreState::Loaded,
        post.core_exports_of(id) == fns,
        forall|cid: FuncId| #[trigger] post.has_core(cid) <==> (pre.has_core(cid) || cid == id),
        forall|cid: FuncId| #[trigger]
            pre.has_core(cid) ==> post.core_state_of(cid) == pre.core_state_of(cid)
                && post.core_exports_of(cid) == pre.core_exports_of(cid),
{
    let s = post.cores@;
    let n = s.len() - 1;
    assert forall|i: int, j: int| 0 <= i < j < s.len() implies (#[trigger] s[i]).id != (
    #[trigger] s[j]).id by {
        if j < n {
            assert(pre.cores@[i].id != pre.cores@[j].id);
        } else {
            if s[i].id == id {
                assert(slots_has(pre.cores@, id));
            }
        }
    }
    assert(slots_has(s, id)) by {
        assert(s[n].id == id);
    }
    lemma_slot_index(s, id);
    assert(slot_index(s, id) == n);
    assert forall|cid: FuncId| #[trigger] slots_has(pre.cores@, cid) implies slots_has(s, cid)
        && slot_index(s, cid) == slot_index(pre.cores@, cid) && slot_index(pre.cores@, cid)
        < n by {
        lemma_slot_index(pre.cores@, cid);
        let k = slot_index(pre.cores@, cid);
        assert(s[k].id == cid);
        assert(slots_has(s, cid));
        lemma_slot_index(s, cid);
    }
    assert forall|cid: FuncId| #[trigger] slots_has(s, cid) implies (slots_has(pre.cores@, cid)
        || cid == id) by {
        lemma_slot_index(s, cid);
        let k = slot_index(s, cid);
        if k < n {
            assert(pre.cores@[k].id == cid);
        }
    }
    assert forall|f: FuncId| #[trigger] post.functions_map().contains_key(f) implies {
        let owner = post.functions_map()[f].core_id;
        &&& post.functions_map()[f].fn_id == f
        &&& slots_has(s, owner)
        &&& s[slot_index(s, owner)].state == CoreState::Loaded
        &&& handle_exports(s[slot_index(s, owner)].backend).contains(f)
    } by {
        if fns.contains(f) {
            let k = choose|k: int| 0 <= k < fns.len() && #[trigger] fns[k] == f;
            assert(post.functions_map()[fns[k]] == (CoreFunction {
                core_id: id,
                fn_id: fns[k],
                exec_type: et,
            }));
            assert(handle_exports(s[n].backend).contains(f));
        } else {
            assert(pre.functions_map().contains_key(f));
            assert(post.functions_map()[f] == pre.functions_map()[f]);
            let owner = pre.functions_map()[f].core_id;
            assert(slots_has(pre.cores@, owner));
            lemma_slot_index(pre.cores@, owner);
            let k = slot_index(pre.cores@, owner);
            assert(s[k] == pre.cores@[k]);
            assert(slots_has(s, owner));
            lemma_slot_index(s, owner);
            assert(slot_index(s, owner) == k);
        }
    }
    assert forall|i: int, k: int|
        0 <= i < s.len() && (#[trigger] s[i]).state == CoreState::Loaded && 0 <= k
            < handle_exports(s[i].backend).len() implies {
        let f = #[trigger] handle_exports(s[i].backend)[k];
        &&& post.functions_map().contains_key(f)
        &&& post.functions_map()[f].core_id == s[i].id
    } by {
        if i < n {
            let f = handle_exports(pre.cores@[i].backend)[k];
            assert(pre.functions_map().contains_key(f));
            assert(post.functions_map()[f] == pre.functions_map()[f]);
        } else {
            let f = handle_exports(s[n].backend)[k];
            assert(f == fns[k]);
            assert(fns.contains(f));
            assert(post.functions_map()[fns[k]] == (CoreFunction {
                core_id: id,
                fn_id: fns[k],
                exec_type: et,
            }));
        }
    }
    assert forall|cid: FuncId| #[trigger] pre.has_core(cid) implies post.core_state_of(cid)
        == pre.core_state_of(cid) && post.core_exports_of(cid) == pre.core_exports_of(cid) by {
        lemma_slot_index(pre.cores@, cid);
        let k = slot_index(pre.cores@, cid);
        assert(s[k] == pre.cores@[k]);
    }
}

/// The engine: the one owner of the three registries.
pub struct PluginEngine<C: Core, S: SideEffect> {
    cores: Vec<CoreSlot<C>>,
    functions: FunctionRegistry,
    broadcaster: MessageBroadcaster<S>,
}

impl<C: Core, S: SideEffect> PluginEngine<C, S> {
    /// The current routing snapshot, as a mapping.
    pub closed spec fn functions_map(&self) -> Map<FuncId, CoreFunction> {
        self.functions.spec_map()
    }

    /// A core with this identifier is registered.
    pub closed spec fn has_core(&self, id: FuncId) -> bool {
        slots_has(self.cores@, id)
    }

    /// The engine's lifecycle state for the core registered under `id`.
    pub closed spec fn core_state_of(&self, id: FuncId) -> CoreState {
        self.cores@[slot_index(self.cores@, id)].state
    }

    /// The functions exported by the core registered under `id`.
    pub closed spec fn core_exports_of(&self, id: FuncId) -> Seq<FuncId> {
        handle_exports(self.cores@[slot_index(self.cores@, id)].backend)
    }

    /// A listener is registered under `l`.
    pub closed spec fn has_listener(&self, l: FuncId) -> bool {
        self.broadcaster.has_listener(l)
    }

    /// The listener registered under `l` subscribes to topic `t`.
    pub closed spec fn subscribed(&self, l: FuncId, t: FuncId) -> bool {
        self.broadcaster.subscribed(l, t)
    }

    /// The engine's invariant, preserved by every operation and visible to
    /// every reader of a snapshot:
    /// - registries are well-formed and core identifiers unique;
    /// - every core the engine holds is `Loaded` or `Faulted`, its backend
    ///   valid, and a `Loaded` slot's backend accepts calls;
    /// - every routing record points at a registered, `Loaded` core that
    ///   exports the function (no dangling or stale record is ever
    ///   visible);
    /// - every function of every `Loaded` core is routed to that core.
    pub closed spec fn wf(&self) -> bool {
        &&& self.functions.wf()
        &&& self.broadcaster.wf()
        &&& slots_distinct(self.cores@)
        &&& forall|i: int|
            0 <= i < self.cores@.len() ==> handle_inv((#[trigger] self.cores@[i]).backend)
        &&& forall|i: int|
            0 <= i < self.cores@.len() ==> ((#[trigger] self.cores@[i]).state == CoreState::Loaded
                || self.cores@[i].state == CoreState::Faulted)
        &&& forall|i: int|
            0 <= i < self.cores@.len() && (#[trigger] self.cores@[i]).state == CoreState::Loaded
                ==> handle_ready(self.cores@[i].backend)
        &&& forall|f: FuncId| #[trigger]
            self.functions_map().contains_key(f) ==> {
                let owner = self.functions_map()[f].core_id;
                &&& self.functions_map()[f].fn_id == f
                &&& slots_has(self.cores@, owner)
                &&& self.cores@[slot_index(self.cores@, owner)].state == CoreState::Loaded
                &&& handle_exports(self.cores@[slot_index(self.cores@, owner)].backend).contains(f)
            }
        &&& forall|i: int, k: int|
            0 <= i < self.cores@.len() && (#[trigger] self.cores@[i]).state == CoreState::Loaded
                && 0 <= k < handle_exports(self.cores@[i].backend).len() ==> {
                let f = #[trigger] handle_exports(self.cores@[i].backend)[k];
                &&& self.functions_map().contains_key(f)
                &&& self.functions_map()[f].core_id == self.cores@[i].id
            }
    }

    /// A fresh engine: no cores, no routes, no listeners. Each engine
    /// instance owns its registries; independent engines share nothing.
    pub fn new() -> (r: PluginEngine<C, S>)
        ensures
            r.wf(),
            r.functions_map() == Map::<FuncId, CoreFunction>::empty(),
            forall|id: FuncId| !r.has_core(id),
            forall|l: FuncId| !r.has_listener(l),
            forall|l: FuncId, t: FuncId| !r.subscribed(l, t),
    {
        PluginEngine {
            cores: Vec::new(),
            functions: FunctionRegistry::new(),
            broadcaster: MessageBroadcaster::new(),
        }
    }

    /// The position of the slot registered under `id`, if any.
    fn find_core(&self, id: &FuncId) -> (r: Option<usize>)
        ensures
            match r {
                Some(k) => k < self.cores@.len() && self.cores@[k as int].id == *id,
                None => !self.has_core(*id),
            },
    {
        let mut i: usize = 0;
        while i < self.cores.len()
            invariant
                i <= self.cores@.len(),
                forall|k: int| 0 <= k < i ==> (#[trigger] self.cores@[k]).id != *id,
            decreases self.cores@.len() - i,
        {
            if self.cores[i].id == *id {
                return Some(i);
            }
            i = i + 1;
        }
        None
    }

    /// Load a sandboxed core from raw module bytes under the given name:
    /// construct the backend, enumerate its exports, and publish new core
    /// and routing snapshots including it, all-or-nothing. The core's
    /// identifier (returned on success) is the hash of its name; each
    /// export is hashed in the core's namespace. The whole load is
    /// rejected with `Collision` if the core identifier, or any export's
    /// identifier, is already registered, or if the unit's own exports
    /// collide; nothing changes on any error.
    #[verifier::rlimit(100)]
    pub fn load_wasm_core(&mut self, plugin_name: &str, wasm_bytes: &[u8]) -> (r: Result<
        FuncId,
        LoadError,
    >)
        requires
            old(self).wf(),
        ensures
            final(self).wf(),
            forall|l: FuncId| final(self).has_listener(l) == old(self).has_listener(l),
            forall|l: FuncId, t: FuncId| #![auto]
                final(self).subscribed(l, t) == old(self).subscribed(l, t),
            r matches Err(_) ==> *final(self) == *old(self),
            old(self).has_core(
                spec_from_name(plugin_name.spec_bytes(), plugin_name.spec_bytes()),
            ) ==> r == Err::<FuncId, LoadError>(LoadError::Collision),
            r matches Ok(id) ==> {
                &&& id == spec_from_name(plugin_name.spec_bytes(), plugin_name.spec_bytes())
                &&& !old(self).has_core(id)
                &&& final(self).has_core(id)
                &&& final(self).core_state_of(id) == CoreState::Loaded
                &&& forall|cid: FuncId| #[trigger]
                    final(self).has_core(cid) <==> (old(self).has_core(cid) || cid == id)
                &&& forall|cid: FuncId| #[trigger]
                    old(self).has_core(cid) ==> final(self).core_state_of(cid) == old(
                        self,
                    ).core_state_of(cid) && final(self).core_exports_of(cid) == old(
                        self,
                    ).core_exports_of(cid)
                &&& forall|f: FuncId| #[trigger]
                    final(self).functions_map().contains_key(f) <==> (old(
                        self,
                    ).functions_map().contains_key(f) || final(self).core_exports_of(id).contains(
                        f,
                    ))
                &&& forall|f: FuncId| #[trigger]
                    final(self).core_exports_of(id).contains(f) ==> final(self).functions_map()[f]
                        == (CoreFunction { core_id: id, fn_id: f, exec_type: ExecutionType::Wasm })
                        && !old(self).functions_map().contains_key(f)
                &&& forall|f: FuncId| #[trigger]
                    old(self).functions_map().contains_key(f) ==> final(self).functions_map()[f]
                        == old(self).functions_map()[f]
            },
    {
        let id = FuncId::from_name(plugin_name, plugin_name);
        match self.find_core(&id) {
            Some(_) => {
                return Err(LoadError::Collision);
            },
            None => {},
        }
        let core = match SandboxedCore::new(plugin_name, wasm_bytes) {
            Ok(c) => c,
            Err(e) => {
                return Err(e);
            },
        };
        proof {
            assert(core.spec_id() == id);
        }
        let mut core = core;
        match core.load() {
            Ok(()) => {},
            Err(e) => {
                return Err(e);
            },
        }
        let fns = core.get_fn_address_list();
        let new_functions = match self.functions.register(id, ExecutionType::Wasm, &fns) {
            Ok(nf) => nf,
            Err(e) => {
                return Err(e);
            },
        };
        let ghost pre = *self;
        let ghost nf = new_functions;
        self.functions = new_functions;
        self.cores.push(
            CoreSlot { id, state: CoreState::Loaded, backend: BackendHandle::Sandboxed(core) },
        );
        proof {
            let post = self.cores@;
            let n = post.len() - 1;
            assert(pre == *old(self));
            assert forall|k: int| 0 <= k < n implies #[trigger] post[k] == pre.cores@[k] by {}
            assert(handle_exports(post.last().backend) == fns@);
            assert(handle_ready(post.last().backend));
            assert(handle_inv(post.last().backend));
            assert(self.functions == nf);
            assert(register_post(
                pre.functions_map(),
                self.functions_map(),
                id,
                ExecutionType::Wasm,
                fns@,
            ));
            lemma_publish_load::<C, S>(pre, *self, id, ExecutionType::Wasm, fns@);
            assert forall|f: FuncId| #[trigger] self.core_exports_of(id).contains(f)
                implies self.functions_map()[f] == (CoreFunction {
                core_id: id,
                fn_id: f,
                exec_type: ExecutionType::Wasm,
            }) && !old(self).functions_map().contains_key(f) by {
                let k = choose|k: int| 0 <= k < fns@.len() && #[trigger] fns@[k] == f;
                assert(self.functions_map()[fns@[k]] == (CoreFunction {
                    core_id: id,
                    fn_id: fns@[k],
                    exec_type: ExecutionType::Wasm,
                }));
            }
        }
        Ok(id)
    }

    /// Load several sandboxed cores, in order, stopping at the first
    /// failure; cores loaded before the failure stay loaded. On success
    /// every named core is registered and `Loaded`.
    pub fn load_plugins(&mut self, plugins: &Vec<(String, Vec<u8>)>) -> (r: Result<(), LoadError>)
        requires
            old(self).wf(),
        ensures
            final(self).wf(),
            forall|l: FuncId| final(self).has_listener(l) == old(self).has_listener(l),
            forall|l: FuncId, t: FuncId| #![auto]
                final(self).subscribed(l, t) == old(self).subscribed(l, t),
            r is Ok ==> forall|k: int| #![auto]
                0 <= k < plugins@.len() ==> final(self).has_core(
                    spec_from_name(
                        vstd::utf8::encode_utf8(plugins@[k].0@),
                        vstd::utf8::encode_utf8(plugins@[k].0@),
                    ),
                ) && final(self).core_state_of(
                    spec_from_name(
                        vstd::utf8::encode_utf8(plugins@[k].0@),
                        vstd::utf8::encode_utf8(plugins@[k].0@),
                    ),
                ) == CoreState::Loaded,
    {
        let mut i: usize = 0;
        while i < plugins.len()
            invariant
                self.wf(),
                i <= plugins@.len(),
                forall|l: FuncId| self.has_listener(l) == old(self).has_listener(l),
                forall|l: FuncId, t: FuncId| #![auto]
                    self.subscribed(l, t) == old(self).subscribed(l, t),
                forall|k: int| #![auto]
                    0 <= k < i ==> self.has_core(
                        spec_from_name(
                            vstd::utf8::encode_utf8(plugins@[k].0@),
                            vstd::utf8::encode_utf8(plugins@[k].0@),
                        ),
                    ) && self.core_state_of(
                        spec_from_name(
                            vstd::utf8::encode_utf8(plugins@[k].0@),
                            vstd::utf8::encode_utf8(plugins@[k].0@),
                        ),
                    ) == CoreState::Loaded,
            decreases plugins@.len() - i,
        {
            let name = plugins[i].0.as_str();
            let ghost mid = *self;
            match self.load_wasm_core(name, plugins[i].1.as_slice()) {
                Ok(id) => {
                    proof {
                        assert(name.spec_bytes() == vstd::utf8::encode_utf8(
                            plugins@[i as int].0@,
                        ));
                        assert forall|k: int| #![auto] 0 <= k < i + 1 implies self.has_core(
                            spec_from_name(
                                vstd::utf8::encode_utf8(plugins@[k].0@),
                                vstd::utf8::encode_utf8(plugins@[k].0@),
                            ),
                        ) && self.core_state_of(
                            spec_from_name(
                                vstd::utf8::encode_utf8(plugins@[k].0@),
                                vstd::utf8::encode_utf8(plugins@[k].0@),
                            ),
                        ) == CoreState::Loaded by {
                            let h = spec_from_name(
                                vstd::utf8::encode_utf8(plugins@[k].0@),
                                vstd::utf8::encode_utf8(plugins@[k].0@),
                            );
                            if k < i {
                                assert(mid.has_core(h));
                                assert(self.has_core(h));
                                assert(mid.core_state_of(h) == self.core_state_of(h));
                            } else {
                                assert(h == id);
                            }
                        }
                    }
                },
                Err(e) => {
                    return Err(e);
                },
            }
            i = i + 1;
        }
        Ok(())
    }

    /// Load an embedder-supplied backend (such as a native dynamic
    /// library opened outside this library) under its own identifier:
    /// initialize it, enumerate its exports, and publish new core and
    /// routing snapshots including it, all-or-nothing. Rejected with
    /// `Collision` if its identifier or any export identifier is already
    /// registered; nothing changes on any error.
    pub fn load_external_core(&mut self, core: C) -> (r: Result<FuncId, LoadError>)
        requires
            old(self).wf(),
            core.fresh(),
            core.inv(),
        ensures
            final(self).wf(),
            forall|l: FuncId| final(self).has_listener(l) == old(self).has_listener(l),
            forall|l: FuncId, t: FuncId| #![auto]
                final(self).subscribed(l, t) == old(self).subscribed(l, t),
            r matches Err(_) ==> *final(self) == *old(self),
            old(self).has_core(core.spec_id()) ==> r == Err::<FuncId, LoadError>(
                LoadError::Collision,
            ),
            r matches Ok(id) ==> {
                &&& id == core.spec_id()
                &&& !old(self).has_core(id)
                &&& final(self).has_core(id)
                &&& final(self).core_state_of(id) == CoreState::Loaded
                &&& forall|cid: FuncId| #[trigger]
                    final(self).has_core(cid) <==> (old(self).has_core(cid) || cid == id)
                &&& forall|cid: FuncId| #[trigger]
                    old(self).has_core(cid) ==> final(self).core_state_of(cid) == old(
                        self,
                    ).core_state_of(cid) && final(self).core_exports_of(cid) == old(
                        self,
                    ).core_exports_of(cid)
                &&& register_post(
                    old(self).functions_map(),
                    final(self).functions_map(),
                    id,
                    ExecutionType::DynLib,
                    final(self).core_exports_of(id),
                )
            },
    {
        let mut core = core;
        let id = core.core_id();
        match self.find_core(&id) {
            Some(_) => {
                return Err(LoadError::Collision);
            },
            None => {},
        }
        match core.load() {
            Ok(()) => {},
            Err(e) => {
                return Err(e);
            },
        }
        let fns = core.get_fn_address_list();
        let new_functions = match self.functions.register(id, ExecutionType::DynLib, &fns) {
            Ok(nf) => nf,
            Err(e) => {
                return Err(e);
            },
        };
        let ghost pre = *self;
        let ghost nf = new_functions;
        self.functions = new_functions;
        self.cores.push(
            CoreSlot { id, state: CoreState::Loaded, backend: BackendHandle::External(core) },
        );
        proof {
            let post = self.cores@;
            let n = post.len() - 1;
            assert(pre == *old(self));
            assert forall|k: int| 0 <= k < n implies #[trigger] post[k] == pre.cores@[k] by {}
            assert(handle_exports(post.last().backend) == fns@);
            assert(handle_ready(post.last().backend));
            assert(handle_inv(post.last().backend));
            assert(self.functions == nf);
            assert(register_post(
                pre.functions_map(),
                self.functions_map(),
                id,
                ExecutionType::DynLib,
                fns@,
            ));
            lemma_publish_load::<C, S>(pre, *self, id, ExecutionType::DynLib, fns@);
        }
        Ok(id)
    }

    /// Dispatch one call to the core registered under `core_id`: resolve
    /// the slot, refuse if it is not `Loaded`, invoke the backend, and on
    /// a faulting error atomically publish the core as `Faulted` with all
    /// of its routing records purged.
    fn dispatch(&mut self, core_id: &FuncId, fn_id: &FuncId, message: &[u8]) -> (r: Result<
        Response,
        InvokeError,
    >)
        requires
            old(self).wf(),
        ensures
            final(self).wf(),
            forall|l: FuncId| final(self).has_listener(l) == old(self).has_listener(l),
            forall|l: FuncId, t: FuncId| #![auto]
                final(self).subscribed(l, t) == old(self).subscribed(l, t),
            forall|cid: FuncId| #[trigger] final(self).has_core(cid) == old(self).has_core(cid),
            forall|cid: FuncId| #[trigger]
                old(self).has_core(cid) ==> final(self).core_exports_of(cid) == old(
                    self,
                ).core_exports_of(cid) && (cid != *core_id ==> final(self).core_state_of(cid)
                    == old(self).core_state_of(cid)),
            !old(self).has_core(*core_id) ==> r == Err::<Response, InvokeError>(
                InvokeError::NotFound,
            ) && *final(self) == *old(self),
            old(self).has_core(*core_id) && old(self).core_state_of(*core_id)
                != CoreState::Loaded ==> r == Err::<Response, InvokeError>(
                InvokeError::Unavailable,
            ) && *final(self) == *old(self),
            old(self).has_core(*core_id) && old(self).core_state_of(*core_id)
                == CoreState::Loaded ==> {
                &&& (old(self).core_exports_of(*core_id).contains(*fn_id) ==> !(r == Err::<
                    Response,
                    InvokeError,
                >(InvokeError::NotFound)) && !(r == Err::<Response, InvokeError>(
                    InvokeError::Unavailable,
                )))
                &&& ((r matches Err(e) && is_fault(e)) ==> final(self).core_state_of(*core_id)
                    == CoreState::Faulted && remove_post(
                    old(self).functions_map(),
                    final(self).functions_map(),
                    *core_id,
                ))
                &&& (!(r matches Err(e) && is_fault(e)) ==> final(self).functions_map() == old(
                    self,
                ).functions_map() && (forall|cid: FuncId| #[trigger]
                    old(self).has_core(cid) ==> final(self).core_state_of(cid) == old(
                        self,
                    ).core_state_of(cid)))
            },
    {
        let idx = match self.find_core(core_id) {
            Some(i) => i,
            None => {
                return Err(InvokeError::NotFound);
            },
        };
        let ghost pre = *self;
        proof {
            assert(slots_has(pre.cores@, *core_id)) by {
                assert(pre.cores@[idx as int].id == *core_id);
            }
            lemma_slot_index(pre.cores@, *core_id);
            assert(slot_index(pre.cores@, *core_id) == idx as int);
        }
        if !(self.cores[idx].state == CoreState::Loaded) {
            return Err(InvokeError::Unavailable);
        }
        proof {
            assert(handle_inv(pre.cores@[idx as int].backend));
            assert(handle_ready(pre.cores@[idx as int].backend));
        }
        let slot = &mut self.cores[idx];
        let res = match &mut slot.backend {
            BackendHandle::Sandboxed(sc) => sc.invoke(fn_id, message),
            BackendHandle::External(c) => c.call_function(fn_id, message),
        };
        let faulted = match &res {
            Err(e) => is_fault_err(e),
            Ok(_) => false,
        };
        if faulted {
            slot.state = CoreState::Faulted;
        }
        if faulted {
            let nf = self.functions.remove_core(*core_id);
            self.functions = nf;
        }
        proof {
            assert(self.cores@.len() == pre.cores@.len());
            assert forall|k: int| 0 <= k < pre.cores@.len() && k != idx as int
                implies #[trigger] self.cores@[k] == pre.cores@[k] by {}
            assert(self.cores@[idx as int].id == *core_id);
            assert(handle_exports(self.cores@[idx as int].backend) == handle_exports(
                pre.cores@[idx as int].backend,
            ));
            assert(handle_inv(self.cores@[idx as int].backend));
            lemma_publish_update::<C, S>(pre, *self, idx as int, faulted);
            assert(pre == *old(self));
            assert forall|cid: FuncId| #[trigger] self.has_core(cid) == old(self).has_core(
                cid,
            ) by {
                assert(self.has_core(cid) == pre.has_core(cid));
            }
        }
        res
    }

    /// Invoke: resolve the function identifier against the current
    /// routing snapshot, dispatch to the owning core, and on success hand
    /// the message to the broadcaster under the function's identifier as
    /// topic. An unknown identifier is refused with `NotFound` and
    /// changes nothing; a registered identifier is dispatched to its
    /// owning core, which the routing invariant guarantees is `Loaded`.
    /// The call's result is fixed before the broadcaster runs; no listener
    /// outcome reaches it.
    pub fn call_function(&mut self, fn_id: &FuncId, message: &[u8]) -> (r: Result<
        Response,
        InvokeError,
    >)
        requires
            old(self).wf(),
        ensures
            final(self).wf(),
            forall|l: FuncId| final(self).has_listener(l) == old(self).has_listener(l),
            forall|l: FuncId, t: FuncId| #![auto]
                final(self).subscribed(l, t) == old(self).subscribed(l, t),
            forall|cid: FuncId| #[trigger] final(self).has_core(cid) == old(self).has_core(cid),
            forall|cid: FuncId| #[trigger]
                old(self).has_core(cid) ==> final(self).core_exports_of(cid) == old(
                    self,
                ).core_exports_of(cid),
            !old(self).functions_map().contains_key(*fn_id) ==> r == Err::<Response, InvokeError>(
                InvokeError::NotFound,
            ) && *final(self) == *old(self),
            old(self).functions_map().contains_key(*fn_id) ==> {
                let owner = old(self).functions_map()[*fn_id].core_id;
                &&& old(self).has_core(owner)
                &&& old(self).core_state_of(owner) == CoreState::Loaded
                &&& !(r == Err::<Response, InvokeError>(InvokeError::NotFound))
                &&& !(r == Err::<Response, InvokeError>(InvokeError::Unavailable))
                &&& ((r matches Err(e) && is_fault(e)) ==> final(self).core_state_of(owner)
                    == CoreState::Faulted && remove_post(
                    old(self).functions_map(),
                    final(self).functions_map(),
                    owner,
                ))
                &&& (!(r matches Err(e) && is_fault(e)) ==> final(self).functions_map() == old(
                    self,
                ).functions_map())
            },
    {
        let entry = match self.functions.lookup(fn_id) {
            Some(cf) => cf,
            None => {
                return Err(InvokeError::NotFound);
            },
        };
        proof {
            assert(self.functions_map().contains_key(*fn_id));
            assert(handle_exports(
                self.cores@[slot_index(self.cores@, entry.core_id)].backend,
            ).contains(*fn_id));
        }
        let res = self.dispatch(&entry.core_id, fn_id, message);
        let ghost mid = *self;
        if res.is_ok() {
            let _outcomes = self.broadcaster.broadcast(fn_id, message);
        }
        proof {
            assert(self.cores@ == mid.cores@);
            assert(self.functions == mid.functions);
            assert(self.functions_map() == mid.functions_map());
            assert forall|cid: FuncId| #[trigger] self.has_core(cid) == old(self).has_core(
                cid,
            ) by {
                assert(self.has_core(cid) == mid.has_core(cid));
                assert(mid.has_core(cid) == old(self).has_core(cid));
            }
            assert forall|cid: FuncId| #[trigger] old(self).has_core(cid) implies self
                .core_exports_of(cid) == old(self).core_exports_of(cid) by {
                assert(self.core_exports_of(cid) == mid.core_exports_of(cid));
                assert(mid.core_exports_of(cid) == old(self).core_exports_of(cid));
            }
            let owner = old(self).functions_map()[*fn_id].core_id;
            assert(self.core_state_of(owner) == mid.core_state_of(owner));
            assert(self.wf()) by {
                assert(mid.wf());
                assert(self.broadcaster.wf());
            }
        }
        res
    }

    /// Send one message to a registered function and discard the
    /// response: the fire-and-forget capability. There is no reply
    /// channel; an unknown identifier, or any failure of the call, is
    /// swallowed. A faulting call still isolates the offending core
    /// exactly as `call_function` would.
    pub fn fire_and_forget(&mut self, fn_id: &FuncId, message: &[u8])
        requires
            old(self).wf(),
        ensures
            final(self).wf(),
            forall|l: FuncId| final(self).has_listener(l) == old(self).has_listener(l),
            forall|l: FuncId, t: FuncId| #![auto]
                final(self).subscribed(l, t) == old(self).subscribed(l, t),
            forall|cid: FuncId| #[trigger] final(self).has_core(cid) == old(self).has_core(cid),
            !old(self).functions_map().contains_key(*fn_id) ==> *final(self) == *old(self),
            old(self).functions_map().contains_key(*fn_id) ==> {
                let owner = old(self).functions_map()[*fn_id].core_id;
                &&& old(self).has_core(owner)
                &&& old(self).core_state_of(owner) == CoreState::Loaded
                &&& ((final(self).functions_map() == old(self).functions_map() && (forall|
                    cid: FuncId,
                | #[trigger]
                    old(self).has_core(cid) ==> final(self).core_state_of(cid) == old(
                        self,
                    ).core_state_of(cid))) || (final(self).core_state_of(owner)
                    == CoreState::Faulted && remove_post(
                    old(self).functions_map(),
                    final(self).functions_map(),
                    owner,
                )))
            },
    {
        let entry = match self.functions.lookup(fn_id) {
            Some(cf) => cf,
            None => {
                return ;
            },
        };
        proof {
            assert(self.functions_map().contains_key(*fn_id));
        }
        let _ = self.dispatch(&entry.core_id, fn_id, message);
    }

    /// Unload a core: shut its backend down, remove it, and purge every
    /// routing record it owned, publishing both removals together, so no
    /// window exists in which a dangling record is visible. Idempotent:
    /// unknown identifiers are a no-op, and unloading never fails.
    pub fn unload_core(&mut self, core_id: &FuncId)
        requires
            old(self).wf(),
        ensures
            final(self).wf(),
            forall|l: FuncId| final(self).has_listener(l) == old(self).has_listener(l),
            forall|l: FuncId, t: FuncId| #![auto]
                final(self).subscribed(l, t) == old(self).subscribed(l, t),
            forall|cid: FuncId| #[trigger]
                final(self).has_core(cid) <==> (old(self).has_core(cid) && cid != *core_id),
            forall|cid: FuncId| #[trigger]
                old(self).has_core(cid) && cid != *core_id ==> final(self).core_state_of(cid)
                    == old(self).core_state_of(cid) && final(self).core_exports_of(cid) == old(
                    self,
                ).core_exports_of(cid),
            remove_post(old(self).functions_map(), final(self).functions_map(), *core_id),
    {
        let idx = match self.find_core(core_id) {
            Some(i) => i,
            None => {
                proof {
                    assert forall|f: FuncId| #[trigger] self.functions_map().contains_key(f)
                        implies self.functions_map()[f].core_id != *core_id by {
                        let owner = self.functions_map()[f].core_id;
                        if owner == *core_id {
                            assert(slots_has(self.cores@, *core_id));
                        }
                    }
                }
                return ;
            },
        };
        let ghost pre = *self;
        proof {
            assert(slots_has(pre.cores@, *core_id)) by {
                assert(pre.cores@[idx as int].id == *core_id);
            }
            lemma_slot_index(pre.cores@, *core_id);
            assert(slot_index(pre.cores@, *core_id) == idx as int);
            assert(handle_inv(pre.cores@[idx as int].backend));
        }
        let mut slot = self.cores.remove(idx);
        match &mut slot.backend {
            BackendHandle::Sandboxed(sc) => sc.stop(),
            BackendHandle::External(c) => c.shutdown(),
        }
        let nf = self.functions.remove_core(*core_id);
        self.functions = nf;
        proof {
            assert(self.cores@ == pre.cores@.remove(idx as int));
            lemma_publish_remove::<C, S>(pre, *self, idx as int);
        }
    }

    /// The functions exported by the core registered under `core_id`:
    /// `None` exactly when no such core is registered.
    pub fn exported_functions(&self, core_id: &FuncId) -> (r: Option<Vec<FuncId>>)
        requires
            self.wf(),
        ensures
            match r {
                Some(v) => self.has_core(*core_id) && v@ == self.core_exports_of(*core_id),
                None => !self.has_core(*core_id),
            },
    {
        let idx = match self.find_core(core_id) {
            Some(i) => i,
            None => {
                return None;
            },
        };
        proof {
            assert(slots_has(self.cores@, *core_id)) by {
                assert(self.cores@[idx as int].id == *core_id);
            }
            lemma_slot_index(self.cores@, *core_id);
            assert(slot_index(self.cores@, *core_id) == idx as int);
        }
        match &self.cores[idx].backend {
            BackendHandle::Sandboxed(sc) => Some(sc.get_fn_address_list()),
            BackendHandle::External(c) => Some(c.get_fn_address_list()),
        }
    }

    /// Register a listener under its own identifier with the given
    /// subscription set, replacing any previous registration under that
    /// identifier. Registration touches only the listener registry.
    pub fn register_side_effect(&mut self, topics: Vec<FuncId>, handler: S)
        requires
            old(self).wf(),
        ensures
            final(self).wf(),
            final(self).functions_map() == old(self).functions_map(),
            forall|cid: FuncId| #[trigger] final(self).has_core(cid) == old(self).has_core(cid),
            forall|cid: FuncId| #[trigger]
                old(self).has_core(cid) ==> final(self).core_state_of(cid) == old(
                    self,
                ).core_state_of(cid) && final(self).core_exports_of(cid) == old(
                    self,
                ).core_exports_of(cid),
            forall|l: FuncId| final(self).has_listener(l) <==> (old(self).has_listener(l) || l
                == handler.spec_id()),
            forall|l: FuncId, t: FuncId| #![auto]
                final(self).subscribed(l, t) <==> (if l == handler.spec_id() {
                    topics@.contains(t)
                } else {
                    old(self).subscribed(l, t)
                }),
    {
        self.broadcaster.register_side_effect(topics, handler);
    }

    /// Remove the listener registered under `id`, if any; a no-op
    /// otherwise.
    pub fn unregister_side_effect(&mut self, id: &FuncId)
        requires
            old(self).wf(),
        ensures
            final(self).wf(),
            final(self).functions_map() == old(self).functions_map(),
            forall|cid: FuncId| #[trigger] final(self).has_core(cid) == old(self).has_core(cid),
            forall|cid: FuncId| #[trigger]
                old(self).has_core(cid) ==> final(self).core_state_of(cid) == old(
                    self,
                ).core_state_of(cid) && final(self).core_exports_of(cid) == old(
                    self,
                ).core_exports_of(cid),
            forall|l: FuncId| final(self).has_listener(l) <==> (old(self).has_listener(l) && l
                != *id),
            forall|l: FuncId, t: FuncId| #![auto]
                final(self).subscribed(l, t) <==> (old(self).subscribed(l, t) && l != *id),
    {
        self.broadcaster.unregister_side_effect(id);
    }
}

/// Whether an invocation error is of the fault class.
fn is_fault_err(e: &InvokeError) -> (r: bool)
    ensures
        r == is_fault(*e),
{
    *e == InvokeError::MemoryFault || *e == InvokeError::AllocationFailure || *e
        == InvokeError::BackendTrap
}

impl CoreFunction {
    /// Call this routing record's function on its core directly, without
    /// consulting the routing snapshot: `NotFound` if the core is gone,
    /// `Unavailable` if it is registered but not `Loaded`. No broadcast
    /// follows a direct call.
    pub fn call<C: Core, S: SideEffect>(
        &self,
        engine: &mut PluginEngine<C, S>,
        message: &[u8],
    ) -> (r: Result<Response, InvokeError>)
        requires
            old(engine).wf(),
        ensures
            final(engine).wf(),
            forall|l: FuncId| final(engine).has_listener(l) == old(engine).has_listener(l),
            forall|l: FuncId, t: FuncId| #![auto]
                final(engine).subscribed(l, t) == old(engine).subscribed(l, t),
            forall|cid: FuncId| #[trigger]
                final(engine).has_core(cid) == old(engine).has_core(cid),
            !old(engine).has_core(self.core_id) ==> r == Err::<Response, InvokeError>(
                InvokeError::NotFound,
            ) && *final(engine) == *old(engine),
            old(engine).has_core(self.core_id) && old(engine).core_state_of(self.core_id)
                != CoreState::Loaded ==> r == Err::<Response, InvokeError>(
                InvokeError::Unavailable,
            ) && *final(engine) == *old(engine),
            old(engine).has_core(self.core_id) && old(engine).core_state_of(self.core_id)
                == CoreState::Loaded ==> {
                &&& (old(engine).core_exports_of(self.core_id).contains(self.fn_id) ==> !(r
                    == Err::<Response, InvokeError>(InvokeError::NotFound)) && !(r == Err::<
                    Response,
                    InvokeError,
                >(InvokeError::Unavailable)))
                &&& ((r matches Err(e) && is_fault(e)) ==> final(engine).core_state_of(
                    self.core_id,
                ) == CoreState::Faulted && remove_post(
                    old(engine).functions_map(),
                    final(engine).functions_map(),
                    self.core_id,
                ))
                &&& (!(r matches Err(e) && is_fault(e)) ==> final(engine).functions_map() == old(
                    engine,
                ).functions_map() && (forall|cid: FuncId| #[trigger]
                    old(engine).has_core(cid) ==> final(engine).core_state_of(cid) == old(
                        engine,
                    ).core_state_of(cid)))
            },
    {
        engine.dispatch(&self.core_id, &self.fn_id, message)
    }
}

/// Pure lookup of a routing record in the engine's current snapshot.
pub fn lazy_load_core_function<C: Core, S: SideEffect>(
    engine: &PluginEngine<C, S>,
    fn_id: &FuncId,
) -> (r: Option<CoreFunction>)
    requires
        engine.wf(),
    ensures
        match r {
            Some(cf) => engine.functions_map().contains_key(*fn_id) && cf
                == engine.functions_map()[*fn_id],
            None => !engine.functions_map().contains_key(*fn_id),
        },
{
    engine.functions.lookup(fn_id)
}

/// Publishing a dispatch outcome: replacing one slot's backend with one
/// of equal identifier and exports keeps the engine well-formed, whether
/// the routing snapshot is untouched (no fault) or the slot is `Faulted`
/// and its records purged together.
#[verifier::rlimit(100)]
proof fn lemma_publish_update<C: Core, S: SideEffect>(
    pre: PluginEngine<C, S>,
    post: PluginEngine<C, S>,
    idx: int,
    faulted: bool,
)
    requires
        pre.wf(),
        0 <= idx < pre.cores@.len(),
        post.broadcaster == pre.broadcaster,
        post.cores@.len() == pre.cores@.len(),
        forall|k: int|
            0 <= k < pre.cores@.len() && k != idx ==> #[trigger] post.cores@[k] == pre.cores@[k],
        post.cores@[idx].id == pre.cores@[idx].id,
        handle_exports(post.cores@[idx].backend) == handle_exports(pre.cores@[idx].backend),
        handle_inv(post.cores@[idx].backend),
        faulted ==> post.cores@[idx].state == CoreState::Faulted && post.functions.wf()
            && remove_post(pre.functions_map(), post.functions_map(), pre.cores@[idx].id),
        !faulted ==> post.cores@[idx].state == pre.cores@[idx].state && (post.cores@[idx].state
            == CoreState::Loaded ==> handle_ready(post.cores@[idx].backend)) && post.functions
            == pre.functions,
    ensures
        post.wf(),
        forall|cid: FuncId| #[trigger] post.has_core(cid) == pre.has_core(cid),
        forall|cid: FuncId| #[trigger]
            pre.has_core(cid) ==> post.core_exports_of(cid) == pre.core_exports_of(cid) && (cid
                != pre.cores@[idx].id ==> post.core_state_of(cid) == pre.core_state_of(cid)),
        post.core_state_of(pre.cores@[idx].id) == post.cores@[idx].state,
{
    let s = post.cores@;
    let p = pre.cores@;
    let cid0 = p[idx].id;
    assert forall|k: int| 0 <= k < s.len() implies (#[trigger] s[k]).id == p[k].id by {}
    assert forall|i: int, j: int| 0 <= i < j < s.len() implies (#[trigger] s[i]).id != (
    #[trigger] s[j]).id by {
        assert(p[i].id != p[j].id);
    }
    assert forall|cid: FuncId| #[trigger] slots_has(s, cid) == slots_has(p, cid) by {
        if slots_has(s, cid) {
            let k = choose|k: int| 0 <= k < s.len() && (#[trigger] s[k]).id == cid;
            assert(p[k].id == cid);
        }
        if slots_has(p, cid) {
            let k = choose|k: int| 0 <= k < p.len() && (#[trigger] p[k]).id == cid;
            assert(s[k].id == cid);
        }
    }
    assert forall|cid: FuncId| #[trigger] slots_has(p, cid) implies slot_index(s, cid)
        == slot_index(p, cid) by {
        lemma_slot_index(p, cid);
        let k = slot_index(p, cid);
        assert(s[k].id == cid);
        lemma_slot_index(s, cid);
    }
    assert(slots_has(p, cid0)) by {
        assert(p[idx].id == cid0);
    }
    lemma_slot_index(p, cid0);
    assert(slot_index(p, cid0) == idx);
    if faulted {
        assert forall|f: FuncId| #[trigger] post.functions_map().contains_key(f) implies {
            let owner = post.functions_map()[f].core_id;
            &&& post.functions_map()[f].fn_id == f
            &&& slots_has(s, owner)
            &&& s[slot_index(s, owner)].state == CoreState::Loaded
            &&& handle_exports(s[slot_index(s, owner)].backend).contains(f)
        } by {
            assert(pre.functions_map().contains_key(f));
            assert(post.functions_map()[f] == pre.functions_map()[f]);
            let owner = pre.functions_map()[f].core_id;
            assert(owner != cid0);
            lemma_slot_index(p, owner);
            let k = slot_index(p, owner);
            assert(k != idx);
            assert(s[k] == p[k]);
        }
        assert forall|i: int, k: int|
            0 <= i < s.len() && (#[trigger] s[i]).state == CoreState::Loaded && 0 <= k
                < handle_exports(s[i].backend).len() implies {
            let f = #[trigger] handle_exports(s[i].backend)[k];
            &&& post.functions_map().contains_key(f)
            &&& post.functions_map()[f].core_id == s[i].id
        } by {
            assert(i != idx);
            assert(s[i] == p[i]);
            let f = handle_exports(p[i].backend)[k];
            assert(pre.functions_map().contains_key(f));
            assert(pre.functions_map()[f].core_id == p[i].id);
            assert(p[i].id != cid0);
            assert(post.functions_map().contains_key(f));
            assert(post.functions_map()[f] == pre.functions_map()[f]);
        }
    } else {
        assert(post.functions_map() == pre.functions_map());
        assert forall|f: FuncId| #[trigger] post.functions_map().contains_key(f) implies {
            let owner = post.functions_map()[f].core_id;
            &&& post.functions_map()[f].fn_id == f
            &&& slots_has(s, owner)
            &&& s[slot_index(s, owner)].state == CoreState::Loaded
            &&& handle_exports(s[slot_index(s, owner)].backend).contains(f)
        } by {
            let owner = pre.functions_map()[f].core_id;
            lemma_slot_index(p, owner);
            let k = slot_index(p, owner);
            if k != idx {
                assert(s[k] == p[k]);
            }
        }
        assert forall|i: int, k: int|
            0 <= i < s.len() && (#[trigger] s[i]).state == CoreState::Loaded && 0 <= k
                < handle_exports(s[i].backend).len() implies {
            let f = #[trigger] handle_exports(s[i].backend)[k];
            &&& post.functions_map().contains_key(f)
            &&& post.functions_map()[f].core_id == s[i].id
        } by {
            if i != idx {
                assert(s[i] == p[i]);
            } else {
                assert(s[i].id == p[i].id);
                assert(p[i].state == CoreState::Loaded);
                let f = handle_exports(p[i].backend)[k];
                assert(pre.functions_map().contains_key(f));
            }
        }
    }
    assert forall|cid: FuncId| #[trigger] pre.has_core(cid) implies post.core_exports_of(cid)
        == pre.core_exports_of(cid) && (cid != cid0 ==> post.core_state_of(cid)
        == pre.core_state_of(cid)) by {
        lemma_slot_index(p, cid);
        let k = slot_index(p, cid);
        if k != idx {
            assert(s[k] == p[k]);
        }
    }
}

/// Publishing an unload: removing one slot together with every routing
/// record it owned keeps the engine well-formed and every other core's
/// registration untouched.
#[verifier::rlimit(100)]
proof fn lemma_publish_remove<C: Core, S: SideEffect>(
    pre: PluginEngine<C, S>,
    post: PluginEngine<C, S>,
    idx: int,
)
    requires
        pre.wf(),
        0 <= idx < pre.cores@.len(),
        post.broadcaster == pre.broadcaster,
        post.cores@ == pre.cores@.remove(idx),
        post.functions.wf(),
        remove_post(pre.functions_map(), post.functions_map(), pre.cores@[idx].id),
    ensures
        post.wf(),
        forall|cid: FuncId| #[trigger]
            post.has_core(cid) <==> (pre.has_core(cid) && cid != pre.cores@[idx].id),
        forall|cid: FuncId| #[trigger]
            pre.has_core(cid) && cid != pre.cores@[idx].id ==> post.core_state_of(cid)
                == pre.core_state_of(cid) && post.core_exports_of(cid) == pre.core_exports_of(
                cid,
            ),
{
    let s = post.cores@;
    let p = pre.cores@;
    let cid0 = p[idx].id;
    assert forall|k: int| 0 <= k < s.len() implies #[trigger] s[k] == (if k < idx {
        p[k]
    } else {
        p[k + 1]
    }) by {}
    assert forall|i: int, j: int| 0 <= i < j < s.len() implies (#[trigger] s[i]).id != (
    #[trigger] s[j]).id by {
        if j < idx {
            assert(p[i].id != p[j].id);
        } else if i < idx {
            assert(p[i].id != p[j + 1].id);
        } else {
            assert(p[i + 1].id != p[j + 1].id);
        }
    }
    assert forall|cid: FuncId| #[trigger] slots_has(s, cid) implies (slots_has(p, cid) && cid
        != cid0) by {
        let k = choose|k: int| 0 <= k < s.len() && (#[trigger] s[k]).id == cid;
        if k < idx {
            assert(p[k].id == cid);
            assert(k != idx);
            if cid == cid0 {
                assert(p[k].id == p[idx].id);
                assert(false);
            }
        } else {
            assert(p[k + 1].id == cid);
            if cid == cid0 {
                assert(p[k + 1].id == p[idx].id);
                assert(false);
            }
        }
    }
    assert forall|cid: FuncId| (#[trigger] slots_has(p, cid) && cid != cid0) implies slots_has(
        s,
        cid,
    ) by {
        lemma_slot_index(p, cid);
        let k = slot_index(p, cid);
        assert(k != idx);
        if k < idx {
            assert(s[k].id == cid);
        } else {
            assert(s[k - 1].id == cid);
        }
    }
    assert forall|cid: FuncId| #[trigger] slots_has(s, cid) implies s[slot_index(s, cid)] == p[
    slot_index(p, cid)] by {
        lemma_slot_index(s, cid);
        lemma_slot_index(p, cid);
        let k = slot_index(p, cid);
        assert(k != idx);
        if k < idx {
            assert(s[k].id == cid);
            assert(slot_index(s, cid) == k);
        } else {
            assert(s[k - 1].id == cid);
            assert(slot_index(s, cid) == k - 1);
        }
    }
    assert forall|f: FuncId| #[trigger] post.functions_map().contains_key(f) implies {
        let owner = post.functions_map()[f].core_id;
        &&& post.functions_map()[f].fn_id == f
        &&& slots_has(s, owner)
        &&& s[slot_index(s, owner)].state == CoreState::Loaded
        &&& handle_exports(s[slot_index(s, owner)].backend).contains(f)
    } by {
        assert(pre.functions_map().contains_key(f));
        assert(post.functions_map()[f] == pre.functions_map()[f]);
        let owner = pre.functions_map()[f].core_id;
        assert(owner != cid0);
        assert(slots_has(p, owner));
        assert(slots_has(s, owner));
    }
    assert forall|i: int, k: int|
        0 <= i < s.len() && (#[trigger] s[i]).state == CoreState::Loaded && 0 <= k
            < handle_exports(s[i].backend).len() implies {
        let f = #[trigger] handle_exports(s[i].backend)[k];
        &&& post.functions_map().contains_key(f)
        &&& post.functions_map()[f].core_id == s[i].id
    } by {
        let j = if i < idx { i } else { i + 1 };
        assert(s[i] == p[j]);
        let f = handle_exports(p[j].backend)[k];
        assert(pre.functions_map().contains_key(f));
        assert(pre.functions_map()[f].core_id == p[j].id);
        assert(j != idx);
        assert(p[j].id != cid0);
        assert(post.functions_map().contains_key(f));
        assert(post.functions_map()[f] == pre.functions_map()[f]);
    }
    assert forall|cid: FuncId| #[trigger] pre.has_core(cid) && cid != cid0
        implies post.core_state_of(cid) == pre.core_state_of(cid) && post.core_exports_of(cid)
        == pre.core_exports_of(cid) by {
        assert(slots_has(s, cid));
        assert(s[slot_index(s, cid)] == p[slot_index(p, cid)]);
    }
}

/// After a successful load, a `Loaded` core's exported set is exactly
/// what the routing snapshot resolves to that core: every export is
/// registered to it, and every record owned by it is one of its exports.
/// Calling any identifier outside every loaded core's exports therefore
/// finds no record and is refused with `NotFound`.
pub proof fn lemma_exports_route_exactly<C: Core, S: SideEffect>(
    e: &PluginEngine<C, S>,
    core_id: FuncId,
)
    requires
        e.wf(),
        e.has_core(core_id),
        e.core_state_of(core_id) == CoreState::Loaded,
    ensures
        forall|f: FuncId| #[trigger]
            e.core_exports_of(core_id).contains(f) ==> e.functions_map().contains_key(f)
                && e.functions_map()[f].core_id == core_id,
        forall|f: FuncId| #[trigger]
            e.functions_map().contains_key(f) && e.functions_map()[f].core_id == core_id
                ==> e.core_exports_of(core_id).contains(f),
{
    lemma_slot_index(e.cores@, core_id);
    let i = slot_index(e.cores@, core_id);
    assert forall|f: FuncId| #[trigger] e.core_exports_of(core_id).contains(f)
        implies e.functions_map().contains_key(f) && e.functions_map()[f].core_id == core_id by {
        let k = choose|k: int|
            0 <= k < handle_exports(e.cores@[i].backend).len() && #[trigger] handle_exports(
                e.cores@[i].backend,
            )[k] == f;
        assert(e.functions_map().contains_key(handle_exports(e.cores@[i].backend)[k]));
    }
}

/// Every routing record an engine snapshot holds points at a registered
/// core in the `Loaded` state that exports the function: a reader of one
/// snapshot can never observe a record whose core is absent, unloaded or
/// faulted.
pub proof fn lemma_records_point_at_loaded_cores<C: Core, S: SideEffect>(
    e: &PluginEngine<C, S>,
    f: FuncId,
)
    requires
        e.wf(),
        e.functions_map().contains_key(f),
    ensures
        e.functions_map()[f].fn_id == f,
        e.has_core(e.functions_map()[f].core_id),
        e.core_state_of(e.functions_map()[f].core_id) == CoreState::Loaded,
        e.core_exports_of(e.functions_map()[f].core_id).contains(f),
{
}

/// After a core is removed, nothing resolves to it: every identifier it
/// owned is out of the published routing snapshot, so a later call
/// returns `NotFound` rather than a stale success.
pub proof fn lemma_removed_core_unroutable(
    pre: Map<FuncId, CoreFunction>,
    post: Map<FuncId, CoreFunction>,
    core_id: FuncId,
)
    requires
        remove_post(pre, post, core_id),
    ensures
        forall|f: FuncId| #[trigger]
            pre.contains_key(f) && pre[f].core_id == core_id ==> !post.contains_key(f),
{
}

} // verus!
