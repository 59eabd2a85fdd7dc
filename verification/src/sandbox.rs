//! The sandboxed backend: a bytecode module run by the embedded virtual
//! machine, behind the engine's uniform invocation interface.
//!
//! Execution of sandboxed code is delegated to the virtual machine; this
//! module confines every call into it to a small set of trusted wrappers.
//! All pointer arithmetic of the memory bridge stays in verified code:
//! every copy into or out of the module's linear memory is bounds-checked
//! against the memory's current length before the wrapper that touches
//! memory may be called.
//!
//! Calling convention with a module: the module exports its linear memory
//! under `"memory"` and an allocator entry point `"alloc"` taking a byte
//! count and returning an offset. To invoke an export, the bridge allocates
//! space for the payload, copies it in, and calls the export with
//! (offset, length). The export returns the offset of an 8-byte response
//! descriptor: a little-endian (offset, length) pair naming the response
//! bytes, which the bridge copies back out, bounds-checked identically.

use vstd::prelude::*;

verus! {

use crate::ident::{FuncId, spec_from_name};
use crate::errors::{LoadError, InvokeError, is_fault};
use crate::message::Response;
use crate::backend::{Core, CoreState};
use crate::bridge::{region_fits, read_le32, le32};
use vstd::string::StringSliceAdditionalSpecFns;

#[verifier::external_type_specification]
#[verifier::external_body]
pub struct ExEngine(wasmtime::Engine);

#[verifier::external_type_specification]
#[verifier::external_body]
pub struct ExModule(wasmtime::Module);

#[verifier::external_type_specification]
#[verifier::external_body]
#[verifier::reject_recursive_types(T)]
pub struct ExStore<T: 'static>(wasmtime::Store<T>);

#[verifier::external_type_specification]
#[verifier::external_body]
pub struct ExInstance(wasmtime::Instance);

#[verifier::external_type_specification]
#[verifier::external_body]
pub struct ExMemory(wasmtime::Memory);

/// The bytes of linear memory `m`, as owned by store `s`.
pub uninterp spec fn wasm_memory_bytes(m: wasmtime::Memory, s: wasmtime::Store<()>) -> Seq<u8>;

/// Memory `m` belongs to store `s`: it was exported by an instance created
/// in `s`. Belonging is by store identity, so it survives every mutation
/// of the store's contents.
pub uninterp spec fn mem_linked(m: wasmtime::Memory, s: wasmtime::Store<()>) -> bool;

/// Instance `i` belongs to store `s`: it was created in `s`. Belonging is
/// by store identity, so it survives every mutation of the store's
/// contents.
pub uninterp spec fn inst_linked(i: wasmtime::Instance, s: wasmtime::Store<()>) -> bool;

/// The names of the function exports of instance `i`, as owned by store
/// `s`, in enumeration order. A module instance's export list is fixed at
/// instantiation, so this is a function of the instance and store alone.
pub uninterp spec fn wasm_export_names(i: wasmtime::Instance, s: wasmtime::Store<()>) -> Seq<
    Seq<char>,
>;

/// The response that a descriptor at offset `d` of memory `mem`
/// denotes: `d` names 8 in-bounds bytes holding a little-endian
/// (offset, length) pair whose claimed region is itself in bounds, and
/// `data` is exactly that region.
pub open spec fn describes_response(mem: Seq<u8>, d: int, data: Seq<u8>) -> bool {
    &&& 0 <= d
    &&& d + 8 <= mem.len()
    &&& le32(mem, d) + le32(mem, d + 4) <= mem.len()
    &&& data == mem.subrange(le32(mem, d) as int, le32(mem, d) as int + le32(mem, d + 4) as int)
}

/// Relies on wasmtime::Config and wasmtime::Engine::new: a compilation
/// environment configured for small dynamically-bounds-checked linear
/// memories, so one loaded core reserves only the address space it uses
/// rather than a multi-gigabyte guard region.
#[verifier::external_body]
fn new_engine() -> wasmtime::Engine {
    let mut config = wasmtime::Config::new();
    config.memory_reservation(0);
    config.memory_guard_size(0);
    config.memory_reservation_for_growth(1 << 20);
    match wasmtime::Engine::new(&config) {
        Ok(e) => e,
        Err(_) => wasmtime::Engine::default(),
    }
}

/// Relies on wasmtime::Module::new: compiles module bytes, failing on
/// input the virtual machine cannot understand.
#[verifier::external_body]
fn compile_module(engine: &wasmtime::Engine, bytes: &[u8]) -> (r: Result<
    wasmtime::Module,
    LoadError,
>)
    ensures
        r matches Err(e) ==> e == LoadError::Malformed,
{
    wasmtime::Module::new(engine, bytes).map_err(|_| LoadError::Malformed)
}

/// Relies on wasmtime::Store::new: a fresh store owning nothing yet.
#[verifier::external_body]
fn new_store(engine: &wasmtime::Engine) -> wasmtime::Store<()> {
    wasmtime::Store::new(engine, ())
}

/// Relies on wasmtime::Instance::new (with no imports, so it cannot panic)
/// and wasmtime::Instance::get_memory: instantiates the module in the
/// store, running its start section, and resolves its exported linear
/// memory. The instance and memory returned are owned by the store.
#[verifier::external_body]
fn instantiate_with_memory(s: &mut wasmtime::Store<()>, module: &wasmtime::Module, mem_name: &str)
    -> (r: Result<(wasmtime::Instance, wasmtime::Memory), LoadError>)
    ensures
        r matches Ok(p) ==> inst_linked(p.0, *final(s)) && mem_linked(p.1, *final(s)),
        r matches Err(e) ==> e == LoadError::InitTrap || e == LoadError::MissingExport,
{
    let instance = wasmtime::Instance::new(&mut *s, module, &[]).map_err(
        |_| LoadError::InitTrap,
    )?;
    match instance.get_memory(&mut *s, mem_name) {
        Some(memory) => Ok((instance, memory)),
        None => Err(LoadError::MissingExport),
    }
}

/// Relies on wasmtime::Instance::exports (and Export::name/into_func to
/// convert each entry): exactly the names of the instance's function
/// exports, in enumeration order. Enumerating exports runs no module
/// code, so what any memory of the store holds, what belongs to the
/// store, and what any instance exports are all unchanged.
#[verifier::external_body]
fn export_func_names(i: &wasmtime::Instance, s: &mut wasmtime::Store<()>) -> (names: Vec<String>)
    requires
        inst_linked(*i, *old(s)),
    ensures
        names@.map_values(|n: String| n@) == wasm_export_names(*i, *old(s)),
        forall|mm: wasmtime::Memory| #[trigger] mem_linked(mm, *final(s)) == mem_linked(
            mm,
            *old(s),
        ),
        forall|ii: wasmtime::Instance| #[trigger] inst_linked(ii, *final(s)) == inst_linked(
            ii,
            *old(s),
        ),
        forall|mm: wasmtime::Memory| #[trigger] wasm_memory_bytes(mm, *final(s))
            == wasm_memory_bytes(mm, *old(s)),
        forall|ii: wasmtime::Instance| #[trigger] wasm_export_names(ii, *final(s))
            == wasm_export_names(ii, *old(s)),
{
    let mut names: Vec<String> = Vec::new();
    for e in i.exports(&mut *s) {
        let name = e.name().to_owned();
        if e.into_func().is_some() {
            names.push(name);
        }
    }
    names
}

/// Relies on wasmtime::Instance::get_typed_func::<(i32, i32), i32> and
/// wasmtime::TypedFunc::call: resolves the named export against the
/// two-argument calling convention and runs it. `TypeMismatch` reports a
/// failed resolution (absent or differently-typed export, module code
/// never ran); `BackendTrap` reports a trap while running. Running module
/// code can change memory contents arbitrarily, but not what belongs to
/// the store.
#[verifier::external_body]
fn call_export_pair(
    i: &wasmtime::Instance,
    s: &mut wasmtime::Store<()>,
    name: &str,
    a: i32,
    b: i32,
) -> (r: Result<i32, InvokeError>)
    requires
        inst_linked(*i, *old(s)),
    ensures
        forall|mm: wasmtime::Memory| #[trigger] mem_linked(mm, *final(s)) == mem_linked(
            mm,
            *old(s),
        ),
        forall|ii: wasmtime::Instance| #[trigger] inst_linked(ii, *final(s)) == inst_linked(
            ii,
            *old(s),
        ),
        r matches Err(e) ==> e == InvokeError::TypeMismatch || e == InvokeError::BackendTrap,
{
    let f = match i.get_typed_func::<(i32, i32), i32>(&mut *s, name) {
        Ok(f) => f,
        Err(_) => {
            return Err(InvokeError::TypeMismatch);
        },
    };
    f.call(&mut *s, (a, b)).map_err(|_| InvokeError::BackendTrap)
}

/// Relies on wasmtime::Instance::get_typed_func::<i32, i32> and
/// wasmtime::TypedFunc::call: resolves the module's allocator entry point
/// and asks it for space. `TypeMismatch` reports a failed resolution;
/// `AllocationFailure` reports a trap inside the allocator. Running module
/// code can change memory contents arbitrarily, but not what belongs to
/// the store.
#[verifier::external_body]
fn call_export_alloc(i: &wasmtime::Instance, s: &mut wasmtime::Store<()>, name: &str, n: i32) -> (r:
    Result<i32, InvokeError>)
    requires
        inst_linked(*i, *old(s)),
    ensures
        forall|mm: wasmtime::Memory| #[trigger] mem_linked(mm, *final(s)) == mem_linked(
            mm,
            *old(s),
        ),
        forall|ii: wasmtime::Instance| #[trigger] inst_linked(ii, *final(s)) == inst_linked(
            ii,
            *old(s),
        ),
        r matches Err(e) ==> e == InvokeError::TypeMismatch || e == InvokeError::AllocationFailure,
{
    let f = match i.get_typed_func::<i32, i32>(&mut *s, name) {
        Ok(f) => f,
        Err(_) => {
            return Err(InvokeError::TypeMismatch);
        },
    };
    f.call(&mut *s, n).map_err(|_| InvokeError::AllocationFailure)
}

/// Relies on wasmtime::Memory::data: the current length of the memory.
#[verifier::external_body]
fn memory_len(m: &wasmtime::Memory, s: &wasmtime::Store<()>) -> (r: usize)
    requires
        mem_linked(*m, *s),
    ensures
        r == wasm_memory_bytes(*m, *s).len(),
{
    m.data(s).len()
}

/// Relies on wasmtime::Memory::data: copies `len` bytes at `off` out of
/// the memory. The bounds were checked by the caller, so the slice indexing
/// cannot panic.
#[verifier::external_body]
fn memory_read(m: &wasmtime::Memory, s: &wasmtime::Store<()>, off: usize, len: usize) -> (r: Vec<
    u8,
>)
    requires
        mem_linked(*m, *s),
        off + len <= wasm_memory_bytes(*m, *s).len(),
    ensures
        r@ == wasm_memory_bytes(*m, *s).subrange(off as int, off as int + len as int),
{
    m.data(s)[off..off + len].to_vec()
}

/// Relies on wasmtime::Memory::data_mut: copies `data` into the memory at
/// `off`. The bounds were checked by the caller, so the slice indexing
/// cannot panic. Nothing else about the store changes.
#[verifier::external_body]
fn memory_write(m: &wasmtime::Memory, s: &mut wasmtime::Store<()>, off: usize, data: &[u8])
    requires
        mem_linked(*m, *old(s)),
        off + data@.len() <= wasm_memory_bytes(*m, *old(s)).len(),
    ensures
        forall|mm: wasmtime::Memory| #[trigger] mem_linked(mm, *final(s)) == mem_linked(
            mm,
            *old(s),
        ),
        forall|ii: wasmtime::Instance| #[trigger] inst_linked(ii, *final(s)) == inst_linked(
            ii,
            *old(s),
        ),
        wasm_memory_bytes(*m, *final(s)) == wasm_memory_bytes(*m, *old(s)).subrange(
            0,
            off as int,
        ) + data@ + wasm_memory_bytes(*m, *old(s)).subrange(
            off as int + data@.len() as int,
            wasm_memory_bytes(*m, *old(s)).len() as int,
        ),
{
    m.data_mut(s)[off..off + data.len()].copy_from_slice(data);
}

/// The virtual-machine state of one loaded module.
struct WasmRuntime {
    store: wasmtime::Store<()>,
    instance: wasmtime::Instance,
    memory: wasmtime::Memory,
}

/// A sandboxed core: one bytecode module instance behind the `Core`
/// capability interface, with its own lifecycle state and its table of
/// exported functions.
pub struct SandboxedCore {
    name: String,
    id: FuncId,
    state: CoreState,
    table: Vec<(FuncId, String)>,
    runtime: Option<WasmRuntime>,
}

impl SandboxedCore {
    /// The core's lifecycle state.
    pub closed spec fn spec_state(&self) -> CoreState {
        self.state
    }

    /// The core's name: the namespace its exports are hashed under.
    pub closed spec fn spec_name(&self) -> Seq<char> {
        self.name@
    }

    /// The names under which this core's functions were exported, one per
    /// entry of `exports()`, in the same order.
    pub closed spec fn export_names(&self) -> Seq<Seq<char>> {
        self.table@.map_values(|p: (FuncId, String)| p.1@)
    }

    /// What the module instance itself enumerates as its function
    /// exports.
    pub closed spec fn enumerated_names(&self) -> Seq<Seq<char>> {
        match self.runtime {
            Some(rt) => wasm_export_names(rt.instance, rt.store),
            None => Seq::empty(),
        }
    }

    /// The current bytes of the module's linear memory.
    pub closed spec fn memory_bytes(&self) -> Seq<u8> {
        match self.runtime {
            Some(rt) => wasm_memory_bytes(rt.memory, rt.store),
            None => Seq::empty(),
        }
    }

    /// The instance and memory in the runtime belong to its store.
    pub closed spec fn rt_ok(&self) -> bool {
        match self.runtime {
            Some(rt) => mem_linked(rt.memory, rt.store) && inst_linked(rt.instance, rt.store),
            None => true,
        }
    }

    /// Construct a sandboxed core from raw module bytes: compile,
    /// instantiate (running the module's start section), and resolve the
    /// exported linear memory. The core starts `Unloaded` with no exports;
    /// `load` enumerates them.
    pub fn new(plugin_name: &str, wasm_bytes: &[u8]) -> (r: Result<SandboxedCore, LoadError>)
        ensures
            r matches Ok(c) ==> c.inv() && c.fresh() && c.spec_state() == CoreState::Unloaded
                && c.exports() == Seq::<FuncId>::empty() && c.spec_id() == spec_from_name(
                plugin_name.spec_bytes(),
                plugin_name.spec_bytes(),
            ) && c.spec_name() == plugin_name@,
            r matches Err(e) ==> e == LoadError::Malformed || e == LoadError::InitTrap || e
                == LoadError::MissingExport,
    {
        let id = FuncId::from_name(plugin_name, plugin_name);
        let engine = new_engine();
        let module = match compile_module(&engine, wasm_bytes) {
            Ok(m) => m,
            Err(e) => {
                return Err(e);
            },
        };
        let mut store = new_store(&engine);
        let (instance, memory) = match instantiate_with_memory(&mut store, &module, "memory") {
            Ok(p) => p,
            Err(e) => {
                return Err(e);
            },
        };
        let core = SandboxedCore {
            name: plugin_name.to_owned(),
            id,
            state: CoreState::Unloaded,
            table: Vec::new(),
            runtime: Some(WasmRuntime { store, instance, memory }),
        };
        proof {
            assert(core.exports() =~= Seq::<FuncId>::empty());
        }
        Ok(core)
    }

    /// The rich dispatch contract behind `Core::call_function`: exact error
    /// classification, and the fault-isolation state machine. Local errors
    /// (`Unavailable`, `NotFound`, `TypeMismatch`) leave the core's state
    /// unchanged; bridging and execution faults transition it to `Faulted`.
    pub fn invoke(&mut self, fn_id: &FuncId, message: &[u8]) -> (r: Result<Response, InvokeError>)
        requires
            old(self).inv(),
        ensures
            final(self).inv(),
            final(self).spec_id() == old(self).spec_id(),
            final(self).spec_name() == old(self).spec_name(),
            final(self).exports() == old(self).exports(),
            !old(self).ready() ==> r == Err::<Response, InvokeError>(InvokeError::Unavailable)
                && *final(self) == *old(self),
            old(self).ready() && !old(self).exports().contains(*fn_id) ==> r == Err::<
                Response,
                InvokeError,
            >(InvokeError::NotFound) && *final(self) == *old(self),
            old(self).ready() && old(self).exports().contains(*fn_id) ==> !(r == Err::<
                Response,
                InvokeError,
            >(InvokeError::NotFound)) && !(r == Err::<Response, InvokeError>(
                InvokeError::Unavailable,
            )),
            old(self).ready() && old(self).exports().contains(*fn_id) && message@.len()
                > i32::MAX as int ==> r == Err::<Response, InvokeError>(InvokeError::MemoryFault),
            r matches Ok(resp) ==> resp.status == 0 && (exists|d: int|
                #[trigger] describes_response(final(self).memory_bytes(), d, resp.data@)),
            !(r == Err::<Response, InvokeError>(InvokeError::Timeout)),
            r matches Err(e) && is_fault(e) ==> final(self).spec_state() == CoreState::Faulted
                && !final(self).ready(),
            (r is Ok || r == Err::<Response, InvokeError>(InvokeError::TypeMismatch) || r == Err::<
                Response,
                InvokeError,
            >(InvokeError::NotFound) || r == Err::<Response, InvokeError>(InvokeError::Unavailable))
                ==> final(self).spec_state() == old(self).spec_state() && final(self).ready()
                == old(self).ready(),
    {
        if !(self.state == CoreState::Loaded) {
            return Err(InvokeError::Unavailable);
        }
        if self.runtime.is_none() {
            return Err(InvokeError::Unavailable);
        }
        // Locate the export's name in the function table.
        let found: usize = match find_in_table(&self.table, fn_id) {
            Some(k) => k,
            None => {
                proof {
                    assert forall|k: int| 0 <= k < self.exports().len() implies self.exports()[k]
                        != *fn_id by {
                        assert(self.exports()[k] == self.table@[k].0);
                    }
                }
                return Err(InvokeError::NotFound);
            },
        };
        proof {
            assert(self.exports()[found as int] == self.table@[found as int].0);
            assert(self.exports().contains(*fn_id));
        }
        let export_name: String = self.table[found].1.clone();
        let rt = match &mut self.runtime {
            Some(rt) => rt,
            None => {
                proof {
                    assert(false);
                }
                return Err(InvokeError::Unavailable);
            },
        };
        if message.len() > (i32::MAX as usize) {
            self.state = CoreState::Faulted;
            return Err(InvokeError::MemoryFault);
        }
        let n: i32 = message.len() as i32;
        // Ask the module's allocator for space for the payload.
        let ptr = match call_export_alloc(&rt.instance, &mut rt.store, "alloc", n) {
            Ok(p) => p,
            Err(e) => {
                if e == InvokeError::TypeMismatch {
                    return Err(InvokeError::TypeMismatch);
                }
                self.state = CoreState::Faulted;
                return Err(InvokeError::AllocationFailure);
            },
        };
        if ptr < 0 {
            self.state = CoreState::Faulted;
            return Err(InvokeError::AllocationFailure);
        }
        // Bounds-check the offered region, then copy the payload in.
        let mlen = memory_len(&rt.memory, &rt.store);
        if !region_fits(ptr as usize, message.len(), mlen) {
            self.state = CoreState::Faulted;
            return Err(InvokeError::AllocationFailure);
        }
        memory_write(&rt.memory, &mut rt.store, ptr as usize, message);
        // Run the export on (offset, length).
        let rv = match call_export_pair(&rt.instance, &mut rt.store, export_name.as_str(), ptr, n) {
            Ok(v) => v,
            Err(e) => {
                if e == InvokeError::TypeMismatch {
                    return Err(InvokeError::TypeMismatch);
                }
                self.state = CoreState::Faulted;
                return Err(InvokeError::BackendTrap);
            },
        };
        // The return value names an 8-byte response descriptor;
        // bounds-check against the memory's current length (the call may
        // have grown or rewritten memory).
        if rv < 0 {
            self.state = CoreState::Faulted;
            return Err(InvokeError::MemoryFault);
        }
        let mlen2 = memory_len(&rt.memory, &rt.store);
        if !region_fits(rv as usize, 8, mlen2) {
            self.state = CoreState::Faulted;
            return Err(InvokeError::MemoryFault);
        }
        let desc = memory_read(&rt.memory, &rt.store, rv as usize, 8);
        let resp_off = read_le32(desc.as_slice(), 0);
        let resp_len = read_le32(desc.as_slice(), 4);
        // Bounds-check the descriptor's claim, then copy the response out.
        if !region_fits(resp_off as usize, resp_len as usize, mlen2) {
            self.state = CoreState::Faulted;
            return Err(InvokeError::MemoryFault);
        }
        let data = memory_read(&rt.memory, &rt.store, resp_off as usize, resp_len as usize);
        let ghost fmem = wasm_memory_bytes(rt.memory, rt.store);
        let ghost gd = rv as int;
        let resp = Response { data, status: 0 };
        proof {
            assert(self.memory_bytes() == fmem);
            assert(fmem.len() == mlen2);
            assert(desc@ == fmem.subrange(gd, gd + 8));
            assert(desc@[0] == fmem[gd] && desc@[1] == fmem[gd + 1] && desc@[2] == fmem[gd + 2]
                && desc@[3] == fmem[gd + 3]);
            assert(desc@[4] == fmem[gd + 4] && desc@[5] == fmem[gd + 5] && desc@[6] == fmem[gd + 6]
                && desc@[7] == fmem[gd + 7]);
            assert(resp_off == le32(fmem, gd));
            assert(resp_len == le32(fmem, gd + 4));
            assert(describes_response(fmem, gd, resp.data@));
        }
        Ok(resp)
    }

    /// The teardown behind `Core::shutdown`: release the virtual-machine
    /// state, clear the exported-function table, and refuse further
    /// calls. Safe to call any number of times, with the same final
    /// state.
    pub fn stop(&mut self)
        ensures
            final(self).inv(),
            final(self).spec_id() == old(self).spec_id(),
            final(self).spec_name() == old(self).spec_name(),
            final(self).exports().len() == 0,
            final(self).spec_state() == CoreState::ShutDown,
            !final(self).ready(),
    {
        self.runtime = None;
        self.table = Vec::new();
        self.state = CoreState::ShutDown;
        proof {
            assert(self.exports() =~= Seq::<FuncId>::empty());
        }
    }
}

impl Core for SandboxedCore {
    closed spec fn spec_id(&self) -> FuncId {
        self.id
    }

    closed spec fn exports(&self) -> Seq<FuncId> {
        self.table@.map_values(|p: (FuncId, String)| p.0)
    }

    closed spec fn fresh(&self) -> bool {
        self.state == CoreState::Unloaded && self.runtime is Some && self.table@.len() == 0
    }

    closed spec fn inv(&self) -> bool {
        self.rt_ok()
    }

    closed spec fn ready(&self) -> bool {
        self.state == CoreState::Loaded && self.runtime is Some
    }

    fn core_id(&self) -> (r: FuncId) {
        self.id
    }

    /// Enumerate the module's function exports and fix the table: on
    /// success the core's exported identifiers are exactly the module's
    /// own enumerated export names, each hashed in this core's
    /// namespace, and the required allocator entry point is among those
    /// names.
    #[verifier::rlimit(50)]
    fn load(&mut self) -> (r: Result<(), LoadError>)
        ensures
            final(self).spec_name() == old(self).spec_name(),
            r is Ok ==> {
                &&& final(self).export_names() == final(self).enumerated_names()
                &&& final(self).exports().len() == final(self).export_names().len()
                &&& forall|k: int|
                    0 <= k < final(self).exports().len() ==> #[trigger] final(self).exports()[k]
                        == spec_from_name(
                        vstd::utf8::encode_utf8(old(self).spec_name()),
                        vstd::utf8::encode_utf8(final(self).export_names()[k]),
                    )
                &&& exists|k: int|
                    0 <= k < final(self).export_names().len() && vstd::utf8::encode_utf8(
                        (#[trigger] final(self).export_names()[k]),
                    ) == "alloc".spec_bytes()
            },
    {
        let names = match &mut self.runtime {
            Some(rt) => export_func_names(&rt.instance, &mut rt.store),
            None => {
                proof {
                    assert(false);
                }
                return Err(LoadError::InitTrap);
            },
        };
        proof {
            assert(names@.map_values(|n: String| n@) == self.enumerated_names());
        }
        // The allocator entry point is a required export.
        let mut has_alloc = false;
        let mut j: usize = 0;
        while j < names.len()
            invariant
                j <= names@.len(),
                self.inv(),
                self.state == old(self).state,
                self.id == old(self).id,
                self.name@ == old(self).name@,
                self.table@ == old(self).table@,
                old(self).fresh(),
                names@.map_values(|n: String| n@) == self.enumerated_names(),
                has_alloc ==> exists|k: int|
                    0 <= k < names@.len() && vstd::utf8::encode_utf8((#[trigger] names@[k])@)
                        == "alloc".spec_bytes(),
            decreases names@.len() - j,
        {
            if str_bytes_equal(names[j].as_str(), "alloc") {
                proof {
                    assert(vstd::utf8::encode_utf8(names@[j as int]@) == "alloc".spec_bytes());
                }
                has_alloc = true;
            }
            j = j + 1;
        }
        if !has_alloc {
            return Err(LoadError::MissingExport);
        }
        // Hash each export's name in this core's namespace; reject the
        // whole unit if two exports collide.
        let table = match build_table(self.name.as_str(), &names) {
            Ok(t) => t,
            Err(e) => {
                return Err(e);
            },
        };
        self.table = table;
        self.state = CoreState::Loaded;
        proof {
            assert forall|a: int, b: int| 0 <= a < b < self.exports().len()
                implies self.exports()[a] != self.exports()[b] by {
                assert(self.exports()[a] == self.table@[a].0);
                assert(self.exports()[b] == self.table@[b].0);
            }
            assert(self.export_names() =~= names@.map_values(|n: String| n@)) by {
                assert forall|k: int| 0 <= k < self.table@.len()
                    implies #[trigger] self.export_names()[k] == names@[k]@ by {
                    assert(self.export_names()[k] == self.table@[k].1@);
                }
            }
            assert forall|k: int| 0 <= k < self.exports().len() implies #[trigger] self.exports()[
            k] == spec_from_name(
                vstd::utf8::encode_utf8(old(self).spec_name()),
                vstd::utf8::encode_utf8(self.export_names()[k]),
            ) by {
                assert(self.exports()[k] == self.table@[k].0);
                assert(self.export_names()[k] == self.table@[k].1@);
                assert(self.table@[k].1@ == names@[k]@);
            }
            let k0 = choose|k: int|
                0 <= k < names@.len() && vstd::utf8::encode_utf8((#[trigger] names@[k])@)
                    == "alloc".spec_bytes();
            assert(self.export_names()[k0] == names@[k0]@);
        }
        Ok(())
    }

    fn get_fn_address_list(&self) -> (r: Vec<FuncId>) {
        let mut r: Vec<FuncId> = Vec::new();
        let mut i: usize = 0;
        while i < self.table.len()
            invariant
                i <= self.table@.len(),
                r@.len() == i,
                forall|k: int| 0 <= k < i ==> r@[k] == (#[trigger] self.table@[k]).0,
            decreases self.table@.len() - i,
        {
            r.push(self.table[i].0);
            i = i + 1;
        }
        proof {
            assert(r@ =~= self.exports());
        }
        r
    }

    fn call_function(&mut self, fn_id: &FuncId, message: &[u8]) -> (r: Result<
        Response,
        InvokeError,
    >) {
        self.invoke(fn_id, message)
    }

    fn shutdown(&mut self) {
        self.stop();
    }
}

/// Hash each export name in the core's namespace, rejecting the unit with
/// `Collision` if two of its exports hash to the same identifier. On
/// success the table carries exactly the given names, in order, each
/// paired with the hash of (namespace, name).
fn build_table(core_name: &str, names: &Vec<String>) -> (r: Result<Vec<(FuncId, String)>, LoadError>)
    ensures
        r matches Ok(t) ==> {
            &&& t@.len() == names@.len()
            &&& forall|k: int| 0 <= k < t@.len() ==> (#[trigger] t@[k]).1@ == names@[k]@
            &&& forall|k: int|
                0 <= k < t@.len() ==> (#[trigger] t@[k]).0 == spec_from_name(
                    core_name.spec_bytes(),
                    vstd::utf8::encode_utf8(names@[k]@),
                )
            &&& forall|a: int, b: int|
                0 <= a < b < t@.len() ==> (#[trigger] t@[a]).0 != (#[trigger] t@[b]).0
        },
        r matches Err(e) ==> e == LoadError::Collision,
{
    let mut table: Vec<(FuncId, String)> = Vec::new();
    let mut k: usize = 0;
    while k < names.len()
        invariant
            k <= names@.len(),
            table@.len() == k,
            forall|j: int| 0 <= j < k ==> (#[trigger] table@[j]).1@ == names@[j]@,
            forall|j: int|
                0 <= j < k ==> (#[trigger] table@[j]).0 == spec_from_name(
                    core_name.spec_bytes(),
                    vstd::utf8::encode_utf8(names@[j]@),
                ),
            forall|a: int, b: int|
                0 <= a < b < table@.len() ==> (#[trigger] table@[a]).0 != (#[trigger] table@[b]).0,
        decreases names@.len() - k,
    {
        let nm = names[k].as_str();
        let fid = FuncId::from_name(core_name, nm);
        proof {
            assert(nm.spec_bytes() == vstd::utf8::encode_utf8(names@[k as int]@));
        }
        match find_in_table(&table, &fid) {
            Some(_) => {
                return Err(LoadError::Collision);
            },
            None => {},
        }
        table.push((fid, names[k].clone()));
        k = k + 1;
    }
    Ok(table)
}

/// The position of `id` in a function table, if any.
fn find_in_table(table: &Vec<(FuncId, String)>, id: &FuncId) -> (r: Option<usize>)
    ensures
        match r {
            Some(k) => k < table@.len() && table@[k as int].0 == *id,
            None => forall|k: int| 0 <= k < table@.len() ==> (#[trigger] table@[k]).0 != *id,
        },
{
    let mut i: usize = 0;
    while i < table.len()
        invariant
            i <= table@.len(),
            forall|k: int| 0 <= k < i ==> (#[trigger] table@[k]).0 != *id,
        decreases table@.len() - i,
    {
        if table[i].0 == *id {
            return Some(i);
        }
        i = i + 1;
    }
    None
}

/// Whether two strings have the same bytes, decided by a scan.
fn str_bytes_equal(a: &str, b: &str) -> (r: bool)
    ensures
        r == (a.spec_bytes() == b.spec_bytes()),
{
    let ab = a.as_bytes();
    let bb = b.as_bytes();
    if ab.len() != bb.len() {
        proof {
            assert(a.spec_bytes().len() != b.spec_bytes().len());
        }
        return false;
    }
    let mut i: usize = 0;
    while i < ab.len()
        invariant
            ab@ == a.spec_bytes(),
            bb@ == b.spec_bytes(),
            ab@.len() == bb@.len(),
            i <= ab@.len(),
            forall|k: int| 0 <= k < i ==> ab@[k] == bb@[k],
        decreases ab@.len() - i,
    {
        if ab[i] != bb[i] {
            return false;
        }
        i = i + 1;
    }
    proof {
        assert(a.spec_bytes() =~= b.spec_bytes());
    }
    true
}

} // verus!
