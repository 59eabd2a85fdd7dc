use spine::backend::Core;
use spine::fanout::SideEffect;
use spine::facade::PluginEngine;
use spine::errors::{InvokeError, LoadError};
use spine::ident::FuncId;
use spine::message::Response;

/// These tests never load an external core; the engine still needs one
/// concrete backend type for that side of the interface.
struct UnusedCore;

impl Core for UnusedCore {

    // The trait's ghost items: only the verifier interprets these; they
    // are never called at runtime.
    fn spec_id(&self) -> FuncId {
        unreachable!()
    }

    fn exports(&self) -> vstd::seq::Seq<FuncId> {
        unreachable!()
    }

    fn fresh(&self) -> bool {
        unreachable!()
    }

    fn inv(&self) -> bool {
        unreachable!()
    }

    fn ready(&self) -> bool {
        unreachable!()
    }
    fn core_id(&self) -> FuncId {
        FuncId { hi: 0, lo: 0 }
    }

    fn load(&mut self) -> Result<(), LoadError> {
        Ok(())
    }

    fn get_fn_address_list(&self) -> Vec<FuncId> {
        Vec::new()
    }

    fn call_function(&mut self, _fn_id: &FuncId, _message: &[u8]) -> Result<Response, InvokeError> {
        Err(InvokeError::Unavailable)
    }

    fn shutdown(&mut self) {}
}

struct UnusedEffect;

impl SideEffect for UnusedEffect {

    // The trait's ghost item: only the verifier interprets it; it is
    // never called at runtime.
    fn spec_id(&self) -> FuncId {
        unreachable!()
    }
    fn get_id(&self) -> FuncId {
        FuncId { hi: 0, lo: 0 }
    }

    fn copy_msg(&mut self, _bytes: &[u8], _len: usize) -> Result<(), ()> {
        Ok(())
    }
}

type TestEngine = PluginEngine<UnusedCore, UnusedEffect>;

/// A module that echoes its payload: the returned descriptor names the
/// payload bytes themselves.
const IDENTITY_WAT: &str = r#"
(module
  (memory (export "memory") 1)
  (func (export "alloc") (param i32) (result i32)
    (i32.const 1024))
  (func (export "identity") (param i32 i32) (result i32)
    (i32.store (i32.const 4096) (local.get 0))
    (i32.store (i32.const 4100) (local.get 1))
    (i32.const 4096)))
"#;

/// A module exporting "add": reads two little-endian 32-bit numbers from
/// the payload, writes their sum at 2048, and describes those 4 bytes.
const MATH_WAT: &str = r#"
(module
  (memory (export "memory") 1)
  (func (export "alloc") (param i32) (result i32)
    (i32.const 1024))
  (func (export "add") (param i32 i32) (result i32)
    (i32.store
      (i32.const 2048)
      (i32.add
        (i32.load (local.get 0))
        (i32.load (i32.add (local.get 0) (i32.const 4)))))
    (i32.store (i32.const 4096) (i32.const 2048))
    (i32.store (i32.const 4100) (i32.const 4))
    (i32.const 4096)))
"#;

fn encode_pair(a: u32, b: u32) -> Vec<u8> {
    let mut v = a.to_le_bytes().to_vec();
    v.extend_from_slice(&b.to_le_bytes());
    v
}

#[test]
fn identity_round_trips_every_payload() {
    let mut engine: TestEngine = PluginEngine::new();
    engine.load_wasm_core("idcore", IDENTITY_WAT.as_bytes()).expect("load");
    let f = FuncId::from_name("idcore", "identity");

    for payload in [
        Vec::new(),
        vec![0u8],
        vec![1, 2, 3, 4, 5],
        (0..=255u8).collect::<Vec<u8>>(),
    ] {
        let r = engine.call_function(&f, &payload).expect("identity call");
        assert_eq!(r.status, 0);
        assert_eq!(r.data, payload);
    }
}

#[test]
fn math_core_adds() {
    let mut engine: TestEngine = PluginEngine::new();
    engine.load_wasm_core("math", MATH_WAT.as_bytes()).expect("load");
    let f = FuncId::from_name("math", "add");

    let r = engine.call_function(&f, &encode_pair(2, 3)).expect("add");
    assert_eq!(r.status, 0);
    assert_eq!(r.data, 5u32.to_le_bytes().to_vec());

    let r = engine.call_function(&f, &encode_pair(40_000, 2_000)).expect("add");
    assert_eq!(r.data, 42_000u32.to_le_bytes().to_vec());
}

#[test]
fn exported_set_is_exactly_what_resolves() {
    let mut engine: TestEngine = PluginEngine::new();
    let core_id = engine.load_wasm_core("idcore", IDENTITY_WAT.as_bytes()).expect("load");

    let mut exported = engine.exported_functions(&core_id).expect("registered");
    let mut expected = vec![
        FuncId::from_name("idcore", "alloc"),
        FuncId::from_name("idcore", "identity"),
    ];
    exported.sort_by_key(|id| (id.hi, id.lo));
    expected.sort_by_key(|id| (id.hi, id.lo));
    assert_eq!(exported, expected);

    // Every exported identifier resolves (it is never NotFound)...
    for f in &exported {
        let r = engine.call_function(f, &[1, 2, 3, 4]);
        assert!(!matches!(r, Err(InvokeError::NotFound)));
    }
    // ...and any other identifier does not.
    let other = FuncId::from_name("idcore", "nonexistent");
    assert!(matches!(engine.call_function(&other, &[]), Err(InvokeError::NotFound)));
}

#[test]
fn same_export_name_in_two_cores_stays_separate() {
    let mut engine: TestEngine = PluginEngine::new();
    engine.load_wasm_core("alpha", IDENTITY_WAT.as_bytes()).expect("alpha");
    engine.load_wasm_core("beta", MATH_WAT.as_bytes()).expect("beta");

    // "alpha"/"identity" and "beta"/"add" live side by side; the alloc
    // exports of the two cores hash apart because the namespace differs.
    let a = FuncId::from_name("alpha", "alloc");
    let b = FuncId::from_name("beta", "alloc");
    assert_ne!(a, b);

    let f = FuncId::from_name("alpha", "identity");
    let g = FuncId::from_name("beta", "add");
    let r = engine.call_function(&f, &[9, 9]).expect("identity");
    assert_eq!(r.data, vec![9, 9]);
    let r = engine.call_function(&g, &encode_pair(20, 22)).expect("add");
    assert_eq!(r.data, 42u32.to_le_bytes().to_vec());
}

#[test]
fn unloaded_wasm_core_resolves_to_nothing() {
    let mut engine: TestEngine = PluginEngine::new();
    let core_id = engine.load_wasm_core("idcore", IDENTITY_WAT.as_bytes()).expect("load");
    let f = FuncId::from_name("idcore", "identity");
    assert!(engine.call_function(&f, &[1]).is_ok());

    engine.unload_core(&core_id);
    assert!(matches!(engine.call_function(&f, &[1]), Err(InvokeError::NotFound)));
    // The name can be loaded again after the unload.
    engine.load_wasm_core("idcore", IDENTITY_WAT.as_bytes()).expect("reload");
    assert!(engine.call_function(&f, &[1]).is_ok());
}

#[test]
fn loading_the_same_core_name_twice_collides() {
    let mut engine: TestEngine = PluginEngine::new();
    engine.load_wasm_core("idcore", IDENTITY_WAT.as_bytes()).expect("first");
    let r = engine.load_wasm_core("idcore", MATH_WAT.as_bytes());
    assert!(matches!(r, Err(LoadError::Collision)));
}

#[test]
fn garbage_bytes_are_malformed() {
    let mut engine: TestEngine = PluginEngine::new();
    let r = engine.load_wasm_core("junk", b"this is not a module");
    assert!(matches!(r, Err(LoadError::Malformed)));
}

#[test]
fn missing_memory_export_is_refused() {
    let wat = r#"
    (module
      (func (export "alloc") (param i32) (result i32) (i32.const 0)))
    "#;
    let mut engine: TestEngine = PluginEngine::new();
    let r = engine.load_wasm_core("nomem", wat.as_bytes());
    assert!(matches!(r, Err(LoadError::MissingExport)));
}

#[test]
fn missing_allocator_export_is_refused() {
    let wat = r#"
    (module
      (memory (export "memory") 1)
      (func (export "f") (param i32 i32) (result i32) (i32.const 0)))
    "#;
    let mut engine: TestEngine = PluginEngine::new();
    let r = engine.load_wasm_core("noalloc", wat.as_bytes());
    assert!(matches!(r, Err(LoadError::MissingExport)));
}

#[test]
fn trapping_start_section_is_an_init_trap() {
    let wat = r#"
    (module
      (memory (export "memory") 1)
      (func $boom unreachable)
      (start $boom))
    "#;
    let mut engine: TestEngine = PluginEngine::new();
    let r = engine.load_wasm_core("bad_start", wat.as_bytes());
    assert!(matches!(r, Err(LoadError::InitTrap)));
}

#[test]
fn trap_during_a_call_faults_the_core() {
    let wat = r#"
    (module
      (memory (export "memory") 1)
      (func (export "alloc") (param i32) (result i32) (i32.const 1024))
      (func (export "boom") (param i32 i32) (result i32) unreachable))
    "#;
    let mut engine: TestEngine = PluginEngine::new();
    engine.load_wasm_core("trapper", wat.as_bytes()).expect("load");
    let f = FuncId::from_name("trapper", "boom");

    let r = engine.call_function(&f, &[1]);
    assert!(matches!(r, Err(InvokeError::BackendTrap)));
    // The fault is isolated: the core's records are purged, no crash.
    assert!(matches!(engine.call_function(&f, &[1]), Err(InvokeError::NotFound)));
}

#[test]
fn wrong_signature_is_a_type_mismatch_and_stays_local() {
    let wat = r#"
    (module
      (memory (export "memory") 1)
      (func (export "alloc") (param i32) (result i32) (i32.const 1024))
      (func (export "narrow") (param i32) (result i32) (local.get 0))
      (func (export "identity") (param i32 i32) (result i32)
        (i32.store (i32.const 4096) (local.get 0))
        (i32.store (i32.const 4100) (local.get 1))
        (i32.const 4096)))
    "#;
    let mut engine: TestEngine = PluginEngine::new();
    engine.load_wasm_core("mixed", wat.as_bytes()).expect("load");

    let narrow = FuncId::from_name("mixed", "narrow");
    let r = engine.call_function(&narrow, &[1]);
    assert!(matches!(r, Err(InvokeError::TypeMismatch)));
    // A local error: the core keeps serving its well-typed export.
    let ok = FuncId::from_name("mixed", "identity");
    assert_eq!(engine.call_function(&ok, &[3, 4]).expect("identity").data, vec![3, 4]);
}

#[test]
fn allocator_returning_an_invalid_offset_fails_allocation() {
    let wat = r#"
    (module
      (memory (export "memory") 1)
      (func (export "alloc") (param i32) (result i32) (i32.const -16))
      (func (export "f") (param i32 i32) (result i32) (i32.const 0)))
    "#;
    let mut engine: TestEngine = PluginEngine::new();
    engine.load_wasm_core("badalloc", wat.as_bytes()).expect("load");
    let f = FuncId::from_name("badalloc", "f");
    let r = engine.call_function(&f, &[1, 2, 3]);
    assert!(matches!(r, Err(InvokeError::AllocationFailure)));
}

#[test]
fn allocator_offering_space_beyond_memory_fails_allocation() {
    let wat = r#"
    (module
      (memory (export "memory") 1)
      (func (export "alloc") (param i32) (result i32) (i32.const 65530))
      (func (export "f") (param i32 i32) (result i32) (i32.const 0)))
    "#;
    let mut engine: TestEngine = PluginEngine::new();
    engine.load_wasm_core("tightalloc", wat.as_bytes()).expect("load");
    let f = FuncId::from_name("tightalloc", "f");
    // 16 bytes do not fit at offset 65530 of a 65536-byte memory.
    let r = engine.call_function(&f, &[0; 16]);
    assert!(matches!(r, Err(InvokeError::AllocationFailure)));
}

#[test]
fn out_of_bounds_response_descriptor_is_a_memory_fault() {
    let wat = r#"
    (module
      (memory (export "memory") 1)
      (func (export "alloc") (param i32) (result i32) (i32.const 1024))
      (func (export "neg") (param i32 i32) (result i32) (i32.const -7))
      (func (export "far") (param i32 i32) (result i32) (i32.const 65532)))
    "#;
    let mut engine: TestEngine = PluginEngine::new();
    engine.load_wasm_core("baddesc", wat.as_bytes()).expect("load");
    let neg = FuncId::from_name("baddesc", "neg");
    let r = engine.call_function(&neg, &[1]);
    assert!(matches!(r, Err(InvokeError::MemoryFault)));

    // The descriptor itself would cross the end of memory.
    let mut engine2: TestEngine = PluginEngine::new();
    engine2.load_wasm_core("baddesc", wat.as_bytes()).expect("load");
    let far = FuncId::from_name("baddesc", "far");
    let r = engine2.call_function(&far, &[1]);
    assert!(matches!(r, Err(InvokeError::MemoryFault)));
}

#[test]
fn response_claiming_bytes_beyond_memory_is_a_memory_fault() {
    let wat = r#"
    (module
      (memory (export "memory") 1)
      (func (export "alloc") (param i32) (result i32) (i32.const 1024))
      (func (export "liar") (param i32 i32) (result i32)
        (i32.store (i32.const 4096) (i32.const 60000))
        (i32.store (i32.const 4100) (i32.const 99999))
        (i32.const 4096)))
    "#;
    let mut engine: TestEngine = PluginEngine::new();
    engine.load_wasm_core("liar", wat.as_bytes()).expect("load");
    let f = FuncId::from_name("liar", "liar");
    let r = engine.call_function(&f, &[1]);
    assert!(matches!(r, Err(InvokeError::MemoryFault)));
}

#[test]
fn shutdown_clears_the_export_list_and_refuses_calls() {
    let mut core = spine::sandbox::SandboxedCore::new("solo", IDENTITY_WAT.as_bytes()).expect("construct");
    core.load().expect("load");
    assert_eq!(core.get_fn_address_list().len(), 2);
    let f = FuncId::from_name("solo", "identity");
    assert!(core.call_function(&f, &[1, 2]).is_ok());

    core.shutdown();
    assert!(core.get_fn_address_list().is_empty());
    assert!(matches!(core.call_function(&f, &[1, 2]), Err(InvokeError::Unavailable)));
    // Safe to call again, with the same final state.
    core.shutdown();
    assert!(core.get_fn_address_list().is_empty());
}

#[test]
fn several_plugins_load_in_one_call() {
    let mut engine: TestEngine = PluginEngine::new();
    let plugins = vec![
        (String::from("alpha"), IDENTITY_WAT.as_bytes().to_vec()),
        (String::from("beta"), MATH_WAT.as_bytes().to_vec()),
    ];
    engine.load_plugins(&plugins).expect("both load");
    let f = FuncId::from_name("alpha", "identity");
    let g = FuncId::from_name("beta", "add");
    assert_eq!(engine.call_function(&f, &[7]).expect("identity").data, vec![7]);
    assert_eq!(
        engine.call_function(&g, &encode_pair(1, 2)).expect("add").data,
        3u32.to_le_bytes().to_vec()
    );
}

#[test]
fn a_failing_plugin_stops_the_batch_but_keeps_earlier_loads() {
    let mut engine: TestEngine = PluginEngine::new();
    let plugins = vec![
        (String::from("alpha"), IDENTITY_WAT.as_bytes().to_vec()),
        (String::from("broken"), b"garbage".to_vec()),
        (String::from("beta"), MATH_WAT.as_bytes().to_vec()),
    ];
    let r = engine.load_plugins(&plugins);
    assert!(matches!(r, Err(LoadError::Malformed)));
    let f = FuncId::from_name("alpha", "identity");
    assert!(engine.call_function(&f, &[1]).is_ok());
    let g = FuncId::from_name("beta", "add");
    assert!(matches!(engine.call_function(&g, &[]), Err(InvokeError::NotFound)));
}
