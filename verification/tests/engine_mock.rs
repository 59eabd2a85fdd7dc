use std::cell::RefCell;
use std::rc::Rc;

use spine::backend::Core;
use spine::fanout::SideEffect;
use spine::facade::{lazy_load_core_function, PluginEngine};
use spine::errors::{InvokeError, LoadError};
use spine::ident::FuncId;
use spine::message::Response;

/// An embedder-supplied backend for tests: echoes payloads, or traps on
/// demand.
struct MockCore {
    id: FuncId,
    fns: Vec<FuncId>,
    loaded: bool,
    trap: bool,
}

impl MockCore {
    fn new(name: &str, fn_names: &[&str], trap: bool) -> MockCore {
        let fns = fn_names.iter().map(|f| FuncId::from_name(name, f)).collect();
        MockCore { id: FuncId::from_name(name, name), fns, loaded: false, trap }
    }
}

impl Core for MockCore {

    // The trait's ghost items: only the verifier interprets these; they
    // are never called at runtime.
    fn spec_id(&self) -> FuncId {
        unreachable!()
    }

    fn exports(&self) -> vstd::seq::Seq<FuncId> {
        unreachable!()
    }

    fn fresh(&self) -> bool {
        unreachable!()
    }

    fn inv(&self) -> bool {
        unreachable!()
    }

    fn ready(&self) -> bool {
        unreachable!()
    }
    fn core_id(&self) -> FuncId {
        self.id
    }

    fn load(&mut self) -> Result<(), LoadError> {
        self.loaded = true;
        Ok(())
    }

    fn get_fn_address_list(&self) -> Vec<FuncId> {
        self.fns.clone()
    }

    fn call_function(&mut self, fn_id: &FuncId, message: &[u8]) -> Result<Response, InvokeError> {
        if !self.loaded {
            return Err(InvokeError::Unavailable);
        }
        if !self.fns.contains(fn_id) {
            return Err(InvokeError::NotFound);
        }
        if self.trap {
            return Err(InvokeError::BackendTrap);
        }
        Ok(Response { data: message.to_vec(), status: 0 })
    }

    fn shutdown(&mut self) {
        self.fns.clear();
        self.loaded = false;
    }
}

/// A test listener: records every message it is handed, or refuses them.
struct RecordingEffect {
    id: FuncId,
    fail: bool,
    seen: Rc<RefCell<Vec<Vec<u8>>>>,
}

impl SideEffect for RecordingEffect {

    // The trait's ghost item: only the verifier interprets it; it is
    // never called at runtime.
    fn spec_id(&self) -> FuncId {
        unreachable!()
    }
    fn get_id(&self) -> FuncId {
        self.id
    }

    fn copy_msg(&mut self, bytes: &[u8], len: usize) -> Result<(), ()> {
        assert_eq!(len, bytes.len());
        if self.fail {
            return Err(());
        }
        self.seen.borrow_mut().push(bytes.to_vec());
        Ok(())
    }
}

type TestEngine = PluginEngine<MockCore, RecordingEffect>;

#[test]
fn load_then_every_export_resolves_and_nothing_else() {
    let mut engine: TestEngine = PluginEngine::new();
    let core = MockCore::new("m", &["f", "g"], false);
    let core_id = engine.load_external_core(core).expect("load");

    let exported = engine.exported_functions(&core_id).expect("core registered");
    assert_eq!(exported.len(), 2);
    for f in &exported {
        let r = engine.call_function(f, &[1, 2, 3]);
        assert!(r.is_ok());
    }
    let other = FuncId::from_name("m", "missing");
    assert!(matches!(engine.call_function(&other, &[]), Err(InvokeError::NotFound)));
}

#[test]
fn fifty_distinct_payloads_come_back_uncontaminated() {
    let mut engine: TestEngine = PluginEngine::new();
    let core = MockCore::new("echo", &["e"], false);
    engine.load_external_core(core).expect("load");
    let f = FuncId::from_name("echo", "e");

    let mut results: Vec<Vec<u8>> = Vec::new();
    for i in 0..50u8 {
        let payload = vec![i, i.wrapping_mul(7), 0xA5];
        let r = engine.call_function(&f, &payload).expect("echo");
        assert_eq!(r.status, 0);
        results.push(r.data);
    }
    for i in 0..50u8 {
        assert_eq!(results[i as usize], vec![i, i.wrapping_mul(7), 0xA5]);
    }
}

#[test]
fn unknown_identifier_is_refused_without_any_change() {
    let mut engine: TestEngine = PluginEngine::new();
    let core = MockCore::new("m", &["f"], false);
    let core_id = engine.load_external_core(core).expect("load");
    let stray = FuncId { hi: 0xDEAD, lo: 0xBEEF };

    let r = engine.call_function(&stray, &[]);
    assert!(matches!(r, Err(InvokeError::NotFound)));
    // The registries are untouched: the loaded core still serves.
    assert!(engine.exported_functions(&core_id).is_some());
    let f = FuncId::from_name("m", "f");
    assert!(engine.call_function(&f, &[9]).is_ok());
}

#[test]
fn unload_unroutes_every_export() {
    let mut engine: TestEngine = PluginEngine::new();
    let core = MockCore::new("m", &["f", "g"], false);
    let core_id = engine.load_external_core(core).expect("load");
    let exported = engine.exported_functions(&core_id).expect("registered");

    engine.unload_core(&core_id);
    assert!(engine.exported_functions(&core_id).is_none());
    for f in &exported {
        let r = engine.call_function(f, &[1]);
        assert!(matches!(r, Err(InvokeError::NotFound)));
        assert!(lazy_load_core_function(&engine, f).is_none());
    }
    // Unloading is idempotent.
    engine.unload_core(&core_id);
    assert!(engine.exported_functions(&core_id).is_none());
}

#[test]
fn a_faulting_call_isolates_the_core() {
    let mut engine: TestEngine = PluginEngine::new();
    let core = MockCore::new("bad", &["t"], true);
    let core_id = engine.load_external_core(core).expect("load");
    let f = FuncId::from_name("bad", "t");

    let entry = lazy_load_core_function(&engine, &f).expect("routed");
    assert_eq!(entry.fn_id, f);
    assert_eq!(entry.core_id, core_id);

    let r = engine.call_function(&f, &[1]);
    assert!(matches!(r, Err(InvokeError::BackendTrap)));
    // Its routing records are purged in the same publish...
    assert!(matches!(engine.call_function(&f, &[1]), Err(InvokeError::NotFound)));
    assert!(lazy_load_core_function(&engine, &f).is_none());
    // ...while a direct call to the still-registered, faulted core is
    // refused as unavailable.
    let r2 = entry.call(&mut engine, &[1]);
    assert!(matches!(r2, Err(InvokeError::Unavailable)));
}

#[test]
fn duplicate_core_identifier_is_a_collision() {
    let mut engine: TestEngine = PluginEngine::new();
    let a = MockCore::new("twin", &["f"], false);
    let b = MockCore::new("twin", &["g"], false);
    engine.load_external_core(a).expect("first load");
    let r = engine.load_external_core(b);
    assert!(matches!(r, Err(LoadError::Collision)));
}

#[test]
fn duplicate_function_identifier_rejects_the_whole_registration() {
    let mut engine: TestEngine = PluginEngine::new();
    let a = MockCore::new("one", &["shared"], false);
    engine.load_external_core(a).expect("first load");

    // A second core claiming an already-registered function identifier.
    let shared = FuncId::from_name("one", "shared");
    let mut b = MockCore::new("two", &[], false);
    b.fns.push(shared);
    let second_id = FuncId::from_name("two", "two");
    let r = engine.load_external_core(b);
    assert!(matches!(r, Err(LoadError::Collision)));
    // All-or-nothing: the second core is not registered at all, and the
    // record still routes to its first owner.
    assert!(engine.exported_functions(&second_id).is_none());
    let entry = lazy_load_core_function(&engine, &shared).expect("kept");
    assert_eq!(entry.core_id, FuncId::from_name("one", "one"));
}

#[test]
fn failing_listener_changes_nothing_and_stops_nobody() {
    let mut engine: TestEngine = PluginEngine::new();
    let core = MockCore::new("m", &["f"], false);
    engine.load_external_core(core).expect("load");
    let f = FuncId::from_name("m", "f");

    let seen_ok = Rc::new(RefCell::new(Vec::new()));
    let failing = RecordingEffect {
        id: FuncId::from_name("listener", "failing"),
        fail: true,
        seen: Rc::new(RefCell::new(Vec::new())),
    };
    let recording = RecordingEffect {
        id: FuncId::from_name("listener", "recording"),
        fail: false,
        seen: Rc::clone(&seen_ok),
    };
    engine.register_side_effect(vec![f], failing);
    engine.register_side_effect(vec![f], recording);

    let r = engine.call_function(&f, &[4, 5, 6]).expect("call succeeds");
    // The failing handler did not change the result already returned...
    assert_eq!(r.data, vec![4, 5, 6]);
    assert_eq!(r.status, 0);
    // ...and did not stop delivery to the other listener.
    assert_eq!(seen_ok.borrow().as_slice(), &[vec![4, 5, 6]]);
}

#[test]
fn listeners_receive_only_matching_topics() {
    let mut engine: TestEngine = PluginEngine::new();
    let core = MockCore::new("m", &["f", "g"], false);
    engine.load_external_core(core).expect("load");
    let f = FuncId::from_name("m", "f");
    let g = FuncId::from_name("m", "g");

    let seen = Rc::new(RefCell::new(Vec::new()));
    let listener = RecordingEffect {
        id: FuncId::from_name("listener", "sub_f"),
        fail: false,
        seen: Rc::clone(&seen),
    };
    engine.register_side_effect(vec![f], listener);

    engine.call_function(&g, &[7]).expect("g");
    assert!(seen.borrow().is_empty());
    engine.call_function(&f, &[8]).expect("f");
    assert_eq!(seen.borrow().as_slice(), &[vec![8]]);
}

#[test]
fn unregistered_listener_is_no_longer_notified() {
    let mut engine: TestEngine = PluginEngine::new();
    let core = MockCore::new("m", &["f"], false);
    engine.load_external_core(core).expect("load");
    let f = FuncId::from_name("m", "f");

    let seen = Rc::new(RefCell::new(Vec::new()));
    let lid = FuncId::from_name("listener", "once");
    let listener = RecordingEffect { id: lid, fail: false, seen: Rc::clone(&seen) };
    engine.register_side_effect(vec![f], listener);
    engine.call_function(&f, &[1]).expect("first");
    engine.unregister_side_effect(&lid);
    engine.call_function(&f, &[2]).expect("second");
    assert_eq!(seen.borrow().as_slice(), &[vec![1]]);
}

#[test]
fn fire_and_forget_reaches_the_core_without_a_reply() {
    let mut engine: TestEngine = PluginEngine::new();
    let core = MockCore::new("m", &["f"], false);
    engine.load_external_core(core).expect("load");
    let f = FuncId::from_name("m", "f");
    // No reply channel: the call returns nothing and swallows unknowns.
    engine.fire_and_forget(&f, &[1, 2]);
    engine.fire_and_forget(&FuncId { hi: 1, lo: 2 }, &[]);
    // The engine still serves afterwards.
    assert!(engine.call_function(&f, &[3]).is_ok());
}

#[test]
fn reregistering_a_listener_replaces_its_subscription() {
    let mut engine: TestEngine = PluginEngine::new();
    let core = MockCore::new("m", &["f", "g"], false);
    engine.load_external_core(core).expect("load");
    let f = FuncId::from_name("m", "f");
    let g = FuncId::from_name("m", "g");

    let seen = Rc::new(RefCell::new(Vec::new()));
    let lid = FuncId::from_name("listener", "movable");
    let first = RecordingEffect { id: lid, fail: false, seen: Rc::clone(&seen) };
    engine.register_side_effect(vec![f], first);
    // The same identifier registered again: the new subscription set
    // replaces the old one, nothing is silently merged.
    let second = RecordingEffect { id: lid, fail: false, seen: Rc::clone(&seen) };
    engine.register_side_effect(vec![g], second);

    engine.call_function(&f, &[1]).expect("f");
    assert!(seen.borrow().is_empty());
    engine.call_function(&g, &[2]).expect("g");
    assert_eq!(seen.borrow().as_slice(), &[vec![2]]);
}

#[test]
fn fire_and_forget_faults_are_isolated_too() {
    let mut engine: TestEngine = PluginEngine::new();
    let core = MockCore::new("bad", &["t"], true);
    engine.load_external_core(core).expect("load");
    let f = FuncId::from_name("bad", "t");

    // The send has no reply channel, but a faulting core is still taken
    // out of the routing table.
    engine.fire_and_forget(&f, &[1]);
    assert!(matches!(engine.call_function(&f, &[1]), Err(InvokeError::NotFound)));
}
