use spine::ident::FuncId;

#[test]
fn from_name_is_deterministic() {
    let a = FuncId::from_name("math", "add");
    let b = FuncId::from_name("math", "add");
    assert_eq!(a, b);
    let c = FuncId::from_name(&String::from("math"), &String::from("add"));
    assert_eq!(a, c);
}

#[test]
fn namespace_is_part_of_the_hash() {
    // Two cores may both export a function literally named "identity";
    // they must resolve to two distinct identifiers.
    let a = FuncId::from_name("core_a", "identity");
    let b = FuncId::from_name("core_b", "identity");
    assert_ne!(a, b);
}

#[test]
fn namespace_and_name_do_not_blur() {
    // The boundary between namespace and name is part of the input.
    let a = FuncId::from_name("ab", "c");
    let b = FuncId::from_name("a", "bc");
    assert_ne!(a, b);
    let c = FuncId::from_name("abc", "");
    assert_ne!(a, c);
    assert_ne!(b, c);
}

#[test]
fn ten_thousand_distinct_pairs_no_collision() {
    let mut ids: Vec<(u64, u64)> = Vec::new();
    for i in 0..100 {
        for j in 0..100 {
            let ns = format!("plugin_{}", i);
            let name = format!("func_{}_{}", i, j);
            let id = FuncId::from_name(&ns, &name);
            ids.push((id.hi, id.lo));
        }
    }
    assert_eq!(ids.len(), 10_000);
    ids.sort();
    for w in ids.windows(2) {
        assert_ne!(w[0], w[1], "collision among generated identifiers");
    }
}

#[test]
fn empty_inputs_hash() {
    let a = FuncId::from_name("", "");
    let b = FuncId::from_name("", "");
    assert_eq!(a, b);
    assert_ne!(a, FuncId::from_name("", "x"));
    assert_ne!(a, FuncId::from_name("x", ""));
}

#[test]
fn wire_bytes_are_big_endian_and_sixteen_long() {
    let id = FuncId { hi: 0x0102030405060708, lo: 0x090A0B0C0D0E0F10 };
    let bytes = id.to_bytes();
    assert_eq!(
        bytes,
        vec![1, 2, 3, 4, 5, 6, 7, 8, 9, 10, 11, 12, 13, 14, 15, 16]
    );
}

#[test]
fn wire_round_trip_restores_the_identifier() {
    for (ns, name) in [("math", "add"), ("", ""), ("a", "very_long_function_name")] {
        let id = FuncId::from_name(ns, name);
        let back = FuncId::from_bytes(&id.to_bytes()).expect("16 bytes");
        assert_eq!(back, id);
    }
}

#[test]
fn only_sixteen_byte_buffers_denote_an_identifier() {
    assert!(FuncId::from_bytes(&[]).is_none());
    assert!(FuncId::from_bytes(&[0; 15]).is_none());
    assert!(FuncId::from_bytes(&[0; 17]).is_none());
    let id = FuncId::from_bytes(&[0xFF; 16]).expect("exactly 16");
    assert_eq!(id.hi, u64::MAX);
    assert_eq!(id.lo, u64::MAX);
}
