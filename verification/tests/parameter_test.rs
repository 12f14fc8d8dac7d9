use visgen_graph::{
    ControlMessage, FloatMicro, Parameter, ParameterEnd, ParameterEndpoint, ParameterFactory,
    ParameterHandle, ParameterStore, Value,
};

#[test]
fn test_integration_parameters() {
    let mut store = ParameterStore::new();
    let mut endpoints: Vec<ParameterEndpoint<FloatMicro>> = Vec::new();

    {
        let mut factory = ParameterFactory::new("group_a".to_string());
        endpoints.push(factory.build("a".to_string(), &mut store));
        endpoints.push(factory.build("b".to_string(), &mut store));
        endpoints.push(factory.build("c".to_string(), &mut store));
        endpoints.push(factory.build("d".to_string(), &mut store));
        factory.path("group_b".to_string());
        endpoints.push(factory.build("a".to_string(), &mut store));
        endpoints.push(factory.build("b".to_string(), &mut store));
        endpoints.push(factory.build("c".to_string(), &mut store));
        endpoints.push(factory.build("d".to_string(), &mut store));
    }

    // all parameters == default
    assert!(endpoints.iter().all(|f| { f.get(&store) == FloatMicro(0) }));

    // construct a control message
    let end_i: usize = 1;
    let value = FloatMicro(123450);
    let addr_a = "group_a/b".to_string();
    let mut msg = ControlMessage {
        addr: addr_a.clone(),
        args: Some(vec![Value::Float(value)]),
    };

    // all parameters == default
    assert!(endpoints.iter().all(|f| { f.get(&store) == FloatMicro(0) }));
    store.update(&msg);
    match &store.get_path_value(&addr_a).unwrap()[0] {
        Value::Float(f) => assert_eq!(*f, value),
        other => panic!("unexpected value kind {:?}", other),
    }
    assert_eq!(endpoints[end_i].get(&store), value);

    msg.addr = "group_b/c".to_string();
    store.update(&msg);

    {
        // handles make access to the store transparent
        let handles: Vec<ParameterHandle<FloatMicro>> =
            endpoints.iter().map(|f| f.bind(&store)).collect();

        for hand in handles {
            let val: FloatMicro = hand.into();
            println!("{}", val.0)
        }
    }

    msg.addr = "group_b/c".to_string();
    store.update(&msg);
    assert_eq!(endpoints[6].get(&store), value);
}

#[test]
fn register_twice_returns_same_handle_and_keeps_size() {
    let mut store = ParameterStore::new();
    let e1 = ParameterEndpoint::new(FloatMicro(0), "same/path".to_string(), &mut store);
    let size_before = store.size();
    let e2 = ParameterEndpoint::new(FloatMicro(5), "same/path".to_string(), &mut store);
    let size_after = store.size();
    assert_eq!(e1.p_index, e2.p_index);
    assert_eq!(size_before, size_after);

    // the same through the raw registration entry point
    let i1 = store.insert_parameter(Parameter::new(
        "same/path".to_string(),
        vec![Value::Int(1)],
    ));
    assert_eq!(i1, e1.p_index);
    assert_eq!(store.size(), size_before);
}

#[test]
fn get_vec_length_is_stable_under_shape_mismatch() {
    let mut store = ParameterStore::new();
    let ep = ParameterEndpoint::new_len(FloatMicro(7), 3, "vec/param".to_string(), &mut store);

    // fresh endpoint: three defaults
    assert_eq!(ep.get_vec(&store), vec![FloatMicro(7); 3]);

    // a shape-mismatched external update (one value instead of three)
    store.update(&ControlMessage {
        addr: "vec/param".to_string(),
        args: Some(vec![Value::Float(FloatMicro(1))]),
    });
    assert_eq!(ep.get_vec(&store).len(), 3);
    assert_eq!(ep.get_vec(&store), vec![FloatMicro(7); 3]);

    // a type-mismatched update of the right length: all-or-nothing fallback
    store.update(&ControlMessage {
        addr: "vec/param".to_string(),
        args: Some(vec![
            Value::Float(FloatMicro(1)),
            Value::Int(2),
            Value::Float(FloatMicro(3)),
        ]),
    });
    assert_eq!(ep.get_vec(&store), vec![FloatMicro(7); 3]);

    // a well-shaped update comes through whole
    store.update(&ControlMessage {
        addr: "vec/param".to_string(),
        args: Some(vec![
            Value::Float(FloatMicro(1)),
            Value::Float(FloatMicro(2)),
            Value::Float(FloatMicro(3)),
        ]),
    });
    assert_eq!(
        ep.get_vec(&store),
        vec![FloatMicro(1), FloatMicro(2), FloatMicro(3)]
    );
}

#[test]
fn direct_set_and_no_cross_contamination() {
    // store has /a/x = 1.0 and /a/y = 2.0; a control message sets /a/x = 5.0
    let mut store = ParameterStore::new();
    store.insert_parameter(Parameter::new(
        "/a/x".to_string(),
        vec![Value::Float(FloatMicro(1_000_000))],
    ));
    store.insert_parameter(Parameter::new(
        "/a/y".to_string(),
        vec![Value::Float(FloatMicro(2_000_000))],
    ));

    store.update(&ControlMessage {
        addr: "/a/x".to_string(),
        args: Some(vec![Value::Float(FloatMicro(5_000_000))]),
    });

    match &store.get_path_value(&"/a/x".to_string()).unwrap()[0] {
        Value::Float(f) => assert_eq!(*f, FloatMicro(5_000_000)),
        other => panic!("unexpected value kind {:?}", other),
    }
    match &store.get_path_value(&"/a/y".to_string()).unwrap()[0] {
        Value::Float(f) => assert_eq!(*f, FloatMicro(2_000_000)),
        other => panic!("unexpected value kind {:?}", other),
    }
}

#[test]
fn unknown_address_update_is_dropped() {
    let mut store = ParameterStore::new();
    store.insert_parameter(Parameter::new(
        "known".to_string(),
        vec![Value::Int(1)],
    ));
    store.update(&ControlMessage {
        addr: "unknown".to_string(),
        args: Some(vec![Value::Int(9)]),
    });
    assert!(store.get_path_value(&"unknown".to_string()).is_none());
    match &store.get_path_value(&"known".to_string()).unwrap()[0] {
        Value::Int(i) => assert_eq!(*i, 1),
        other => panic!("unexpected value kind {:?}", other),
    }
    assert_eq!(store.size(), 1);
}

#[test]
fn endpoint_scalar_fallbacks() {
    let mut store = ParameterStore::new();
    let ep: ParameterEndpoint<i32> =
        ParameterEndpoint::new(42, "int/param".to_string(), &mut store);
    assert_eq!(ep.get(&store), 42);

    // type mismatch falls back to the default
    store.update(&ControlMessage {
        addr: "int/param".to_string(),
        args: Some(vec![Value::Text("oops".to_string())]),
    });
    assert_eq!(ep.get(&store), 42);

    // matching kind comes through
    store.update(&ControlMessage {
        addr: "int/param".to_string(),
        args: Some(vec![Value::Int(7)]),
    });
    assert_eq!(ep.get(&store), 7);

    // an endpoint whose handle was never issued reads the default
    let dangling = ParameterEndpoint {
        length: 1,
        default: 13i32,
        p_index: 999,
    };
    assert_eq!(dangling.get(&store), 13);
    assert_eq!(ep.len(), 1);
}

#[test]
fn snapshot_is_a_deep_copy() {
    let mut store = ParameterStore::new();
    store.insert_parameter(Parameter::new(
        "p".to_string(),
        vec![Value::Int(1), Value::Bool(true)],
    ));
    let snap = store.config_copy();
    store.update(&ControlMessage {
        addr: "p".to_string(),
        args: Some(vec![Value::Int(2), Value::Bool(false)]),
    });
    assert_eq!(snap.len(), 1);
    match &snap[0].values[0] {
        Value::Int(i) => assert_eq!(*i, 1),
        other => panic!("unexpected value kind {:?}", other),
    }
}

#[test]
fn message_without_values_is_a_no_op() {
    let mut store = ParameterStore::new();
    store.insert_parameter(Parameter::new("p".to_string(), vec![Value::Int(3)]));
    store.update(&ControlMessage {
        addr: "p".to_string(),
        args: None,
    });
    match &store.get_path_value(&"p".to_string()).unwrap()[0] {
        Value::Int(i) => assert_eq!(*i, 3),
        other => panic!("unexpected value kind {:?}", other),
    }
}

#[test]
fn handle_reads_vectors_through_the_bound_store() {
    let mut store = ParameterStore::new();
    let ep = ParameterEndpoint::new_len(FloatMicro(1), 2, "pair".to_string(), &mut store);
    store.update(&ControlMessage {
        addr: "pair".to_string(),
        args: Some(vec![
            Value::Float(FloatMicro(10)),
            Value::Float(FloatMicro(20)),
        ]),
    });
    let hand = ep.bind(&store);
    assert_eq!(hand.value(), FloatMicro(10));
    assert_eq!(hand.values(), vec![FloatMicro(10), FloatMicro(20)]);
    assert!(!ep.is_empty());
}
