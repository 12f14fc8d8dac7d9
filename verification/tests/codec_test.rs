use visgen_graph::{
    decode_table, encode_table, DoubleMicro, FloatMicro, OscColorDef, OscMidiMessageDef,
    Parameter, ParameterStore, Program, ProgramManager, Value,
};

fn rich_store() -> ParameterStore {
    let mut store = ParameterStore::new();
    // one multi-value parameter
    store.insert_parameter(Parameter::new(
        "/multi".to_string(),
        vec![
            Value::Float(FloatMicro(1_000_000)),
            Value::Float(FloatMicro(2_000_000)),
            Value::Float(FloatMicro(3_000_000)),
        ],
    ));
    // one single-value parameter
    store.insert_parameter(Parameter::new(
        "/single".to_string(),
        vec![Value::Int(42)],
    ));
    // one color-typed parameter
    store.insert_parameter(Parameter::new(
        "/color".to_string(),
        vec![Value::Color(OscColorDef {
            red: 10,
            green: 20,
            blue: 30,
            alpha: 255,
        })],
    ));
    store
}

fn assert_same_params(a: &Parameter, b: &Parameter) {
    assert_eq!(a.address, b.address);
    assert_eq!(a.values.len(), b.values.len());
    for (x, y) in a.values.iter().zip(b.values.iter()) {
        assert_eq!(format!("{:?}", x), format!("{:?}", y));
    }
}

#[test]
fn program_bank_store_load_round_trip() {
    let mut mgr = ProgramManager::new();
    mgr.add(1, &rich_store());
    mgr.add(7, &ParameterStore::new());

    let bytes = mgr.store_bytes();

    let mut other = ProgramManager::new();
    assert_eq!(other.load_bytes(&bytes), Ok(()));

    // the reloaded bank re-encodes to the same bytes: nothing was lost
    assert_eq!(other.store_bytes(), bytes);

    // and the reloaded program still fades a matching store to the stored
    // values
    let mut live = ParameterStore::new();
    live.insert_parameter(Parameter::new(
        "/multi".to_string(),
        vec![Value::Nil, Value::Nil, Value::Nil],
    ));
    live.insert_parameter(Parameter::new("/single".to_string(), vec![Value::Int(0)]));
    live.insert_parameter(Parameter::new("/color".to_string(), vec![Value::Nil]));
    assert!(other.run(1, 0, &live));
    other.update(20_000_001, &mut live);
    match &live.get_path_value(&"/single".to_string()).unwrap()[0] {
        Value::Int(i) => assert_eq!(*i, 42),
        other => panic!("unexpected value kind {:?}", other),
    }
}

#[test]
fn table_round_trip_preserves_every_value_kind() {
    let mut store = ParameterStore::new();
    store.insert_parameter(Parameter::new(
        "/all/kinds".to_string(),
        vec![
            Value::Int(-3),
            Value::Float(FloatMicro(-1_500_000)),
            Value::Text("héllo wörld".to_string()),
            Value::Blob(vec![0, 1, 2, 254, 255]),
            Value::Time(123, 456),
            Value::Long(-9_000_000_000),
            Value::Double(DoubleMicro(7_250_000)),
            Value::Char('λ'),
            Value::Color(OscColorDef {
                red: 1,
                green: 2,
                blue: 3,
                alpha: 4,
            }),
            Value::Midi(OscMidiMessageDef {
                port: 9,
                status: 8,
                data1: 7,
                data2: 6,
            }),
            Value::Bool(true),
            Value::Bool(false),
            Value::Nil,
            Value::Inf,
        ],
    ));
    let table = vec![(5u32, Program::new(1_234_567, 3, Some(6), &store))];

    let bytes = encode_table(&table);
    let decoded = decode_table(&bytes).expect("round trip must succeed");

    assert_eq!(decoded.len(), 1);
    assert_eq!(decoded[0].0, 5);
    let prg = &decoded[0].1;
    assert_eq!(prg.delay(), 1_234_567);
    assert_eq!(prg.auto_next(), Some(6));
    assert_eq!(prg.config().len(), 1);
    assert_same_params(&prg.config()[0], &table[0].1.config()[0]);
}

#[test]
fn decode_rejects_garbage_and_truncation() {
    assert!(decode_table(&vec![]).is_none());
    assert!(decode_table(&vec![9u8; 5]).is_none());

    let mut mgr = ProgramManager::new();
    mgr.add(1, &rich_store());
    let bytes = mgr.store_bytes();

    // a truncated bank is rejected
    let cut = bytes[..bytes.len() - 1].to_vec();
    assert!(decode_table(&cut).is_none());

    // trailing bytes after the bank are rejected
    let mut long = bytes.clone();
    long.push(0);
    assert!(decode_table(&long).is_none());
}

#[test]
fn decode_rejects_duplicate_program_ids() {
    let store = ParameterStore::new();
    let table = vec![
        (3u32, Program::new(1, 0, None, &store)),
        (3u32, Program::new(2, 0, None, &store)),
    ];
    let bytes = encode_table(&table);
    assert!(decode_table(&bytes).is_none());
}

#[test]
fn decode_rejects_out_of_range_easing_ids() {
    let store = ParameterStore::new();
    let table = vec![(1u32, Program::new(5, 2, None, &store))];
    let mut bytes = encode_table(&table);
    assert!(decode_table(&bytes).is_some());
    // the layout is flat 64-bit words: count, program id, delay, easing;
    // the easing word starts at byte 24
    assert_eq!(bytes[24], 2);
    bytes[24] = 9;
    assert!(decode_table(&bytes).is_none());
}

#[test]
fn empty_bank_round_trips() {
    let table: Vec<(u32, Program)> = vec![];
    let bytes = encode_table(&table);
    let decoded = decode_table(&bytes).expect("empty bank must decode");
    assert!(decoded.is_empty());
}
