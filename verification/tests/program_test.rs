use visgen_graph::{
    ControlMessage, FloatMicro, LoadStoreError, Parameter, ParameterStore, PersistAction, Program,
    ProgramManager, ProgramSwitcher, Value,
};

fn store_with(entries: &[(&str, i64)]) -> ParameterStore {
    let mut store = ParameterStore::new();
    for (addr, micro) in entries {
        store.insert_parameter(Parameter::new(
            addr.to_string(),
            vec![Value::Float(FloatMicro(*micro))],
        ));
    }
    store
}

fn float_at(store: &ParameterStore, addr: &str) -> i64 {
    match &store.get_path_value(&addr.to_string()).unwrap()[0] {
        Value::Float(f) => f.0,
        other => panic!("unexpected value kind {:?}", other),
    }
}

#[test]
fn switcher_requires_matching_snapshots() {
    let target = store_with(&[("/a", 1_000_000), ("/b", 2_000_000)]);
    let prog = Program::new(1_000_000, 0, None, &target);

    // matching store: the switcher is created
    let live = store_with(&[("/a", 0), ("/b", 0)]);
    assert!(ProgramSwitcher::new(&prog, 0, &live).is_some());

    // different length: no switcher
    let short = store_with(&[("/a", 0)]);
    assert!(ProgramSwitcher::new(&prog, 0, &short).is_none());

    // same length, different address order: no switcher
    let reordered = store_with(&[("/b", 0), ("/a", 0)]);
    assert!(ProgramSwitcher::new(&prog, 0, &reordered).is_none());

    // same length, one renamed address: no switcher
    let renamed = store_with(&[("/a", 0), ("/c", 0)]);
    assert!(ProgramSwitcher::new(&prog, 0, &renamed).is_none());
}

#[test]
fn fade_scenario_linear_two_seconds() {
    // program: delay 2.0 s, identity easing, target x = 10.0, from x = 0.0
    let target = store_with(&[("/x", 10_000_000)]);
    let prog = Program::new(2_000_000, 0, None, &target);

    let mut live = store_with(&[("/x", 0)]);
    let sw = ProgramSwitcher::new(&prog, 0, &live).unwrap();

    // halfway through the fade: x is (about) 5.0 and the fade still runs
    let running = sw.update(1_000_000, &mut live);
    assert!(running);
    assert_eq!(float_at(&live, "/x"), 5_000_000);

    // just past the delay: the fade reports complete and x is exactly 10.0
    let running = sw.update(2_000_001, &mut live);
    assert!(!running);
    assert_eq!(float_at(&live, "/x"), 10_000_000);
}

#[test]
fn fade_with_zero_delay_completes_in_one_step() {
    let target = store_with(&[("/x", 4_000_000)]);
    let prog = Program::new(0, 0, None, &target);
    let mut live = store_with(&[("/x", 0)]);
    let sw = ProgramSwitcher::new(&prog, 100, &live).unwrap();
    let running = sw.update(100, &mut live);
    assert!(!running);
    assert_eq!(float_at(&live, "/x"), 4_000_000);
}

#[test]
fn unknown_easing_id_falls_back_to_linear() {
    let target = store_with(&[("/x", 10_000_000)]);
    let prog = Program::new(2_000_000, 77, None, &target);
    let mut live = store_with(&[("/x", 0)]);
    let sw = ProgramSwitcher::new(&prog, 0, &live).unwrap();
    sw.update(1_000_000, &mut live);
    // linear fade: exactly halfway
    assert_eq!(float_at(&live, "/x"), 5_000_000);
}

#[test]
fn manager_add_and_run_via_control_messages() {
    let mut mgr = ProgramManager::new();
    let live = store_with(&[("/x", 3_000_000)]);

    // snapshot the store into program 1
    let act = mgr.update_osc(
        0,
        &live,
        &ControlMessage {
            addr: "/program/add".to_string(),
            args: Some(vec![Value::Int(1)]),
        },
    );
    assert!(act.is_none());

    // change the live value, then run program 1 to fade back
    let mut live = store_with(&[("/x", 0)]);
    let act = mgr.update_osc(
        0,
        &live,
        &ControlMessage {
            addr: "/program/run".to_string(),
            args: Some(vec![Value::Int(1)]),
        },
    );
    assert!(act.is_none());

    // the default meta delay is 10 units; at 5 units the fade is halfway
    mgr.update(5_000_000, &mut live);
    assert_eq!(float_at(&live, "/x"), 1_500_000);

    // after the delay the fade completes at the stored value
    mgr.update(10_000_001, &mut live);
    assert_eq!(float_at(&live, "/x"), 3_000_000);
}

#[test]
fn manager_meta_parameters_shape_new_programs() {
    let mut mgr = ProgramManager::new();
    let live = store_with(&[("/x", 8_000_000)]);

    // set the fade delay meta-parameter to 2.0 units
    mgr.update_osc(
        0,
        &live,
        &ControlMessage {
            addr: "/program/delay".to_string(),
            args: Some(vec![Value::Float(FloatMicro(2_000_000))]),
        },
    );
    mgr.update_osc(
        0,
        &live,
        &ControlMessage {
            addr: "/program/add".to_string(),
            args: Some(vec![Value::Int(4)]),
        },
    );

    let mut live = store_with(&[("/x", 0)]);
    assert!(mgr.run(4, 0, &live));
    mgr.update(1_000_000, &mut live);
    assert_eq!(float_at(&live, "/x"), 4_000_000);
}

#[test]
fn run_with_unknown_program_cancels_and_reports() {
    let mut mgr = ProgramManager::new();
    let live = store_with(&[("/x", 0)]);
    assert!(!mgr.run(9, 0, &live));
    // no fade is active: the store stays untouched
    let mut live = live;
    mgr.update(1_000_000, &mut live);
    assert_eq!(float_at(&live, "/x"), 0);
}

#[test]
fn run_with_mismatched_store_reports_failure() {
    let mut mgr = ProgramManager::new();
    let snap = store_with(&[("/x", 1)]);
    mgr.add(1, &snap);
    let other = store_with(&[("/y", 1)]);
    assert!(!mgr.run(1, 0, &other));
}

#[test]
fn store_and_load_commands_surface_persist_actions() {
    let mut mgr = ProgramManager::new();
    let live = store_with(&[("/x", 0)]);

    let act = mgr.update_osc(
        0,
        &live,
        &ControlMessage {
            addr: "/program/store".to_string(),
            args: Some(vec![Value::Text("bank.bin".to_string())]),
        },
    );
    assert!(matches!(act, Some(PersistAction::Store(s)) if s == "bank.bin"));

    let act = mgr.update_osc(
        0,
        &live,
        &ControlMessage {
            addr: "/program/load".to_string(),
            args: Some(vec![Value::Text("bank.bin".to_string())]),
        },
    );
    assert!(matches!(act, Some(PersistAction::Load(s)) if s == "bank.bin"));

    // a command address with the wrong argument kind does nothing
    let act = mgr.update_osc(
        0,
        &live,
        &ControlMessage {
            addr: "/program/store".to_string(),
            args: Some(vec![Value::Int(1)]),
        },
    );
    assert!(act.is_none());
}

#[test]
fn load_failure_keeps_programs_and_reports_decode_error() {
    let mut mgr = ProgramManager::new();
    let snap = store_with(&[("/x", 9)]);
    mgr.add(1, &snap);

    let garbage = vec![1u8, 2, 3];
    let r = mgr.load_bytes(&garbage);
    assert_eq!(r, Err(LoadStoreError::DeserializeError));

    // the prior bank is still there: program 1 still runs
    assert!(mgr.run(1, 0, &snap));
}

#[test]
fn auto_chain_starts_next_fade_on_completion() {
    let mut mgr = ProgramManager::new();

    // program 2: plain target x = 2.0
    let snap2 = store_with(&[("/x", 2_000_000)]);
    mgr.update_osc(
        0,
        &snap2,
        &ControlMessage {
            addr: "/program/delay".to_string(),
            args: Some(vec![Value::Float(FloatMicro(1_000_000))]),
        },
    );
    mgr.add(2, &snap2);

    // program 1 chains to program 2
    let snap1 = store_with(&[("/x", 1_000_000)]);
    mgr.update_osc(
        0,
        &snap1,
        &ControlMessage {
            addr: "/program/auto_next".to_string(),
            args: Some(vec![Value::Int(2)]),
        },
    );
    mgr.add(1, &snap1);

    let mut live = store_with(&[("/x", 0)]);
    assert!(mgr.run(1, 0, &live));

    // first fade completes: x reaches 1.0 and the chained fade begins
    mgr.update(1_000_001, &mut live);
    assert_eq!(float_at(&live, "/x"), 1_000_000);

    // the chained fade then drives x towards 2.0
    mgr.update(2_000_002, &mut live);
    assert_eq!(float_at(&live, "/x"), 2_000_000);
}
