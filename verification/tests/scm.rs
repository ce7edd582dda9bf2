use cleo::scripts::scm::{
    opcode_issue, Command, CompatReport, Disassembly, Instr, Issue, Location, Param, ParamType,
    Pointer, ReadError, Value, Variable,
};
use std::collections::HashMap;

fn param(param_type: ParamType) -> Param {
    Param { param_type, location: Location::Local, is_variadic: false, is_output: false }
}

fn commands() -> HashMap<u16, Command> {
    let mut map = HashMap::new();
    map.insert(
        0x0001,
        Command { opcode: 0x0001, name: "wait".to_string(), returns: false, params: vec![param(ParamType::Integer)] },
    );
    map.insert(
        0x0002,
        Command { opcode: 0x0002, name: "goto".to_string(), returns: false, params: vec![param(ParamType::Pointer)] },
    );
    map.insert(
        0x004d,
        Command { opcode: 0x004d, name: "goto_if_false".to_string(), returns: false, params: vec![param(ParamType::Pointer)] },
    );
    map.insert(
        0x0051,
        Command { opcode: 0x0051, name: "return".to_string(), returns: false, params: vec![] },
    );
    map.insert(
        0x0dd5,
        Command { opcode: 0x0dd5, name: "android_only".to_string(), returns: false, params: vec![] },
    );
    map.insert(
        0x0dd0,
        Command { opcode: 0x0dd0, name: "arm_code".to_string(), returns: false, params: vec![] },
    );
    map
}

fn integer(v: &Value) -> Option<i64> {
    match v {
        Value::Integer(i) => Some(*i),
        _ => None,
    }
}

#[test]
fn read_integer_types() {
    let (v, next) = Value::read(&[1, 0x2a, 0, 0, 0], 0).unwrap();
    assert_eq!(integer(&v), Some(42));
    assert_eq!(next, 5);
    let (v, next) = Value::read(&[4, 0xff], 0).unwrap();
    assert_eq!(integer(&v), Some(-1));
    assert_eq!(next, 2);
    let (v, next) = Value::read(&[5, 0x34, 0x12], 0).unwrap();
    assert_eq!(integer(&v), Some(0x1234));
    assert_eq!(next, 3);
    let (v, _) = Value::read(&[1, 0xff, 0xff, 0xff, 0xff], 0).unwrap();
    assert_eq!(integer(&v), Some(-1));
}

#[test]
fn read_real_variable_and_strings() {
    match Value::read(&[6, 0, 0, 0x80, 0x3f], 0).unwrap() {
        (Value::Real(bits), 5) => assert_eq!(f32::from_bits(bits), 1.0),
        other => panic!("unexpected {:?}", other),
    }
    match Value::read(&[2, 5, 0], 0).unwrap() {
        (Value::Variable(Variable { value, location }), 3) => {
            assert_eq!(value, 5);
            assert_eq!(location, Location::Global);
        }
        other => panic!("unexpected {:?}", other),
    }
    match Value::read(&[3, 7, 0], 0).unwrap() {
        (Value::Variable(v), 3) => assert_eq!(v.location, Location::Local),
        other => panic!("unexpected {:?}", other),
    }
    match Value::read(&[9, b'H', b'i', 0, 0, 0, 0, 0, 0], 0).unwrap() {
        (Value::String(s), 9) => assert_eq!(s, "Hi"),
        other => panic!("unexpected {:?}", other),
    }
    match Value::read(&[0x0e, 3, b'a', b'b', b'c'], 0).unwrap() {
        (Value::String(s), 5) => assert_eq!(s, "abc"),
        other => panic!("unexpected {:?}", other),
    }
    match Value::read(&[7, 1, 2, 3, 4, 5, 6], 0).unwrap() {
        (Value::Array(_), 7) => {}
        other => panic!("unexpected {:?}", other),
    }
}

#[test]
fn read_errors() {
    assert_eq!(Value::read(&[], 0).unwrap_err(), ReadError::UnexpectedEof);
    assert_eq!(Value::read(&[0x20], 0).unwrap_err(), ReadError::UnknownType(0x20));
    assert_eq!(Value::read(&[1, 1], 0).unwrap_err(), ReadError::UnexpectedEof);
    assert_eq!(Value::read(&[9, b'a'], 0).unwrap_err(), ReadError::UnexpectedEof);
}

#[test]
fn write_then_read_gives_value_back() {
    let mut out = Vec::new();
    let count = Value::Integer(-123456).write(&mut out);
    assert_eq!(count, 5);
    assert_eq!(out, vec![1, 0xc0, 0x1d, 0xfe, 0xff]);
    let (v, next) = Value::read(&out, 0).unwrap();
    assert_eq!(integer(&v), Some(-123456));
    assert_eq!(next, 5);

    let mut out = Vec::new();
    Value::Pointer(Pointer::from_i64(77)).write(&mut out);
    let (v, _) = Value::read(&out, 0).unwrap();
    assert_eq!(integer(&v), Some(77));

    let mut out = Vec::new();
    let count = Value::String("hey".to_string()).write(&mut out);
    assert_eq!(count, 5);
    assert_eq!(out, vec![0x0e, 3, b'h', b'e', b'y']);
    match Value::read(&out, 0).unwrap() {
        (Value::String(s), 5) => assert_eq!(s, "hey"),
        other => panic!("unexpected {:?}", other),
    }
}

#[test]
fn into_basic_turns_models_and_pointers_into_integers() {
    assert_eq!(integer(&Value::Model(12).into_basic()), Some(12));
    assert_eq!(integer(&Value::Pointer(Pointer(-4)).into_basic()), Some(-4));
}

#[test]
fn pointer_parameters_read_pointers() {
    let p = param(ParamType::Pointer);
    match p.read(&[1, 0xf6, 0xff, 0xff, 0xff], 0).unwrap() {
        (Value::Pointer(ptr), 5) => assert_eq!(ptr.0, -10),
        other => panic!("unexpected {:?}", other),
    }
    let q = param(ParamType::Integer);
    assert_eq!(integer(&q.read(&[4, 9], 0).unwrap().0), Some(9));
}

#[test]
fn pointers_local_and_absolute() {
    let local = Pointer::from_i64(-10);
    assert!(local.is_local());
    assert_eq!(local.absolute(), 10);
    let global = Pointer::from_i64(300);
    assert!(!global.is_local());
    assert_eq!(global.absolute(), 300);
    assert_eq!(Variable::new_local(8).location, Location::Local);
}

#[test]
fn read_instruction() {
    let cmds = commands();
    let (instr, next) = Instr::read(&cmds, &[0x01, 0x00, 4, 5], 0).unwrap();
    assert_eq!(instr.opcode, 1);
    assert_eq!(instr.offset, 0);
    assert!(!instr.bool_inverted);
    assert_eq!(instr.args.len(), 1);
    assert_eq!(integer(&instr.args[0]), Some(5));
    assert_eq!(next, 4);

    let (instr, _) = Instr::read(&cmds, &[0, 0, 0x01, 0x80, 4, 5], 2).unwrap();
    assert!(instr.bool_inverted);
    assert_eq!(instr.offset, 2);

    assert_eq!(Instr::read(&cmds, &[0x99, 0x01], 0).unwrap_err(), ReadError::UnknownOpcode(0x199));
    assert_eq!(Instr::read(&cmds, &[0x01], 0).unwrap_err(), ReadError::UnexpectedEof);
    assert_eq!(Instr::read(&cmds, &[0x01, 0x00, 4], 0).unwrap_err(), ReadError::UnexpectedEof);
}

#[test]
fn next_offsets_follow_jumps() {
    let goto = Instr::new(0x0002, vec![Value::Pointer(Pointer(-20))]);
    assert_eq!(goto.next_offsets(10), vec![20]);
    let branch = Instr::new(0x004d, vec![Value::Pointer(Pointer(-8))]);
    assert_eq!(branch.next_offsets(10), vec![10, 8]);
    let ret = Instr::new(0x0051, vec![]);
    assert_eq!(ret.next_offsets(10), Vec::<u64>::new());
    let plain = Instr::new(0x0001, vec![Value::Integer(5)]);
    assert_eq!(plain.next_offsets(4), vec![4]);
    let global_jump = Instr::new(0x0002, vec![Value::Pointer(Pointer(100))]);
    assert_eq!(global_jump.next_offsets(4), Vec::<u64>::new());
}

#[test]
fn write_instruction_roundtrip() {
    let cmds = commands();
    let mut out = Vec::new();
    Instr::new(0x0001, vec![Value::Integer(250)]).write(&mut out);
    let (instr, next) = Instr::read(&cmds, &out, 0).unwrap();
    assert_eq!(instr.opcode, 1);
    assert_eq!(integer(&instr.args[0]), Some(250));
    assert_eq!(next as usize, out.len());

    let mut out = vec![9u8];
    let count = Instr::new(0x0002, vec![Value::String("ab".to_string()), Value::Integer(1)]).write(&mut out);
    assert_eq!(count, 2 + 4 + 5);
    assert_eq!(count, out.len() - 1);
}

#[test]
fn disassembly_follows_every_path() {
    let cmds = commands();
    // 0: goto_if_false -> 13; 7: android-only opcode; 9: return; 11: unreachable junk; 13: arm code; 15: return
    let bytecode = vec![
        0x4d, 0x00, 1, 0xf3, 0xff, 0xff, 0xff, // goto_if_false -13
        0xd5, 0x0d, // 0dd5
        0x51, 0x00, // return
        0xee, 0xee, // never reached
        0xd0, 0x0d, // 0dd0
        0x51, 0x00, // return
    ];
    let d = Disassembly::disasm_all(&cmds, &bytecode);
    let mut offsets: Vec<u64> = d.instrs.keys().copied().collect();
    offsets.sort();
    assert_eq!(offsets, vec![0, 7, 9, 13, 15]);
    assert_eq!(d.order.len(), 5);
    assert_eq!(d.order[0], 0);

    let report = CompatReport::scan(&cmds, &bytecode);
    assert_eq!(report.issues.len(), 2);
    assert!(report.issues.iter().any(|i| matches!(i, Issue::NotImpl)));
    assert!(report.issues.iter().any(|i| matches!(i, Issue::BadArch)));
}

#[test]
fn opcode_issues_and_messages() {
    assert!(matches!(opcode_issue(0x0dd5), Some(Issue::NotImpl)));
    assert!(matches!(opcode_issue(0x0df6), Some(Issue::NotImpl)));
    assert!(matches!(opcode_issue(0x0dd0), Some(Issue::BadArch)));
    assert!(matches!(opcode_issue(0x0dde), Some(Issue::BadArch)));
    assert!(opcode_issue(0x0001).is_none());
    assert_eq!(Issue::Duplicate("main".to_string()).message(), "Duplicate of 'main'.");
    assert_eq!(Issue::NotImpl.message(), "Requires features unavailable on iOS.");
    assert_eq!(Issue::BadArch.message(), "Contains some iOS-incompatible code.");
    assert_eq!(Issue::Unchecked.message(), "Script check failed.");
}
