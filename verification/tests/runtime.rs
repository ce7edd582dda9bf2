use cleo::scripts::js::{Attrs, Command, Extension, Meta, Root, VarHandle};
use cleo::meta::settings::Colour;
use cleo::scripts::runtime::{
    assign_states, decimal, gen_warning_string, generate_hash, get_csa_state, handler_slot,
    is_ready, load_invoked_script, load_running_script, load_script, next_csa_state, override_for,
    split_opcode, states_to_save, tab_data_csa, tab_data_csi, warning_message, CleoScript, CsaMenuInfo, CsaState,
    CsiMenuInfo, LoopGuard, MessageTint, MutexVars, Override, RowDetail, Script,
};
use cleo::scripts::scm::Issue;
use std::collections::HashMap;

fn csa(name: &str, hash: u64, state: CsaState, issue: Option<Issue>) -> Script {
    let mut script = CleoScript::new(vec![1, 2, 3], name.to_string(), hash);
    script.issue = issue;
    script.active = state != CsaState::Disabled;
    Script::Csa { script, state }
}

fn csi(name: &str, issue: Option<Issue>) -> Script {
    let mut script = CleoScript::new(vec![4], name.to_string(), 0);
    script.issue = issue;
    Script::Csi(script)
}

fn state_of(s: &Script) -> (bool, Option<CsaState>) {
    match s {
        Script::Csi(c) => (c.active, None),
        Script::Csa { script, state } => (script.active, Some(*state)),
    }
}

#[test]
fn csa_state_taps() {
    assert_eq!(next_csa_state(CsaState::EnabledNormally, false), CsaState::Disabled);
    assert_eq!(next_csa_state(CsaState::Disabled, false), CsaState::EnabledNormally);
    assert_eq!(next_csa_state(CsaState::Disabled, true), CsaState::Forced);
    assert_eq!(next_csa_state(CsaState::Forced, true), CsaState::Disabled);
    assert_eq!(next_csa_state(CsaState::Forced, false), CsaState::Disabled);
    assert_eq!(next_csa_state(CsaState::EnabledNormally, true), CsaState::Disabled);
    assert!(CsaState::Forced.active());
    assert!(!CsaState::Disabled.active());
}

#[test]
fn starting_states() {
    let mut saved = HashMap::new();
    saved.insert(7u64, CsaState::Forced);
    assert_eq!(get_csa_state(&saved, 7, &None), CsaState::Forced);
    assert_eq!(get_csa_state(&saved, 7, &Some(Issue::BadArch)), CsaState::Forced);
    assert_eq!(get_csa_state(&saved, 7, &Some(Issue::Duplicate("x".to_string()))), CsaState::Disabled);
    assert_eq!(get_csa_state(&saved, 8, &Some(Issue::NotImpl)), CsaState::Disabled);
    assert_eq!(get_csa_state(&saved, 8, &None), CsaState::EnabledNormally);
}

#[test]
fn loading_and_resetting_scripts() {
    let mut scripts = Vec::new();
    load_running_script(&mut scripts, vec![1], "/cleo/a.csa");
    load_invoked_script(&mut scripts, vec![2], "/cleo/Sub/b.csi");
    match &scripts[0] {
        Script::Csa { script, .. } => {
            assert_eq!(script.name, "a");
            assert_eq!(script.hash, generate_hash(&[1]));
        }
        _ => panic!("expected a CSA script"),
    }
    match &scripts[1] {
        Script::Csi(script) => {
            assert_eq!(script.name, "b");
            assert_eq!(script.bytes, vec![2]);
        }
        _ => panic!("expected a CSI script"),
    }
    assert!(load_script(&mut scripts, vec![3], "/cleo/c.csa", true));
    assert!(!load_script(&mut scripts, vec![4], "/", false));
    assert_eq!(scripts.len(), 3);
    scripts.pop();
    assert_eq!(state_of(&scripts[0]), (false, Some(CsaState::Disabled)));
    assert_eq!(state_of(&scripts[1]), (false, None));
    if let Script::Csi(c) = &mut scripts[1] {
        c.active = true;
    }
    let saved = HashMap::new();
    assign_states(&mut scripts, &saved, false);
    assert_eq!(state_of(&scripts[0]), (true, Some(CsaState::EnabledNormally)));
    assert_eq!(state_of(&scripts[1]), (true, None));
    assign_states(&mut scripts, &saved, true);
    assert_eq!(state_of(&scripts[1]), (false, None));
}

#[test]
fn saved_states_skip_duplicates() {
    let scripts = vec![
        csa("a", 1, CsaState::Forced, None),
        csa("b", 2, CsaState::EnabledNormally, Some(Issue::Duplicate("a".to_string()))),
        csi("c", None),
        csa("d", 1, CsaState::Disabled, None),
    ];
    let saved = states_to_save(&scripts);
    assert_eq!(saved.len(), 1);
    assert_eq!(saved.get(&1), Some(&CsaState::Disabled));
    let mut again = vec![csa("e", 5, CsaState::Forced, None)];
    let s = states_to_save(&again);
    if let Script::Csa { state, .. } = &mut again[0] {
        *state = CsaState::Disabled;
    }
    assign_states(&mut again, &s, true);
    assert_eq!(state_of(&again[0]), (true, Some(CsaState::Forced)));
}

#[test]
fn hash_identifies_bytes() {
    assert_eq!(generate_hash(&[1, 2, 3]), generate_hash(&[1, 2, 3]));
    assert_ne!(generate_hash(&[1, 2, 3]), generate_hash(&[1, 2, 4]));
    assert_ne!(generate_hash(&[]), generate_hash(&[0]));
}

#[test]
fn loop_guard_breaks_backward_loops() {
    let mut g = LoopGuard::new();
    assert!(!g.should_break(0));
    assert!(!g.should_break(4));
    for _ in 0..3 {
        assert!(!g.should_break(0));
        assert!(!g.should_break(4));
    }
    assert!(g.should_break(0));
    let mut h = LoopGuard::new();
    for _ in 0..6 {
        assert!(!h.should_break(3));
    }
}

#[test]
fn opcode_decisions() {
    assert_eq!(split_opcode(0x8001), (1, true));
    assert_eq!(split_opcode(0x004e), (0x4e, false));
    assert_eq!(override_for(0x004e), Some(Override::Terminate));
    assert_eq!(override_for(0x0dd2), Some(Override::Unsupported));
    assert_eq!(override_for(0x0dd9), Some(Override::Unsupported));
    assert_eq!(override_for(0x0dd5), None);
    assert_eq!(override_for(0x0ddc), Some(Override::SetMutexVar));
    assert_eq!(override_for(0x0ddd), Some(Override::GetMutexVar));
    assert_eq!(override_for(0x00e1), Some(Override::TouchZoneFlag));
    assert_eq!(override_for(0x0de0), Some(Override::TouchZoneValue));
    assert_eq!(handler_slot(0x0a8c), None);
    assert_eq!(handler_slot(0x0001), Some(0));
    assert_eq!(handler_slot(0x00e1), Some(4));
    assert_eq!(handler_slot(0x0a8b), Some(52));
    assert!(is_ready(true, 10, 10));
    assert!(!is_ready(true, 11, 10));
    assert!(!is_ready(false, 0, 10));
}

#[test]
fn mutex_vars_store_values() {
    let mut m = MutexVars::new();
    assert_eq!(m.vars.len(), 32);
    m.set(3, 99);
    assert_eq!(m.get(3), 99);
    assert_eq!(m.get(4), 0);
}

#[test]
fn warning_strings() {
    assert_eq!(gen_warning_string(0), None);
    assert_eq!(
        gen_warning_string(1).unwrap(),
        "Problems identified with one script. This script is highlighted in orange.\nSee below for further details."
    );
    assert_eq!(
        gen_warning_string(3).unwrap(),
        "Problems identified with three scripts. These scripts are highlighted in orange.\nSee below for further details."
    );
    assert!(gen_warning_string(12).unwrap().starts_with("Problems identified with 12 scripts."));
    assert_eq!(decimal(0), "0");
    assert_eq!(decimal(1907), "1907");
}

#[test]
fn menu_rows() {
    let running = csi("walk", None);
    let mut info = CsiMenuInfo::new(&running).unwrap();
    assert_eq!(info.value(), "Not running");
    assert!(matches!(info.detail(), RowDetail::Info(s) if s == "Not running. No issues detected."));
    assert_eq!(info.tint(), None);
    let mut scripts = vec![csa("walk", 1, CsaState::Disabled, None), running, csi("walk", None)];
    assert!(!info.handle_tap(&mut scripts));
    assert!(info.state);
    assert_eq!(state_of(&scripts[1]), (true, None));
    assert_eq!(state_of(&scripts[2]), (false, None));
    assert_eq!(info.tint(), Some(Colour::Green));

    let bad = csa("x", 2, CsaState::Disabled, Some(Issue::BadArch));
    let mut row = CsaMenuInfo::new(&bad).unwrap();
    assert_eq!(row.value(), "Disabled");
    assert!(matches!(row.detail(), RowDetail::Warning(s) if s == "Contains some iOS-incompatible code."));
    let mut all = vec![bad, csa("x", 3, CsaState::Disabled, None)];
    assert!(row.handle_tap(&mut all));
    assert_eq!(row.state, CsaState::Forced);
    assert_eq!(row.value(), "Forced");
    assert_eq!(state_of(&all[0]), (true, Some(CsaState::Forced)));
    assert_eq!(state_of(&all[1]), (true, Some(CsaState::Forced)));
    assert!(CsiMenuInfo::new(&all[0]).is_none());
}

#[test]
fn tabs_sorted_by_name() {
    let scripts = vec![
        csa("zeta", 1, CsaState::EnabledNormally, None),
        csi("mid", Some(Issue::NotImpl)),
        csa("alpha", 2, CsaState::Disabled, Some(Issue::BadArch)),
        csa("beta", 3, CsaState::Forced, None),
    ];
    let tab = tab_data_csa(&scripts);
    assert_eq!(tab.name, "CSA");
    let names: Vec<&str> = tab.rows.iter().map(|r| r.name.as_str()).collect();
    assert_eq!(names, vec!["alpha", "beta", "zeta"]);
    assert!(tab.warning.unwrap().contains("one script"));
    let csi_tab = tab_data_csi(&scripts);
    assert_eq!(csi_tab.name, "CSI");
    assert_eq!(csi_tab.rows.len(), 1);
    assert!(csi_tab.warning.is_some());
}

#[test]
fn summary_messages_for_issue_counts() {
    assert_eq!(warning_message(0, 0), None);
    assert_eq!(
        warning_message(2, 1),
        Some(("Found 2 scripts with severe issues and 1 with minor issues.".to_string(), MessageTint::Orange))
    );
    assert_eq!(
        warning_message(1, 3),
        Some(("Found 1 script with severe issues and 3 with minor issues.".to_string(), MessageTint::Orange))
    );
    assert_eq!(
        warning_message(0, 1),
        Some(("Found 1 script with minor issues.".to_string(), MessageTint::Yellow))
    );
    assert_eq!(
        warning_message(12, 0),
        Some(("Found 12 scripts with severe issues.".to_string(), MessageTint::Orange))
    );
}

#[test]
fn command_library_values() {
    assert_ne!(VarHandle::Local(3), VarHandle::Global(3));
    let command = Command {
        id: "0001".to_string(),
        name: "WAIT".to_string(),
        num_params: 1,
        attrs: Some(Attrs { is_keyword: Some(true), ..Attrs::default() }),
        ..Command::default()
    };
    let root = Root {
        meta: Meta { last_update: 1, version: "0.1".to_string(), url: String::new() },
        extensions: vec![Extension { name: "default".to_string(), commands: vec![command.clone()] }],
        classes: vec![],
    };
    assert_eq!(root.extensions[0].commands[0], command);
    assert_eq!(root.clone(), root);
}
