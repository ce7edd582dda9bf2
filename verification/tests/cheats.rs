use cleo::cheats::{
    all_cheats, cheat_at, cheat_state_bytes, do_cheats, load_saved_states, loads_saved_states,
    tab_data, CheatData, SaveFlags, SavedCheatsError, CHEAT_COUNT,
};
use cleo::meta::language::MessageKey;
use cleo::meta::settings::{CheatTransience, Colour};

#[test]
fn cheat_table() {
    let cheats = all_cheats();
    assert_eq!(cheats.len(), CHEAT_COUNT);
    for (i, c) in cheats.iter().enumerate() {
        assert_eq!(c.index, i);
    }
    assert_eq!(cheat_at(0).code, "THUGSARMOURY");
    assert_eq!(cheat_at(0).description, MessageKey::CheatThugsArmoury);
    assert_eq!(cheat_at(110).code, "");
}

#[test]
fn queue_and_cancel() {
    let c = cheat_at(4);
    let d = cheat_at(9);
    let mut waiting = Vec::new();
    assert!(!c.is_in_queue(&waiting));
    c.queue(&mut waiting);
    d.queue(&mut waiting);
    c.queue(&mut waiting);
    assert!(c.is_in_queue(&waiting));
    c.cancel(&mut waiting);
    assert_eq!(waiting, vec![9]);
    assert!(!c.is_in_queue(&waiting));
}

#[test]
fn queued_cheats_run_in_order() {
    let mut waiting = vec![2, 0, 2, 1];
    let has_function = vec![false, true, false];
    let mut active = vec![false, false, true];
    let calls = do_cheats(&mut waiting, &has_function, &mut active);
    assert!(waiting.is_empty());
    assert_eq!(calls, vec![1]);
    assert_eq!(active, vec![true, false, true]);
}

#[test]
fn saved_states_roundtrip_and_checks() {
    let mut active = vec![false; CHEAT_COUNT];
    active[3] = true;
    active[110] = true;
    let bytes = cheat_state_bytes(&active);
    assert_eq!(bytes.len(), CHEAT_COUNT);
    assert_eq!(bytes[3], 1);
    assert_eq!(bytes[4], 0);
    assert_eq!(load_saved_states(&bytes).unwrap(), active);
    assert_eq!(load_saved_states(&bytes[1..]).unwrap_err(), SavedCheatsError::WrongLength);
    let mut bad = bytes.clone();
    bad[7] = 2;
    assert_eq!(load_saved_states(&bad).unwrap_err(), SavedCheatsError::NotBoolean);
    assert!(loads_saved_states(CheatTransience::Persistent));
    assert!(!loads_saved_states(CheatTransience::Transient));
}

#[test]
fn save_flags_allow_one_save_at_a_time() {
    let mut f = SaveFlags::new();
    assert!(!f.begin_save());
    f.request();
    assert!(f.begin_save());
    f.request();
    assert!(!f.begin_save());
    f.finish_save();
    assert!(!f.begin_save());
}

#[test]
fn rows_show_queue_state() {
    let active = vec![false; CHEAT_COUNT];
    let mut waiting = Vec::new();
    let mut flags = SaveFlags::new();
    let mut row = CheatData::new(cheat_at(5), &waiting, &active);
    assert_eq!(row.value(&waiting, &active), MessageKey::CheatOff);
    assert_eq!(row.tint(&waiting, &active), None);
    assert!(row.handle_tap(&mut waiting, &active, CheatTransience::Persistent, &mut flags));
    assert_eq!(waiting, vec![5]);
    assert!(flags.requested);
    assert_eq!(row.value(&waiting, &active), MessageKey::CheatQueuedOn);
    assert_eq!(row.tint(&waiting, &active), Some(Colour::Blue));
    row.handle_tap(&mut waiting, &active, CheatTransience::Transient, &mut flags);
    assert!(waiting.is_empty());
    assert!(row.will_be_active(&active) == false);
    let mut on = active.clone();
    on[5] = true;
    let r2 = CheatData::new(cheat_at(5), &vec![5], &on);
    assert_eq!(r2.value(&vec![5], &on), MessageKey::CheatQueuedOff);
    assert_eq!(r2.tint(&vec![5], &on), Some(Colour::Red));
    assert_eq!(CheatData::new(cheat_at(5), &vec![], &on).tint(&vec![], &on), Some(Colour::Green));
    let coded = CheatData::new(cheat_at(0), &vec![], &on);
    assert_eq!(coded.title(), (MessageKey::CheatCodeRowTitle, Some("THUGSARMOURY")));
    assert_eq!(CheatData::new(cheat_at(110), &vec![], &on).title(), (MessageKey::CheatNoCodeTitle, None));
}

#[test]
fn tab_sorted_by_code_with_codeless_last() {
    let cheats = all_cheats();
    let active = vec![false; CHEAT_COUNT];
    let tab = tab_data(&cheats, &Vec::new(), &active);
    assert_eq!(tab.name, "Cheats");
    assert_eq!(tab.rows.len(), CHEAT_COUNT);
    let codes: Vec<&str> = tab.rows.iter().map(|r| r.cheat.code).collect();
    let first_empty = codes.iter().position(|c| c.is_empty()).unwrap();
    assert!(codes[first_empty..].iter().all(|c| c.is_empty()));
    for w in codes[..first_empty].windows(2) {
        assert!(w[0] <= w[1]);
    }
    assert!(tab.warning.starts_with("Using cheats"));
}
