use cleo::files::res::ModRes;
use cleo::files::stream::{load_swaps, lookup, stream_name, swapped_names, ResLoc, TocError};

fn entry(offset: u32, size: u32, name: &str) -> Vec<u8> {
    let mut e = Vec::new();
    e.extend_from_slice(&offset.to_le_bytes());
    e.extend_from_slice(&size.to_le_bytes());
    let mut field = [0u8; 24];
    field[..name.len()].copy_from_slice(name.as_bytes());
    e.extend_from_slice(&field);
    e
}

fn archive(entries: &[Vec<u8>]) -> Vec<u8> {
    let mut b = b"VER2".to_vec();
    b.extend_from_slice(&(entries.len() as u32).to_le_bytes());
    for e in entries {
        b.extend_from_slice(e);
    }
    b
}

#[test]
fn res_loc_packs_index_and_offset() {
    let loc = ResLoc::new(3, 0x1234);
    assert_eq!(loc.0, 0x0300_1234);
    assert_eq!(loc.image_index(), 3);
    assert_eq!(loc.offset(), 0x1234);
    let top = ResLoc::new(255, 0xff_ffff);
    assert_eq!(top.image_index(), 255);
    assert_eq!(top.offset(), 0xff_ffff);
}

#[test]
fn stream_names_are_lowercase_file_names() {
    assert_eq!(stream_name("/var/game/models/GTA3.IMG"), "gta3.img");
    assert_eq!(stream_name("/"), "unknown");
}

#[test]
fn swapped_names_pick_this_archive() {
    let res = vec![
        ModRes::ArchSwap("gta3.img".to_string(), "/mods/gta3.img/PLAYER.DFF".to_string()),
        ModRes::ArchSwap("other.img".to_string(), "/mods/other.img/car.txd".to_string()),
        ModRes::Swap("/mods/Replace/handling.cfg".to_string()),
    ];
    let names = swapped_names(&res, "gta3.img");
    assert_eq!(names, vec![("player.dff".to_string(), "/mods/gta3.img/PLAYER.DFF".to_string())]);
    assert_eq!(swapped_names(&res, "nothing.img"), vec![]);
}

#[test]
fn lookup_keeps_the_last_path() {
    let names = vec![
        ("a.dff".to_string(), "/one".to_string()),
        ("a.dff".to_string(), "/two".to_string()),
    ];
    assert_eq!(lookup(&names, "a.dff"), Some("/two".to_string()));
    assert_eq!(lookup(&names, "b.dff"), None);
}

#[test]
fn swaps_follow_directory_names() {
    let bytes = archive(&[entry(5, 1, "Player.dff"), entry(9, 2, "car.txd"), entry(12, 1, "weapon.dff")]);
    let res = vec![
        ModRes::ArchSwap("gta3.img".to_string(), "/m/gta3.img/weapon.dff".to_string()),
        ModRes::ArchSwap("gta3.img".to_string(), "/m/gta3.img/PLAYER.DFF".to_string()),
    ];
    let swaps = load_swaps(&bytes, "gta3.img", &res).unwrap();
    assert_eq!(swaps.len(), 2);
    assert_eq!((swaps[0].offset, swaps[0].name.as_str()), (5, "player.dff"));
    assert_eq!(swaps[0].path, "/m/gta3.img/PLAYER.DFF");
    assert_eq!((swaps[1].offset, swaps[1].name.as_str()), (12, "weapon.dff"));
}

#[test]
fn full_length_names_and_invalid_bytes() {
    let mut e = entry(7, 1, "");
    e[8..32].copy_from_slice(b"abcdefghijklmnopqrstuvwx");
    let bad = {
        let mut b = entry(8, 1, "");
        b[8] = 0xff;
        b[9] = b'a';
        b
    };
    let bytes = archive(&[e, bad]);
    let res = vec![
        ModRes::ArchSwap("x.img".to_string(), "/x.img/ABCDEFGHIJKLMNOPQRSTUVWX".to_string()),
        ModRes::ArchSwap("x.img".to_string(), "/x.img/\u{fffd}a".to_string()),
    ];
    let swaps = load_swaps(&bytes, "x.img", &res).unwrap();
    assert_eq!(swaps.len(), 2);
    assert_eq!(swaps[0].name, "abcdefghijklmnopqrstuvwx");
    assert_eq!(swaps[1].name, "\u{fffd}a");
    assert_eq!(swaps[1].offset, 8);
}

#[test]
fn truncated_directory_is_refused() {
    let mut bytes = archive(&[entry(5, 1, "a.dff")]);
    bytes.pop();
    assert_eq!(load_swaps(&bytes, "gta3.img", &vec![]).unwrap_err(), TocError::UnexpectedEof);
    assert_eq!(load_swaps(&[1, 2, 3], "gta3.img", &vec![]).unwrap_err(), TocError::UnexpectedEof);
    assert!(load_swaps(&archive(&[]), "gta3.img", &vec![]).unwrap().is_empty());
}
