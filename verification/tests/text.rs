use cleo::text::{set_kv, utf16_with_nul, CustomStrings, PlateTick};

#[test]
fn strings_stored_as_utf16() {
    assert_eq!(utf16_with_nul("Hi"), vec![0x48, 0x69, 0]);
    assert_eq!(utf16_with_nul("é"), vec![0xe9, 0]);
    assert_eq!(utf16_with_nul("😀"), vec![0xd83d, 0xde00, 0]);
    assert_eq!(utf16_with_nul(""), vec![0]);
}

#[test]
fn set_then_get() {
    let mut strings = CustomStrings::new();
    assert!(!set_kv(&mut strings, "KEY1", "one"));
    assert!(!set_kv(&mut strings, "KEY2", "two"));
    assert_eq!(strings.get("KEY1"), Some(&vec![0x6f, 0x6e, 0x65, 0]));
    assert!(set_kv(&mut strings, "KEY1", "uno"));
    assert_eq!(strings.get("KEY1"), Some(&vec![0x75, 0x6e, 0x6f, 0]));
    assert_eq!(strings.get("KEY2"), Some(&vec![0x74, 0x77, 0x6f, 0]));
    assert_eq!(strings.get("key1"), None);
    assert_eq!(strings.entries.len(), 2);
}

#[test]
fn custom_plates_every_third_and_fifth() {
    let mut t = PlateTick { tick: 0 };
    let plates: Vec<Option<&str>> = (0..12).map(|_| t.generate_numberplate(8)).collect();
    assert_eq!(plates[2], Some("CLEO IOS"));
    assert_eq!(plates[4], Some("SQUI DDY"));
    assert_eq!(plates[8], Some("CLEO IOS"));
    assert_eq!(plates[10], Some("SQUI DDY"));
    assert_eq!(plates.iter().filter(|p| p.is_some()).count(), 4);
    let mut u = PlateTick { tick: 2 };
    assert_eq!(u.generate_numberplate(7), None);
    assert_eq!(u.tick, 3);
}
