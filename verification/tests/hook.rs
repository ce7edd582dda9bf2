use cleo::hook::{get_game_aslr_offset, has_weird_aslr, Target};

#[test]
fn game_slide_is_smaller_of_two() {
    assert_eq!(get_game_aslr_offset(0x4000, 0x8000), 0x4000);
    assert_eq!(get_game_aslr_offset(0x9000, 0x8000), 0x8000);
    assert!(!has_weird_aslr(0x4000, 0x8000));
    assert!(has_weird_aslr(0x9000, 0x8000));
    assert!(!has_weird_aslr(5, 5));
}

#[test]
fn targets_resolved_with_slides() {
    assert_eq!(Target::Address(0x1000).get_absolute(0x20, 0x300), 0x1020);
    assert_eq!(Target::ForeignAddress(0x1000, 3).get_absolute(0x20, 0x300), 0x1300);
    assert_eq!(Target::ForeignAddress(1, 3).foreign_image(), Some(3));
    assert_eq!(Target::Address(1).foreign_image(), None);
}
