use cleo::streaming::replacements::ReplacementMapper;
use cleo::streaming::game::{
    global_position, GlobalStreamQueue, ImageRegion, Queue, StreamSource, StreamState,
};
use cleo::streaming::load::{
    parse_directory, read_entries, ArchiveError, DirectoryEntry, EntryError, ImageMapper,
    MapError, StreamingInfo,
};

#[test]
fn regions_in_bytes() {
    let r = ImageRegion { offset_sectors: 3, size_sectors: 2 };
    assert_eq!(r.offset_bytes(), 6144);
    assert_eq!(r.size_bytes(), 4096);
}

#[test]
fn stream_sources_pack_and_unpack() {
    let s = StreamSource::new(5, 0x123456);
    assert_eq!(s.as_u32(), 0x0512_3456);
    assert_eq!(s.image_index(), 5);
    assert_eq!(s.sector_offset(), 0x123456);
    assert_eq!(global_position(2, ImageRegion { offset_sectors: 0x10, size_sectors: 4 }), 0x0200_0014);
}

#[test]
fn queue_is_first_in_first_out() {
    let mut q = Queue::with_capacity(4);
    assert_eq!(q.first(), -1);
    q.add(7);
    q.add(8);
    q.add(9);
    assert_eq!(q.first(), 7);
    q.remove_first();
    assert_eq!(q.first(), 8);
    q.add(10);
    q.remove_first();
    q.remove_first();
    assert_eq!(q.first(), 10);
    q.remove_first();
    assert_eq!(q.first(), -1);
    q.remove_first();
    assert_eq!(q.first(), -1);
}

#[test]
fn full_queue_wraps_to_empty() {
    let mut q = Queue::with_capacity(3);
    q.add(1);
    q.add(2);
    q.add(3);
    assert_eq!(q.first(), -1);
}

#[test]
fn stream_queue_pushes_and_pops() {
    let mut g = GlobalStreamQueue { index_queue: Queue::with_capacity(5) };
    g.push_index(3);
    g.push_index(1);
    assert_eq!(g.pop_index(), 3);
    assert_eq!(g.pop_index(), 1);
    assert_eq!(g.pop_index(), -1);
}

#[test]
fn stream_state_changes() {
    let mut s = StreamState::new();
    assert!(s.is_ok());
    assert!(!s.is_busy());
    s.set_region(ImageRegion { offset_sectors: 10, size_sectors: 3 });
    assert!(s.is_busy());
    assert_eq!(s.file_region(), ImageRegion { offset_sectors: 10, size_sectors: 3 });
    s.enter_processing_state();
    s.in_use = true;
    assert!(s.exit_processing_state());
    assert!(!s.is_busy());
    s.status = 4;
    assert!(!s.is_ok());
    s.clear_error();
    assert!(s.is_ok());
}

fn entry(offset: u32, size: u32, name: &[u8]) -> Vec<u8> {
    let mut b = Vec::new();
    b.extend_from_slice(&offset.to_le_bytes());
    b.extend_from_slice(&size.to_le_bytes());
    let mut n = [0u8; 24];
    n[..name.len()].copy_from_slice(name);
    b.extend_from_slice(&n);
    b
}

#[test]
fn directory_entries_read() {
    let bytes = entry(16, 3, b"PLAYER.DFF");
    let e = DirectoryEntry::read(&bytes, 0).unwrap();
    assert_eq!(e.name, "player.dff");
    assert_eq!(e.region, ImageRegion { offset_sectors: 16, size_sectors: 3 });
    let full = entry(1, 1, b"ABCDEFGHIJKLMNOPQRSTUVWX");
    assert_eq!(DirectoryEntry::read(&full, 0).unwrap().name, "abcdefghijklmnopqrstuvwx");
    let bad = entry(1, 1, &[0xff, 0xfe]);
    assert_eq!(DirectoryEntry::read(&bad, 0).unwrap_err(), EntryError::InvalidName);
    assert_eq!(DirectoryEntry::read(&bytes[..31], 0).unwrap_err(), EntryError::UnexpectedEof);
}

#[test]
fn directory_parsed() {
    let mut img = b"VER2".to_vec();
    img.extend_from_slice(&3u32.to_le_bytes());
    img.extend(entry(8, 2, b"a.txd"));
    img.extend(entry(10, 1, &[0xc3]));
    img.extend(entry(11, 5, b"b.dff"));
    let (entries, failed) = parse_directory(&img).unwrap();
    assert_eq!(failed, 1);
    assert_eq!(entries.len(), 2);
    assert_eq!(entries[1].name, "b.dff");
    assert_eq!(entries[1].region.size_sectors, 5);
    let (few, missing) = read_entries(5, &img, 8);
    assert_eq!(few.len(), 2);
    assert_eq!(missing, 3);
    assert_eq!(parse_directory(b"VER").unwrap_err(), ArchiveError::UnexpectedEof);
    assert_eq!(parse_directory(b"VER1\x00\x00\x00\x00").unwrap_err(), ArchiveError::BadIdentifier);
    assert_eq!(parse_directory(b"VER2\x00").unwrap_err(), ArchiveError::UnexpectedEof);
}

fn mapper_with(paths: &[(&str, Option<&str>)]) -> (ImageMapper, Result<(), Vec<MapError>>) {
    let mut m = ImageMapper::new();
    let paths: Vec<(String, Option<String>)> =
        paths.iter().map(|(p, n)| (p.to_string(), n.map(|s| s.to_string()))).collect();
    let r = m.register_paths(&paths);
    (m, r)
}

#[test]
fn replacements_registered_and_mapped() {
    let (mut m, r) = mapper_with(&[("/r/Player.dff", Some("Player.dff")), ("/r/x.txd", Some("x.txd"))]);
    assert!(r.is_ok());
    assert_eq!(m.replacements_by_name[0].0, "player.dff");
    let entries = vec![
        DirectoryEntry { name: "player.dff".to_string(), region: ImageRegion { offset_sectors: 100, size_sectors: 4 } },
        DirectoryEntry { name: "other".to_string(), region: ImageRegion { offset_sectors: 200, size_sectors: 1 } },
    ];
    let unmapped = m.register_entries(&entries).unwrap_err();
    assert_eq!(unmapped, vec!["/r/x.txd".to_string()]);
    let region = ImageRegion { offset_sectors: 100, size_sectors: 4 };
    assert_eq!(m.replacement_path(region), Some(&"/r/Player.dff".to_string()));
    assert_eq!(m.replacement_path(ImageRegion { offset_sectors: 200, size_sectors: 1 }), None);
    assert_eq!(m.real_segment_count(region, Some(2049)), Some(2));
    assert_eq!(m.real_segment_count(region, Some(2048)), Some(1));
    assert_eq!(m.real_segment_count(region, None), None);
    assert_eq!(m.real_segment_count(ImageRegion { offset_sectors: 5, size_sectors: 9 }, None), Some(9));
    m.remove_replacement(region);
    assert_eq!(m.replacement_path(region), None);
}

#[test]
fn registration_errors() {
    let (m, r) = mapper_with(&[("/a/A.dff", Some("A.dff")), ("/b", None), ("/c/a.DFF", Some("a.DFF"))]);
    let errors = r.unwrap_err();
    assert_eq!(errors.len(), 2);
    assert!(matches!(&errors[0], MapError::NoFileName(p) if p == "/b"));
    assert!(matches!(&errors[1], MapError::Duplicate(n) if n == "a.dff"));
    assert_eq!(m.replacements_by_name.len(), 1);
    assert_eq!(m.replacements_by_name[0].1, "/a/A.dff");
}

#[test]
fn sizes_updated_for_replacements() {
    let (mut m, _) = mapper_with(&[("/r/a", Some("a")), ("/r/b", Some("b"))]);
    let entries = vec![
        DirectoryEntry { name: "a".to_string(), region: ImageRegion { offset_sectors: 1, size_sectors: 1 } },
        DirectoryEntry { name: "b".to_string(), region: ImageRegion { offset_sectors: 2, size_sectors: 1 } },
    ];
    assert!(m.register_entries(&entries).is_ok());
    let regions = vec![
        ImageRegion { offset_sectors: 1, size_sectors: 1 },
        ImageRegion { offset_sectors: 2, size_sectors: 1 },
        ImageRegion { offset_sectors: 3, size_sectors: 7 },
    ];
    let (sizes, max) = m.update_sizes(&regions, &vec![Some(5000), None, None]);
    assert_eq!(sizes, vec![Some(3), None, Some(7)]);
    assert_eq!(max, 7);
    assert!(m.replacement_path(regions[1]).is_none());
    assert!(m.replacement_path(regions[0]).is_some());
}

#[test]
fn streaming_infos() {
    let info = StreamingInfo {
        next_index: -1, prev_index: -1, next_index_on_cd: -1, flags: 0, img_id: 2, cd_pos: 40, cd_size: 3, load_state: 0,
    };
    let infos = vec![info, StreamingInfo { img_id: 1, ..info }, info];
    assert_eq!(StreamingInfo::for_image_id(&infos, 2), vec![0, 2]);
    assert_eq!(info.region(), ImageRegion { offset_sectors: 40, size_sectors: 3 });
    assert_eq!(info.image_id(), 2);
    let mut i2 = info;
    i2.set_size_segments(0x1_0000_0005);
    assert_eq!(i2.cd_size, 5);
}

#[test]
fn images_are_found_whatever_their_case() {
    let mut all = ReplacementMapper::new();
    let paths = vec![("/r/gta3.img/Player.dff".to_string(), Some("Player.dff".to_string()))];
    assert!(all.register_paths_for_image("GTA3.IMG", &paths).is_ok());
    assert_eq!(all.mappers.len(), 1);
    let more = vec![("/r/gta3.img/car.txd".to_string(), Some("car.txd".to_string()))];
    assert!(all.register_paths_for_image("gta3.img", &more).is_ok());
    assert_eq!(all.mappers.len(), 1);
    assert_eq!(all.mappers[0].replacements_by_name.len(), 2);
    let dup = vec![("/x/PLAYER.DFF".to_string(), Some("PLAYER.DFF".to_string()))];
    let errors = all.register_paths_for_image("Gta3.Img", &dup).unwrap_err();
    assert!(matches!(&errors[0], MapError::Duplicate(n) if n == "player.dff"));

    let entries = vec![DirectoryEntry {
        name: "player.dff".to_string(),
        region: ImageRegion { offset_sectors: 10, size_sectors: 2 },
    }];
    let unmapped = all.register_entries_for_image("gta3.IMG", &entries).unwrap_err();
    assert_eq!(unmapped, vec!["/r/gta3.img/car.txd".to_string()]);
    let region = ImageRegion { offset_sectors: 10, size_sectors: 2 };
    assert_eq!(all.replacement_path("GTA3.img", region), Some(&"/r/gta3.img/Player.dff".to_string()));
    assert_eq!(all.real_segment_count("gta3.img", region, Some(4097)), Some(3));
    assert_eq!(all.real_segment_count("other.img", region, None), Some(2));
    assert!(all.register_entries_for_image("other.img", &entries).is_ok());
    assert_eq!(all.replacement_path("other.img", region), None);
    all.remove_replacement("GTA3.IMG", region);
    assert_eq!(all.replacement_path("gta3.img", region), None);
}

#[test]
fn replacement_names_come_from_their_paths() {
    let mut all = ReplacementMapper::new();
    let paths = vec!["/r/gta3.img/Player.DFF".to_string(), "/".to_string(), "/x/PLAYER.dff".to_string()];
    let errors = all.register_replacement_paths("gta3.img", &paths).unwrap_err();
    assert_eq!(errors.len(), 2);
    assert!(matches!(&errors[0], MapError::NoFileName(p) if p == "/"));
    assert!(matches!(&errors[1], MapError::Duplicate(n) if n == "player.dff"));
    assert_eq!(
        all.mappers[0].replacements_by_name,
        vec![("player.dff".to_string(), "/r/gta3.img/Player.DFF".to_string())]
    );
}
