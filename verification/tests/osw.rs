use cleo::sound::osw::{max_region_size, read_osw_index, region_fits, OswEntry, OswError, OswIndex, OswRegion};

fn index(entries: &[(u32, u32, &[u8])]) -> Vec<u8> {
    let mut b = (entries.len() as u32).to_le_bytes().to_vec();
    for (offset, size, name) in entries {
        b.extend_from_slice(&offset.to_le_bytes());
        b.extend_from_slice(&size.to_le_bytes());
        b.extend_from_slice(&(name.len() as u16).to_le_bytes());
        b.extend_from_slice(name);
    }
    b
}

#[test]
fn index_entries_read() {
    let bytes = index(&[(0, 100, b"sfx/one.wav"), (100, 50, b"two")]);
    let entries = read_osw_index(&bytes).unwrap();
    assert_eq!(entries.len(), 2);
    assert_eq!(entries[0].name, "sfx/one.wav");
    assert_eq!(entries[1].region, OswRegion { offset: 100, size: 50 });
    let (name, region) = OswEntry::read(&bytes, 4).unwrap().0.into_pair();
    assert_eq!(name, "sfx/one.wav");
    assert_eq!(region.size, 100);
}

#[test]
fn index_errors() {
    assert_eq!(read_osw_index(&[1, 0]).unwrap_err(), OswError::UnexpectedEof);
    let mut short = index(&[(0, 1, b"abc")]);
    short.pop();
    assert_eq!(read_osw_index(&short).unwrap_err(), OswError::UnexpectedEof);
    let bad = index(&[(0, 1, &[0xff])]);
    assert_eq!(read_osw_index(&bad).unwrap_err(), OswError::InvalidName);
    let mut missing = index(&[(0, 1, b"a")]);
    missing[0] = 2;
    assert_eq!(read_osw_index(&missing).unwrap_err(), OswError::UnexpectedEof);
    assert!(read_osw_index(&index(&[])).unwrap().is_empty());
}

#[test]
fn region_checks() {
    assert!(region_fits(10, OswRegion { offset: 0, size: 10 }));
    assert!(!region_fits(9, OswRegion { offset: 0, size: 10 }));
    let regions = vec![OswRegion { offset: 0, size: 3 }, OswRegion { offset: 3, size: 9 }, OswRegion { offset: 12, size: 1 }];
    assert_eq!(max_region_size(&regions), Some(9));
    assert_eq!(max_region_size(&Vec::new()), None);
}

#[test]
fn index_finds_names_whatever_their_case() {
    let r = |offset, size| OswRegion { offset, size };
    let entries = vec![
        OswEntry { name: "Engine".to_string(), region: r(0, 10) },
        OswEntry { name: "horn".to_string(), region: r(10, 5) },
        OswEntry { name: "ENGINE".to_string(), region: r(15, 7) },
    ];
    let index = OswIndex::from_entries(entries);
    assert_eq!(index.names.len(), 2);
    assert_eq!(index.region("engine"), Some(r(15, 7)));
    assert_eq!(index.region("HORN"), Some(r(10, 5)));
    assert_eq!(index.region("siren"), None);
}
