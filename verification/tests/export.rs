use slot_ledger::backup::{archive_name, build_archive};
use slot_ledger::dump::{parse_dump, render_dump};
use slot_ledger::store::LedgerStore;

#[test]
fn render_dump_documented_format() {
    let id = b"tree".to_vec();
    let tag = b"tickets".to_vec();
    let pairs: Vec<(u64, u64)> = vec![(7, 49), (12, 5000)];
    let bytes = render_dump(&id, &tag, &pairs);
    assert_eq!(bytes, b"tree\ntickets\n7,49\n12,5000\n".to_vec());
}

#[test]
fn render_dump_no_pairs() {
    let bytes = render_dump(&b"tree".to_vec(), &b"account".to_vec(), &Vec::new());
    assert_eq!(bytes, b"tree\naccount\n".to_vec());
}

#[test]
fn dump_round_trip_recovers_everything() {
    let id = b"tree".to_vec();
    let tag = b"account".to_vec();
    let pairs: Vec<(u64, u64)> = vec![(1, 0), (42, 1000), (18446744073709551615, 7)];
    let bytes = render_dump(&id, &tag, &pairs);
    let (id2, tag2, pairs2) = parse_dump(&bytes).unwrap();
    assert_eq!(id2, id);
    assert_eq!(tag2, tag);
    assert_eq!(pairs2, pairs);
}

#[test]
fn store_export_round_trip() {
    let mut store = LedgerStore::new();
    store.set(3, 47);
    store.set(9, 0);
    store.set(3, 48);
    let bytes = render_dump(&b"tree".to_vec(), &b"tickets".to_vec(), store.export());
    let (_, _, pairs) = parse_dump(&bytes).unwrap();
    assert_eq!(pairs.len(), 2);
    assert!(pairs.contains(&(3, 48)));
    assert!(pairs.contains(&(9, 0)));
}

#[test]
fn parse_dump_rejects_malformed() {
    assert_eq!(parse_dump(&b"".to_vec()), None);
    assert_eq!(parse_dump(&b"tree".to_vec()), None);
    assert_eq!(parse_dump(&b"tree\n".to_vec()), None);
    assert_eq!(parse_dump(&b"tree\ntickets\n7,49".to_vec()), None);
    assert_eq!(parse_dump(&b"tree\ntickets\nx,1\n".to_vec()), None);
    assert_eq!(parse_dump(&b"tree\ntickets\n7,\n".to_vec()), None);
    assert_eq!(parse_dump(&b"tree\ntickets\n,1\n".to_vec()), None);
    assert_eq!(parse_dump(&b"tree\ntickets\n7,18446744073709551616\n".to_vec()), None);
}

#[test]
fn parse_dump_header_only() {
    let (id, tag, pairs) = parse_dump(&b"tree\naccount\n".to_vec()).unwrap();
    assert_eq!(id, b"tree".to_vec());
    assert_eq!(tag, b"account".to_vec());
    assert!(pairs.is_empty());
}

#[test]
fn archive_name_from_timestamp() {
    assert_eq!(archive_name(1650000000), "1650000000_backup.zip");
    assert_eq!(archive_name(0), "0_backup.zip");
}

#[test]
fn build_archive_names_and_bundles() {
    let tdump = b"tree\ntickets\n7,49\n".to_vec();
    let adump = b"tree\naccount\n7,25\n".to_vec();
    let (name, bytes) = build_archive(1234567890, &tdump, &adump);
    assert_eq!(name, "1234567890_backup.zip");
    let bytes = bytes.expect("in-memory archive should build");
    // A zip archive starts with the local-file-header magic.
    assert_eq!(&bytes[0..4], b"PK\x03\x04");
}
