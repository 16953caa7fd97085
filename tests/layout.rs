use jvm_ioprio::layout::{
    classify_record, walk_records, LayoutRecord, LayoutSymbols, TableWalk, WalkPhase, WalkRequest,
};
use jvm_ioprio::offsets::{
    osthread_pointer_at, thread_id_at, DiscoveredOffsets, TargetField, OFFSET_UNKNOWN,
};

fn symbols() -> LayoutSymbols {
    LayoutSymbols {
        base: 0x1000,
        stride: 0x30,
        type_name_offset: 0,
        field_name_offset: 8,
        offset_offset: 0x20,
    }
}

fn rec(owner: Option<&str>, field: Option<&str>, offset: i32) -> LayoutRecord {
    LayoutRecord {
        owner_name: owner.map(|s| s.to_string()),
        field_name: field.map(|s| s.to_string()),
        offset,
    }
}

#[test]
fn record_classification() {
    assert_eq!(classify_record("JavaThread", "_osthread"), Some(TargetField::OsThread));
    assert_eq!(classify_record("OSThread", "_thread_id"), Some(TargetField::OsThreadId));
    assert_eq!(classify_record("JavaThread", "_thread_id"), None);
    assert_eq!(classify_record("OSThread", "_osthread"), None);
    assert_eq!(classify_record("JavaThreads", "_osthread"), None);
    assert_eq!(classify_record("", ""), None);
}

#[test]
fn walk_finds_both_offsets() {
    let table = vec![
        rec(Some("Klass"), Some("_name"), 16),
        rec(Some("JavaThread"), Some("_osthread"), 0x1f8),
        rec(Some("OSThread"), Some("_thread_id"), 0x50),
        rec(None, None, 0),
    ];
    let found = walk_records(symbols(), &table);
    assert_eq!(found, DiscoveredOffsets { osthread: 0x1f8, os_thread_id: 0x50 });
}

#[test]
fn walk_stops_at_first_null_name() {
    let table = vec![
        rec(Some("JavaThread"), Some("_osthread"), 0x1f8),
        rec(Some("Klass"), None, 0),
        rec(Some("OSThread"), Some("_thread_id"), 0x50),
    ];
    let found = walk_records(symbols(), &table);
    assert_eq!(found, DiscoveredOffsets { osthread: 0x1f8, os_thread_id: OFFSET_UNKNOWN });
    let table = vec![rec(None, Some("_thread_id"), 0), rec(Some("OSThread"), Some("_thread_id"), 4)];
    assert_eq!(walk_records(symbols(), &table), DiscoveredOffsets::unknown());
}

#[test]
fn first_discovered_offset_wins() {
    let table = vec![
        rec(Some("JavaThread"), Some("_osthread"), 0x100),
        rec(Some("JavaThread"), Some("_osthread"), 0x200),
        rec(Some("OSThread"), Some("_thread_id"), 0x50),
        rec(Some("OSThread"), Some("_thread_id"), 0x60),
        rec(None, None, 0),
    ];
    let found = walk_records(symbols(), &table);
    assert_eq!(found, DiscoveredOffsets { osthread: 0x100, os_thread_id: 0x50 });
    let again = walk_records(symbols(), &table);
    assert_eq!(again, found);
}

#[test]
fn negative_offset_is_not_an_offset() {
    let table = vec![
        rec(Some("JavaThread"), Some("_osthread"), -8),
        rec(Some("JavaThread"), Some("_osthread"), 0x1f8),
        rec(None, None, 0),
    ];
    let found = walk_records(symbols(), &table);
    assert_eq!(found.osthread, 0x1f8);
    assert_eq!(found.os_thread_id, OFFSET_UNKNOWN);
}

#[test]
fn walk_requests_addresses() {
    let mut walk = TableWalk::start(symbols());
    assert_eq!(
        walk.request(),
        WalkRequest::ReadNames { type_name_at: 0x1000, field_name_at: 0x1008 }
    );
    walk.on_names(Some("Klass"), Some("_name"));
    assert_eq!(
        walk.request(),
        WalkRequest::ReadNames { type_name_at: 0x1030, field_name_at: 0x1038 }
    );
    walk.on_names(Some("JavaThread"), Some("_osthread"));
    assert_eq!(walk.phase, WalkPhase::Offset(TargetField::OsThread));
    assert_eq!(walk.request(), WalkRequest::ReadOffset { at: 0x1050 });
    walk.on_offset(0x1f8);
    assert_eq!(walk.offsets.osthread, 0x1f8);
    assert_eq!(walk.cursor, 0x1060);
    walk.on_names(None, Some("_name"));
    assert!(walk.is_finished());
    assert_eq!(walk.request(), WalkRequest::Finished);
}

#[test]
fn walk_ends_when_addresses_overflow() {
    let s = LayoutSymbols { base: u64::MAX - 4, ..symbols() };
    let walk = TableWalk::start(s);
    assert!(walk.is_finished());
    let s = LayoutSymbols { base: u64::MAX - 0x40, stride: 0x40, ..symbols() };
    let mut walk = TableWalk::start(s);
    assert!(!walk.is_finished());
    walk.on_names(Some("Klass"), Some("_name"));
    assert!(walk.is_finished());
}

#[test]
fn zero_stride_ends_the_walk() {
    let s = LayoutSymbols { stride: 0, ..symbols() };
    let mut walk = TableWalk::start(s);
    walk.on_names(Some("Klass"), Some("_name"));
    assert!(walk.is_finished());
    let table = vec![
        rec(Some("Klass"), Some("_name"), 16),
        rec(Some("JavaThread"), Some("_osthread"), 0x1f8),
    ];
    assert_eq!(walk_records(s, &table), DiscoveredOffsets::unknown());
    let mut walk = TableWalk::start(s);
    walk.on_names(Some("JavaThread"), Some("_osthread"));
    walk.on_offset(0x1f8);
    assert!(walk.is_finished());
    assert_eq!(walk.offsets.osthread, 0x1f8);
}

#[test]
fn offsets_record_once() {
    let mut o = DiscoveredOffsets::unknown();
    assert!(!o.is_complete());
    o.record(TargetField::OsThreadId, -1);
    assert_eq!(o.os_thread_id, OFFSET_UNKNOWN);
    o.record(TargetField::OsThreadId, 0x50);
    o.record(TargetField::OsThreadId, 0x60);
    assert_eq!(o.os_thread_id, 0x50);
    assert!(!o.is_complete());
    o.record(TargetField::OsThread, 0);
    assert!(o.is_complete());
}

#[test]
fn resolution_needs_both_offsets() {
    let unknown = DiscoveredOffsets::unknown();
    assert_eq!(osthread_pointer_at(&unknown, 0x7f00_0000), None);
    assert_eq!(thread_id_at(&unknown, 0x7f00_0000), None);
    let half = DiscoveredOffsets { osthread: 0x1f8, os_thread_id: OFFSET_UNKNOWN };
    assert_eq!(osthread_pointer_at(&half, 0x7f00_0000), None);
    assert_eq!(thread_id_at(&half, 0x7f00_0000), None);
}

#[test]
fn resolution_addresses() {
    let o = DiscoveredOffsets { osthread: 0x1f8, os_thread_id: 0x50 };
    assert_eq!(osthread_pointer_at(&o, 0x7f00_0000), Some(0x7f00_01f8));
    assert_eq!(thread_id_at(&o, 0x5500_0000), Some(0x5500_0050));
    assert_eq!(osthread_pointer_at(&o, u64::MAX), None);
    assert_eq!(thread_id_at(&o, u64::MAX - 0x4f), None);
    assert_eq!(thread_id_at(&o, u64::MAX - 0x50), Some(u64::MAX));
}
