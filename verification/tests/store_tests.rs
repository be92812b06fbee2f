use luftraum::connector::ingest_line;
use luftraum::sbs::{SbsDate, SbsTime};
use luftraum::store::{FieldValue, SharedDataDb, TrackField};

const POSITION_LINE: &str =
    "MSG,3,1,1,4CA1C2,1,2024/01/01,12:00:00.000,2024/01/01,12:00:00.000,,35000,,,53.5500,9.9900,,,,,,0";
const IDENT_LINE: &str =
    "MSG,5,1,1,4CA1C2,1,2024/01/01,12:00:01.000,2024/01/01,12:00:01.000,BAW123,,,,,,,,,,,0";

fn date() -> SbsDate {
    SbsDate { year: 2024, month: 1, day: 1 }
}

fn time() -> SbsTime {
    SbsTime { hour: 12, minute: 0, second: 0, nanosecond: 0 }
}

#[allow(clippy::too_many_arguments)]
fn update_simple(
    db: &mut SharedDataDb,
    hex: &str,
    transmission_type: usize,
    call_sign: Option<&str>,
    altitude: Option<i64>,
    ground_speed: Option<i64>,
    track: Option<i64>,
    latitude: Option<i64>,
    longitude: Option<i64>,
    squawk: Option<i32>,
) {
    db.update_data(
        Some("1".to_string()),
        Some("1".to_string()),
        hex.to_string(),
        Some("1".to_string()),
        call_sign.map(|s| s.to_string()),
        "MSG".to_string(),
        transmission_type,
        date(),
        time(),
        date(),
        time(),
        altitude,
        ground_speed,
        track,
        latitude,
        longitude,
        None,
        squawk,
        Some(false),
        Some(false),
        Some(false),
        Some(false),
    );
}

#[test]
fn test_position_update_roundtrip() {
    let mut db = SharedDataDb::new();
    update_simple(
        &mut db,
        "4CA1C2",
        3,
        Some(""),
        Some(350_000_000),
        None,
        None,
        Some(535_500),
        Some(99_900),
        None,
    );
    assert_eq!(
        db.get_latest_pos("4CA1C2".to_string()),
        Some((535_500, 99_900, 350_000_000))
    );
    assert_eq!(db.get_last_seen("4CA1C2".to_string()), Some(0));
}

#[test]
fn test_position_scenario_from_wire_line() {
    let mut db = SharedDataDb::new();
    assert!(ingest_line(&mut db, POSITION_LINE));
    let ids = db.get_planes_id();
    assert!(ids.iter().any(|s| s == "4CA1C2"));
    assert_eq!(
        db.get_latest_pos("4CA1C2".to_string()),
        Some((535_500, 99_900, 350_000_000))
    );
}

#[test]
fn test_call_sign_scenario_from_wire_line() {
    let mut db = SharedDataDb::new();
    assert!(ingest_line(&mut db, POSITION_LINE));
    assert_eq!(db.get_call_sign("4CA1C2".to_string()), "-");
    assert!(ingest_line(&mut db, IDENT_LINE));
    assert_eq!(db.get_call_sign("4CA1C2".to_string()), "BAW123");
}

#[test]
fn test_call_sign_never_blanked() {
    let mut db = SharedDataDb::new();
    update_simple(&mut db, "AAA111", 5, Some("BAW123"), None, None, None, None, None, None);
    assert_eq!(db.get_call_sign("AAA111".to_string()), "BAW123");
    // an identification update with an empty call sign must not blank it
    update_simple(&mut db, "AAA111", 5, Some(""), None, None, None, None, None, None);
    assert_eq!(db.get_call_sign("AAA111".to_string()), "BAW123");
    // nor one with an absent call sign, nor a position update
    update_simple(&mut db, "AAA111", 5, None, None, None, None, None, None, None);
    update_simple(&mut db, "AAA111", 3, Some(""), Some(1), None, None, Some(2), Some(3), None);
    assert_eq!(db.get_call_sign("AAA111".to_string()), "BAW123");
    // a later non-empty one replaces it
    update_simple(&mut db, "AAA111", 5, Some("DLH9U"), None, None, None, None, None, None);
    assert_eq!(db.get_call_sign("AAA111".to_string()), "DLH9U");
}

#[test]
fn test_unknown_id_is_absent_everywhere() {
    let db = SharedDataDb::new();
    assert_eq!(db.get_latest_pos("NOBODY".to_string()), None);
    assert_eq!(db.get_last_seen("NOBODY".to_string()), None);
    assert_eq!(db.get_squawk("NOBODY".to_string()), None);
    assert_eq!(db.get_ground_speed("NOBODY".to_string()), None);
    assert_eq!(db.get_track("NOBODY".to_string()), None);
    assert_eq!(db.get_call_sign("NOBODY".to_string()), "-");
    assert!(db.get_latest(TrackField::Altitude, "NOBODY".to_string()).is_none());
    assert!(db.get_planes_id().is_empty());
}

#[test]
fn test_velocity_and_squawk_updates() {
    let mut db = SharedDataDb::new();
    update_simple(&mut db, "BBB222", 1, Some(""), None, None, None, None, None, None);
    // velocity update fills ground speed and track angle
    update_simple(&mut db, "BBB222", 4, Some(""), None, Some(4_400_000), Some(1_805_000), None, None, None);
    assert_eq!(db.get_ground_speed("BBB222".to_string()), Some(4_400_000));
    assert_eq!(db.get_track("BBB222".to_string()), Some(1_805_000));
    // surveillance update fills the squawk
    update_simple(&mut db, "BBB222", 6, Some(""), None, None, None, None, None, Some(7700));
    assert_eq!(db.get_squawk("BBB222".to_string()), Some(7700));
    // an absent squawk on a type-6 update appends nothing
    update_simple(&mut db, "BBB222", 6, Some(""), None, None, None, None, None, None);
    assert_eq!(db.get_squawk("BBB222".to_string()), Some(7700));
    // position is still absent: no type-3 update arrived
    assert_eq!(db.get_latest_pos("BBB222".to_string()), None);
}

#[test]
fn test_get_latest_tails() {
    let mut db = SharedDataDb::new();
    update_simple(&mut db, "CCC333", 3, Some(""), Some(10_000), None, None, Some(1), Some(2), None);
    update_simple(&mut db, "CCC333", 3, Some(""), Some(20_000), None, None, Some(3), Some(4), None);
    assert_eq!(
        db.get_latest(TrackField::Altitude, "CCC333".to_string()),
        Some(FieldValue::Fixed(Some(20_000)))
    );
    assert_eq!(
        db.get_latest(TrackField::Latitude, "CCC333".to_string()),
        Some(FieldValue::Fixed(Some(3)))
    );
    assert_eq!(
        db.get_latest(TrackField::TransmissionType, "CCC333".to_string()),
        Some(FieldValue::Number(3))
    );
    assert_eq!(
        db.get_latest(TrackField::MessageType, "CCC333".to_string()),
        Some(FieldValue::Text("MSG".to_string()))
    );
    assert_eq!(
        db.get_latest(TrackField::GeneratedDate, "CCC333".to_string()),
        Some(FieldValue::Date(date()))
    );
    assert_eq!(
        db.get_latest(TrackField::IsOnGround, "CCC333".to_string()),
        Some(FieldValue::Flag(Some(false)))
    );
}

#[test]
fn test_aging_and_eviction() {
    let mut db = SharedDataDb::new();
    update_simple(&mut db, "DDD444", 3, Some(""), Some(1), None, None, Some(2), Some(3), None);
    for _ in 0..6 {
        db.increase_last_seen(10);
    }
    assert_eq!(db.get_last_seen("DDD444".to_string()), Some(60));
    db.evict(60);
    assert!(!db.get_planes_id().iter().any(|s| s == "DDD444"));
    assert_eq!(db.get_latest_pos("DDD444".to_string()), None);
}

#[test]
fn test_update_between_aging_survives_eviction() {
    let mut db = SharedDataDb::new();
    update_simple(&mut db, "EEE555", 3, Some(""), Some(1), None, None, Some(2), Some(3), None);
    update_simple(&mut db, "FFF666", 3, Some(""), Some(1), None, None, Some(2), Some(3), None);
    for _ in 0..5 {
        db.increase_last_seen(10);
    }
    // one of the two tracks reports in again
    update_simple(&mut db, "EEE555", 1, Some(""), None, None, None, None, None, None);
    assert_eq!(db.get_last_seen("EEE555".to_string()), Some(0));
    db.increase_last_seen(10);
    db.evict(60);
    let ids = db.get_planes_id();
    assert!(ids.iter().any(|s| s == "EEE555"));
    assert!(!ids.iter().any(|s| s == "FFF666"));
}

#[test]
fn test_eviction_tick_composition() {
    let mut db = SharedDataDb::new();
    update_simple(&mut db, "GGG777", 3, Some(""), Some(1), None, None, Some(2), Some(3), None);
    for _ in 0..5 {
        db.eviction_tick();
    }
    assert_eq!(db.get_last_seen("GGG777".to_string()), Some(50));
    db.eviction_tick();
    assert!(db.get_planes_id().is_empty());
}

#[test]
fn test_remove_plane() {
    let mut db = SharedDataDb::new();
    update_simple(&mut db, "HHH888", 3, Some(""), Some(1), None, None, Some(2), Some(3), None);
    db.remove_plane("NOBODY".to_string());
    assert_eq!(db.get_planes_id().len(), 1);
    db.remove_plane("HHH888".to_string());
    assert!(db.get_planes_id().is_empty());
}

#[test]
fn test_two_connectors_two_ids_keep_both() {
    let mut db = SharedDataDb::new();
    let line_a = POSITION_LINE;
    let line_b =
        "MSG,3,1,1,3C6444,1,2024/01/01,12:00:00.000,2024/01/01,12:00:00.000,,11000,,,48.3500,11.7800,,,,,,0";
    assert!(ingest_line(&mut db, line_a));
    assert!(ingest_line(&mut db, line_b));
    let ids = db.get_planes_id();
    assert_eq!(ids.len(), 2);
    assert!(ids.iter().any(|s| s == "4CA1C2"));
    assert!(ids.iter().any(|s| s == "3C6444"));
    assert_eq!(
        db.get_latest_pos("4CA1C2".to_string()),
        Some((535_500, 99_900, 350_000_000))
    );
    assert_eq!(
        db.get_latest_pos("3C6444".to_string()),
        Some((483_500, 117_800, 110_000_000))
    );
}

#[test]
fn test_rejected_counter() {
    let mut db = SharedDataDb::new();
    assert_eq!(db.get_rejected_count(), 0);
    assert!(!ingest_line(&mut db, "not,an,sbs,line"));
    assert_eq!(db.get_rejected_count(), 1);
    assert!(db.get_planes_id().is_empty());
    assert!(ingest_line(&mut db, POSITION_LINE));
    assert_eq!(db.get_rejected_count(), 1);
}
