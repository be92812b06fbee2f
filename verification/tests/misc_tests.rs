use luftraum::audit::format_log_line;
use luftraum::connector::{
    feed_step, mqtt_step, payload_to_text, FeedAction, FeedEvent, FeedState, MqttAction,
    MqttEvent, RECONNECT_DELAY_SECS,
};
use luftraum::math::{get_num_subdivisions, get_number_of_triangles_row, get_number_triangles};
use luftraum::squawks::{
    get_transponder_codes, get_transponder_description, TransponderCodeColor,
};
use luftraum::terrain::TerrainSrtmFile;

#[test]
fn test_number_triangles() {
    assert_eq!(get_number_triangles(0), 0);
    assert_eq!(get_number_triangles(1), 8);
    assert_eq!(get_number_triangles(9), 200);
}

#[test]
fn test_number_of_triangles_row() {
    assert_eq!(get_number_of_triangles_row(0), 0);
    assert_eq!(get_number_of_triangles_row(1), 4);
    assert_eq!(get_number_of_triangles_row(9), 20);
}

#[test]
fn test_num_subdivisions() {
    assert_eq!(get_num_subdivisions(2), 0);
    assert_eq!(get_num_subdivisions(6000), 2999);
    assert_eq!(get_num_subdivisions(7), 2);
}

#[test]
fn test_transponder_descriptions() {
    let hijack = get_transponder_description(7500).expect("known code");
    assert_eq!(hijack.0, "Aircraft Hijacking");
    assert_eq!(hijack.1, TransponderCodeColor::Red);
    let radio = get_transponder_description(7600).expect("known code");
    assert_eq!(radio.0, "Radio Communication Failure");
    let vfr = get_transponder_description(7000).expect("known code");
    assert_eq!(vfr.0, "VFR-Flüge ziviler Luftfahrzeuge");
    assert_eq!(vfr.1, TransponderCodeColor::Default);
    let rescue = get_transponder_description(20).expect("known code");
    assert_eq!(rescue.0, "Hubschrauber-Rettungsflüge");
    assert!(get_transponder_description(1234).is_none());
}

#[test]
fn test_transponder_code_table() {
    let codes = get_transponder_codes();
    assert_eq!(codes.len(), 19);
    assert_eq!(codes[0].0, 7500);
    assert_eq!(codes[18].0, 7000);
    let emergency = codes.iter().find(|e| e.0 == 7700).expect("emergency listed");
    assert_eq!(emergency.1, "General Emergency");
    assert_eq!(emergency.2, TransponderCodeColor::Red);
    for entry in &codes {
        let looked_up = get_transponder_description(entry.0).expect("table code is notable");
        assert_eq!(looked_up.0, entry.1);
        assert_eq!(looked_up.1, entry.2);
    }
}

#[test]
fn test_format_log_line() {
    assert_eq!(
        format_log_line(1704110400, "sbs", "MSG,3,1,1"),
        "1704110400,sbs,MSG,3,1,1"
    );
    assert_eq!(format_log_line(0, "topic/a", ""), "0,topic/a,");
    assert_eq!(format_log_line(907, "x", "y"), "907,x,y");
}

#[test]
fn test_feed_state_machine() {
    assert_eq!(RECONNECT_DELAY_SECS, 5);
    assert_eq!(
        feed_step(FeedState::Disconnected, FeedEvent::Start),
        (FeedState::Connecting, FeedAction::AttemptConnect)
    );
    assert_eq!(
        feed_step(FeedState::Connecting, FeedEvent::ConnectFailed),
        (FeedState::Disconnected, FeedAction::WaitThenRetry)
    );
    assert_eq!(
        feed_step(FeedState::Connecting, FeedEvent::ConnectSucceeded),
        (FeedState::Streaming, FeedAction::Ignore)
    );
    assert_eq!(
        feed_step(FeedState::Streaming, FeedEvent::LineReceived),
        (FeedState::Streaming, FeedAction::HandleLine)
    );
    assert_eq!(
        feed_step(FeedState::Streaming, FeedEvent::ReadFailed),
        (FeedState::Disconnected, FeedAction::WaitThenRetry)
    );
    assert_eq!(
        feed_step(FeedState::Streaming, FeedEvent::StreamEnded),
        (FeedState::Disconnected, FeedAction::WaitThenRetry)
    );
    // events that make no sense in a state change nothing
    assert_eq!(
        feed_step(FeedState::Disconnected, FeedEvent::LineReceived),
        (FeedState::Disconnected, FeedAction::Ignore)
    );
}

#[test]
fn test_mqtt_event_handling() {
    assert_eq!(mqtt_step(MqttEvent::IncomingPublish), MqttAction::DeliverPayload);
    assert_eq!(mqtt_step(MqttEvent::OtherIncoming), MqttAction::Observe);
    assert_eq!(mqtt_step(MqttEvent::Outgoing), MqttAction::Observe);
    assert_eq!(mqtt_step(MqttEvent::ConnectionError), MqttAction::Terminate);
}

#[test]
fn test_payload_to_text() {
    let ok = payload_to_text(&b"MSG,3,1".to_vec());
    assert_eq!(ok.as_deref(), Some("MSG,3,1"));
    let umlaut = payload_to_text(&"Flüge".as_bytes().to_vec());
    assert_eq!(umlaut.as_deref(), Some("Flüge"));
    let bad = payload_to_text(&vec![0xff, 0xfe, 0x4d]);
    assert_eq!(bad, None);
}

#[test]
fn test_terrain_srtm_file_entry() {
    let entry = TerrainSrtmFile {
        label: "Elbe".to_string(),
        srtm_file: "srtm_38_02.asc".to_string(),
    };
    assert_eq!(entry.label, "Elbe");
    assert_eq!(entry.srtm_file, "srtm_38_02.asc");
}
