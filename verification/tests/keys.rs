use fabro::ids::{RunBlobId, RunId, StageId};
use fabro::keys::{
    blob_key, blobs_prefix, parse_blob_id, parse_event_seq, run_data_prefix, run_event_key,
    run_event_seq_prefix, run_events_prefix, SlateKey,
};

const SUMMARY_SHA256: &str = "761b7ad8ad439b2855fcbb611331c646ef0870b0631247bba3f3025cb6df5a53";

#[test]
fn builder_joins_segments_with_null_byte() {
    let key = SlateKey::new("a").with("b").with("c");
    assert_eq!(key.as_bytes(), b"a\0b\0c");
}

#[test]
fn into_prefix_appends_trailing_null_byte() {
    let key = SlateKey::new("a").with("b").into_prefix();
    assert_eq!(key.as_bytes(), b"a\0b\0");
}

#[test]
fn event_key_segments() {
    let run_id: RunId = "01JT56VE4Z5NZ814GZN2JZD65A".parse().unwrap();
    let key = run_event_key(&run_id, 7, 123);
    let segments: Vec<String> = SlateKey::segments(key.as_str());
    assert_eq!(segments, [
        "runs",
        "01JT56VE4Z5NZ814GZN2JZD65A",
        "events",
        "000007-123"
    ]);
}

#[test]
fn blob_key_segments() {
    let blob_id = RunBlobId::new(b"summary");
    let key = SlateKey::new("blobs")
        .with("sha256")
        .with(&blob_id.to_string());
    let segments: Vec<String> = SlateKey::segments(key.as_str());
    assert_eq!(segments, [
        "blobs".to_string(),
        "sha256".to_string(),
        blob_id.to_string()
    ]);
}

#[test]
fn sequence_keys_are_zero_padded() {
    let run_id: RunId = "01JT56VE4Z5NZ814GZN2JZD65A".parse().unwrap();
    let key = run_event_key(&run_id, 7, 123);
    let segments = SlateKey::segments(key.as_str());
    let leaf = segments.last().unwrap();
    assert_eq!(leaf, "000007-123");
}

#[test]
fn parse_helpers_roundtrip() {
    let run_id: RunId = "01JT56VE4Z5NZ814GZN2JZD65A".parse().unwrap();
    assert_eq!(
        parse_event_seq(run_event_key(&run_id, 7, 123).as_str()),
        Some(7)
    );

    let blob_id = RunBlobId::new(b"summary");
    let key = SlateKey::new("blobs")
        .with("sha256")
        .with(&blob_id.to_string());
    assert_eq!(parse_blob_id(key.as_str()), Some(blob_id));
}

#[test]
fn parse_helpers_reject_invalid_keys() {
    assert_eq!(
        parse_event_seq(
            SlateKey::new("runs")
                .with("not-a-run")
                .with("events")
                .with("not-a-seq")
                .as_str()
        ),
        None
    );
    assert_eq!(
        parse_blob_id(SlateKey::new("blobs").with("not-a-uuid").as_str()),
        None
    );
    assert_eq!(
        parse_blob_id(
            SlateKey::new("blobs")
                .with("01JT56VE4Z5NZ814GZN2JZD65A")
                .with("not-a-blob")
                .as_str()
        ),
        None
    );
}

#[test]
fn blob_id_is_the_sha256_hex_digest() {
    let blob_id = RunBlobId::new(b"summary");
    assert_eq!(blob_id.to_string(), SUMMARY_SHA256);
    assert_eq!(RunBlobId::parse(SUMMARY_SHA256), Ok(blob_id));
    assert!(RunBlobId::parse("761b").is_err());
    assert!(RunBlobId::parse(&SUMMARY_SHA256.to_uppercase()).is_err());
}

#[test]
fn blob_key_is_blobs_sha256_and_the_digest() {
    let blob_id = RunBlobId::new(b"summary");
    let key = blob_key(&blob_id);
    assert_eq!(key.as_str(), format!("blobs\0sha256\0{SUMMARY_SHA256}"));
    assert_eq!(parse_blob_id(key.as_str()), Some(blob_id));
    assert_eq!(blobs_prefix().as_str(), "blobs\0sha256\0");
}

#[test]
fn run_prefixes_nest_under_the_run_id() {
    let run_id: RunId = "01JT56VE4Z5NZ814GZN2JZD65A".parse().unwrap();
    assert_eq!(
        run_data_prefix(&run_id).as_str(),
        "runs\001JT56VE4Z5NZ814GZN2JZD65A\0"
    );
    assert_eq!(
        run_events_prefix(&run_id).as_str(),
        "runs\001JT56VE4Z5NZ814GZN2JZD65A\0events\0"
    );
    assert_eq!(
        run_event_seq_prefix(&run_id, 42).as_str(),
        "runs\001JT56VE4Z5NZ814GZN2JZD65A\0events\0000042-"
    );
    let key = run_event_key(&run_id, 1_234_567, -5);
    assert_eq!(
        key.as_str(),
        "runs\001JT56VE4Z5NZ814GZN2JZD65A\0events\01234567--5"
    );
    assert_eq!(parse_event_seq(key.as_str()), Some(1_234_567));
}

#[test]
fn run_ids_round_trip_through_text() {
    let run_id: RunId = "01JT56VE4Z5NZ814GZN2JZD65A".parse().unwrap();
    assert_eq!(run_id.to_string(), "01JT56VE4Z5NZ814GZN2JZD65A");
    assert_eq!(RunId::from_u128(run_id.as_u128()), run_id);
    assert!("01JT56VE4Z5NZ814GZN2JZD65".parse::<RunId>().is_err());
    let fresh = RunId::new();
    assert_eq!(RunId::parse(&fresh.to_string()), Ok(fresh));
}

#[test]
fn run_id_timestamp_is_the_top_48_bits() {
    let run_id = RunId::from_u128(0x0000_0000_0123_0000_0000_0000_0000_0000);
    assert_eq!(run_id.created_at_ms(), 0x123);
}

#[test]
fn stage_ids_render_node_and_visit() {
    let stage = StageId::new("build", 2);
    assert_eq!(stage.to_string(), "build@2");
    assert_eq!(stage.node_id(), "build");
    assert_eq!(stage.visit(), 2);
}
