use base64::Engine;
use fabro::command_log::{
    build_command_log_response, command_log_limit, log_fallback, stage_log_refs, LogFallback,
    LogSource, StageLogInfo, MAX_COMMAND_LOG_LIMIT,
};
use fabro::provenance::{parse_known_fabro_user_agent, run_client_provenance, RunClientProvenance};

fn b64(bytes: &[u8]) -> String {
    base64::engine::general_purpose::STANDARD.encode(bytes)
}

#[test]
fn command_log_limit_refuses_zero_and_caps() {
    assert_eq!(command_log_limit(0), Err("limit must be greater than 0".to_string()));
    assert_eq!(command_log_limit(10), Ok(10));
    assert_eq!(command_log_limit(u64::MAX), Ok(MAX_COMMAND_LOG_LIMIT));
}

#[test]
fn full_logs_are_paged_from_the_offset() {
    let r = build_command_log_response(2, 3, LogSource::Full(b"abcdefg".to_vec()), true, None, false);
    assert_eq!((r.offset, r.next_offset, r.total_bytes), (2, 5, 7));
    assert_eq!(r.bytes_base64, b64(b"cde"));
    assert!(r.eof);
    let past = build_command_log_response(50, 3, LogSource::Full(b"abc".to_vec()), false, Some("blob".to_string()), true);
    assert_eq!((past.offset, past.next_offset, past.total_bytes), (3, 3, 3));
    assert_eq!(past.bytes_base64, "");
    assert_eq!(past.cas_ref.as_deref(), Some("blob"));
    let tail = build_command_log_response(5, 100, LogSource::Full(b"abcdefg".to_vec()), false, None, true);
    assert_eq!(tail.bytes_base64, b64(b"fg"));
}

#[test]
fn sliced_logs_report_the_file_size() {
    let r = build_command_log_response(4, 10, LogSource::Sliced { bytes: b"xyz".to_vec(), total_bytes: 100 }, false, None, true);
    assert_eq!((r.offset, r.next_offset, r.total_bytes), (4, 7, 100));
    assert_eq!(r.bytes_base64, "eHl6");
    let clamped = build_command_log_response(500, 10, LogSource::Sliced { bytes: vec![], total_bytes: 100 }, false, None, true);
    assert_eq!(clamped.offset, 100);
}

#[test]
fn stage_output_decides_where_the_log_is_read() {
    let blob = StageLogInfo {
        output: Some("blob://sha256/abc".to_string()),
        output_is_blob_ref: true,
        live_streaming: None,
        completed: false,
    };
    assert_eq!(stage_log_refs(&blob), (Some("blob://sha256/abc".to_string()), false));
    assert_eq!(log_fallback(&blob), LogFallback::Blob { cas_ref: "blob://sha256/abc".to_string() });

    let inline = StageLogInfo { output: Some("hello".to_string()), output_is_blob_ref: false, live_streaming: None, completed: false };
    assert_eq!(stage_log_refs(&inline), (None, true));
    assert_eq!(log_fallback(&inline), LogFallback::Inline { text: "hello".to_string() });

    let done = StageLogInfo { output: None, output_is_blob_ref: false, live_streaming: Some(true), completed: true };
    assert_eq!(stage_log_refs(&done), (None, true));
    assert_eq!(log_fallback(&done), LogFallback::Empty { eof: true });
}

#[test]
fn known_fabro_user_agents_are_recognised() {
    assert_eq!(
        parse_known_fabro_user_agent("fabro-cli/1.2.3 (linux)"),
        Some(("fabro-cli".to_string(), "1.2.3".to_string()))
    );
    assert_eq!(
        parse_known_fabro_user_agent("  fabro-web/0.9\tMozilla"),
        Some(("fabro-web".to_string(), "0.9".to_string()))
    );
    assert_eq!(parse_known_fabro_user_agent("fabro-cli/"), None);
    assert_eq!(parse_known_fabro_user_agent("curl/8.0"), None);
    assert_eq!(parse_known_fabro_user_agent("fabro-cli"), None);
    assert_eq!(parse_known_fabro_user_agent("   "), None);
    assert_eq!(
        parse_known_fabro_user_agent("fabro-cli/1/2"),
        Some(("fabro-cli".to_string(), "1/2".to_string()))
    );
}

#[test]
fn client_provenance_keeps_the_raw_agent() {
    assert_eq!(run_client_provenance(None), None);
    assert_eq!(
        run_client_provenance(Some("curl/8")),
        Some(RunClientProvenance { user_agent: Some("curl/8".to_string()), name: None, version: None })
    );
    assert_eq!(
        run_client_provenance(Some("fabro-cli/2.0")),
        Some(RunClientProvenance {
            user_agent: Some("fabro-cli/2.0".to_string()),
            name: Some("fabro-cli".to_string()),
            version: Some("2.0".to_string()),
        })
    );
}
