use kwybars::live::{
    cava_config_file_name, cava_config_text, clamp_millis, frame_delay_millis, millis_or_zero,
    now_millis,
    parse_cava_line, plan_stream, settled_source, SourceKind, StreamPlan, VisualizerBackend,
    VisualizerConfig,
};

fn level(token: &str) -> Option<f32> {
    token
        .parse::<f32>()
        .ok()
        .map(|raw| (raw / 1000.0).clamp(0.0, 1.0))
}

#[test]
fn parses_ascii_bar_line() {
    let parsed = parse_cava_line("50;125;1000\n", 3, level, 0.0);
    assert_eq!(parsed, Some(vec![0.05, 0.125, 1.0]));
}

#[test]
fn pads_short_line_to_expected_count() {
    let parsed = parse_cava_line("900;450\n", 4, level, 0.0);
    assert_eq!(parsed, Some(vec![0.9, 0.45, 0.0, 0.0]));
}

#[test]
fn cuts_long_line_to_expected_count() {
    let parsed = parse_cava_line("1;2;3;4;5;", 2, |t: &str| t.parse::<u32>().ok(), 0);
    assert_eq!(parsed, Some(vec![1, 2]));
}

#[test]
fn every_token_must_be_a_level() {
    // a bad token past the expected count still refuses the line
    assert_eq!(parse_cava_line("1;2;x", 2, |t: &str| t.parse::<u32>().ok(), 0), None);
}

#[test]
fn line_without_tokens_is_refused() {
    assert_eq!(parse_cava_line("", 3, level, 0.0), None);
    assert_eq!(parse_cava_line(" ; ;\t\n", 3, level, 0.0), None);
}

#[test]
fn white_space_and_empty_pieces_are_skipped() {
    let parsed = parse_cava_line("  7 ;; 8\u{a0};\r\n", 3, |t: &str| t.parse::<u32>().ok(), 9);
    assert_eq!(parsed, Some(vec![7, 8, 9]));
}

#[test]
fn levels_are_clamped_by_the_level_function() {
    let parsed = parse_cava_line("2000;-5", 2, level, 0.0);
    assert_eq!(parsed, Some(vec![1.0, 0.0]));
}

#[test]
fn cava_config_file_text() {
    assert_eq!(
        cava_config_text(48, 60),
        "[general]\nbars = 48\nframerate = 60\n\n[input]\nmethod = pulse\nsource = auto\n\n[output]\nmethod = raw\nraw_target = /dev/stdout\ndata_format = ascii\nascii_max_range = 1000\nbar_delimiter = 59\nframe_delimiter = 10\n"
    );
}

#[test]
fn cava_config_name_has_pid_and_time() {
    assert_eq!(
        cava_config_file_name(1234, 1700000000123),
        "kwybars-cava-1234-1700000000123.conf"
    );
    assert_eq!(
        cava_config_file_name(u32::MAX, u64::MAX),
        "kwybars-cava-4294967295-18446744073709551615.conf"
    );
}

#[test]
fn frame_delay_is_at_least_one_millisecond() {
    assert_eq!(frame_delay_millis(1), 1000);
    assert_eq!(frame_delay_millis(60), 16);
    assert_eq!(frame_delay_millis(1000), 1);
    assert_eq!(frame_delay_millis(5000), 1);
}

#[test]
fn plan_keeps_counts_positive() {
    let plan = plan_stream(&VisualizerConfig {
        backend: VisualizerBackend::Auto,
        bars: 0,
        framerate: 0,
    });
    assert_eq!(
        plan,
        StreamPlan {
            bar_count: 1,
            framerate: 1,
            try_cava: true
        }
    );
    let plan = plan_stream(&VisualizerConfig {
        backend: VisualizerBackend::Dummy,
        bars: 48,
        framerate: 60,
    });
    assert_eq!(
        plan,
        StreamPlan {
            bar_count: 48,
            framerate: 60,
            try_cava: false
        }
    );
}

#[test]
fn source_falls_back_to_dummy() {
    let cava = plan_stream(&VisualizerConfig {
        backend: VisualizerBackend::Cava,
        bars: 8,
        framerate: 30,
    });
    assert_eq!(settled_source(&cava, true), SourceKind::Cava);
    assert_eq!(settled_source(&cava, false), SourceKind::Dummy);
    let dummy = plan_stream(&VisualizerConfig {
        backend: VisualizerBackend::Dummy,
        bars: 8,
        framerate: 30,
    });
    assert_eq!(settled_source(&dummy, false), SourceKind::Dummy);
}

#[test]
fn millis_saturate() {
    assert_eq!(clamp_millis(0), 0);
    assert_eq!(clamp_millis(12345), 12345);
    assert_eq!(clamp_millis(u64::MAX as u128), u64::MAX);
    assert_eq!(clamp_millis(u128::MAX), u64::MAX);
}

#[test]
fn clock_reads_after_the_epoch() {
    // 2020-01-01 in milliseconds since the epoch
    assert!(now_millis() > 1_577_836_800_000);
}

#[test]
fn clock_before_epoch_reads_zero() {
    assert_eq!(millis_or_zero(None), 0);
    assert_eq!(millis_or_zero(Some(42)), 42);
    assert_eq!(millis_or_zero(Some(u128::MAX)), u64::MAX);
}

#[test]
fn fewer_bars_give_a_prefix() {
    for line in ["10;20;30;40;50", "5;6", "1; 2 ;x", ""] {
        let long = parse_cava_line(line, 6, level, 0.0);
        for n in 0..=6 {
            let short = parse_cava_line(line, n, level, 0.0);
            assert_eq!(short, long.as_ref().map(|v| v[..n].to_vec()));
        }
    }
}
