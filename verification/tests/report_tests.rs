use reso::api::{MirrorOutcome, MirrorSearch, MirrorStep};
use std::collections::BTreeSet;

use reso::alsa::{AlsaHwParams, DacCapabilities};
use reso::json::{JsonNumber, JsonValue};
use reso::pipewire::{parse_pw_dump_output, CulpritClient, PipeWireSink};
use reso::scrobble::{listenbrainz_payload, PlayedTrack};
use reso::status::{BitPerfectVerdict, PipelineStatus};

const RULE: &str = "=================================================================\n";

fn head() -> String {
    format!("{}               RESO AUDIOPHILE PIPELINE INSPECTOR                \n{}\n", RULE, RULE)
}

fn sink() -> PipeWireSink {
    PipeWireSink {
        id: 42,
        name: "alsa_output.usb-dac".to_string(),
        description: "USB DAC".to_string(),
        state: "running".to_string(),
        active_rate: Some(44100),
        format: Some("S24LE".to_string()),
        channels: Some(2),
        is_running: true,
    }
}

fn native_status() -> PipelineStatus {
    let mut rates = BTreeSet::new();
    rates.insert(96000u32);
    rates.insert(44100u32);
    let mut depths = BTreeSet::new();
    depths.insert(24u8);
    depths.insert(16u8);
    PipelineStatus {
        source_codec: "flac".to_string(),
        source_rate: 44100,
        source_channels: 2,
        source_bit_depth: Some(16),
        source_bitrate_kbps: None,
        mpv_volume_bits: 100.0f64.to_bits(),
        pw_sink: Some(sink()),
        pw_sink_rate: Some(44100),
        pw_allowed_rates: vec![44100, 48000],
        pw_dsp_filters: vec![],
        pw_culprits: vec![],
        alsa_card_name: Some("USB Audio DAC".to_string()),
        alsa_card_index: Some(1),
        alsa_hw_params: Some(AlsaHwParams {
            is_active: true,
            access: Some("MMAP_INTERLEAVED".to_string()),
            format: Some("S24_3LE".to_string()),
            channels: Some(2),
            rate: Some(44100),
            period_size: Some(1024),
            buffer_size: Some(4096),
        }),
        dac_capabilities: Some(DacCapabilities {
            card_name: "USB Audio DAC".to_string(),
            status: "Running".to_string(),
            momentary_freq_hz: Some(44100),
            supported_rates: rates,
            supported_bit_depths: depths,
            supported_formats: vec!["S16_LE".to_string(), "S24_3LE".to_string()],
        }),
        verdict: Some(BitPerfectVerdict::NativeBitPerfect),
    }
}

#[test]
fn inspect_report_for_bit_perfect_playback() {
    let expected = head()
        + "1. STREAM SOURCE (MPV DECODER)\n"
        + "   Codec:        flac\n"
        + "   Sample Rate:  44.1 kHz\n"
        + "   Bit Depth:    16-bit\n"
        + "   Channels:     2\n"
        + "   MPV Volume:   100.0% (Bit-perfect requires 100%)\n\n"
        + "2. PIPEWIRE AUDIO GRAPH\n"
        + "   Sink Node:    USB DAC [alsa_output.usb-dac]\n"
        + "   Sink Rate:    44.1 kHz\n"
        + "   Sink Format:  S24LE\n"
        + "   Allowed Rates: [44100, 48000]\n"
        + "   DSP Filters:  None (Bit-exact path)\n\n"
        + "3. HARDWARE DAC / ALSA\n"
        + "   DAC Device:   USB Audio DAC\n"
        + "   ALSA Status:  Active (Running)\n"
        + "   HW Rate:      44.1 kHz\n"
        + "   HW Format:    S24_3LE\n"
        + "   Buffer Size:  4096 periods\n"
        + "   DAC Supported Rates:  [44100, 96000]\n"
        + "   DAC Supported Depths: [16, 24] bits\n\n"
        + RULE
        + " STATUS: [ PASS ] \u{2713} BIT-PERFECT DIRECT PLAYBACK\n"
        + " Native source rate matches PipeWire sink and hardware DAC clocks.\n"
        + RULE;
    assert_eq!(native_status().format_cli_report("100.0"), expected);
}

#[test]
fn inspect_report_for_an_idle_pipeline() {
    let status = PipelineStatus {
        source_codec: String::new(),
        source_rate: 0,
        source_channels: 0,
        source_bit_depth: None,
        source_bitrate_kbps: None,
        mpv_volume_bits: 100.0f64.to_bits(),
        pw_sink: None,
        pw_sink_rate: None,
        pw_allowed_rates: vec![],
        pw_dsp_filters: vec![],
        pw_culprits: vec![],
        alsa_card_name: None,
        alsa_card_index: None,
        alsa_hw_params: None,
        dac_capabilities: None,
        verdict: None,
    };
    let expected = head()
        + "1. STREAM SOURCE (MPV DECODER)\n"
        + "   Codec:        None\n"
        + "   Sample Rate:  Unknown\n"
        + "   Bit Depth:    16/24-bit VBR\n"
        + "   Channels:     2\n"
        + "   MPV Volume:   100.0% (Bit-perfect requires 100%)\n\n"
        + "2. PIPEWIRE AUDIO GRAPH\n"
        + "   Sink Node:    None detected\n"
        + "   Allowed Rates: []\n"
        + "   DSP Filters:  None (Bit-exact path)\n\n"
        + "3. HARDWARE DAC / ALSA\n"
        + "   DAC Device:   Unknown\n\n"
        + RULE
        + " STATUS: [ IDLE ] Audio pipeline is currently paused or stopped.\n"
        + RULE;
    assert_eq!(status.format_cli_report("100.0"), expected);
}

#[test]
fn inspect_report_names_resampling_culprit() {
    let mut status = native_status();
    status.source_rate = 44100;
    status.pw_sink_rate = Some(48000);
    status.verdict = Some(BitPerfectVerdict::Resampled {
        source_rate: 44100,
        sink_rate: 48000,
        culprit: Some(CulpritClient {
            name: "Firefox".to_string(),
            pid: Some(1234),
            locking_rate: 48000,
            description: "Firefox (PID 1234) holds 48000 Hz".to_string(),
        }),
    });
    let report = status.format_cli_report("100.0");
    assert!(report.contains("   Sink Rate:    48.0 kHz\n"));
    assert!(report.ends_with(
        &(RULE.to_string()
            + " STATUS: [ WARNING ] \u{26a0} RESAMPLING DETECTED\n"
            + " Stream (44100 Hz) is being resampled to (48000 Hz).\n"
            + " CULPRIT: Firefox (PID 1234) holds 48000 Hz\n"
            + RULE)
    ));
}

#[test]
fn inspect_report_shows_volume_and_dsp_filters() {
    let mut status = native_status();
    status.verdict = Some(BitPerfectVerdict::VolumeDegraded { mpv_volume_bits: 75.0f64.to_bits() });
    let report = status.format_cli_report("75.0");
    assert!(report.contains("   MPV Volume:   75.0% (Bit-perfect requires 100%)\n\n"));
    assert!(report.contains(" MPV volume is at 75.0%. Set MPV volume to 100% to avoid truncating bit depth.\n"));

    let mut status = native_status();
    status.pw_dsp_filters = vec!["EasyEffects".to_string(), "eq \"bass\"".to_string()];
    status.verdict = Some(BitPerfectVerdict::DspFilterActive { filters: status.pw_dsp_filters.clone() });
    let report = status.format_cli_report("100.0");
    assert!(report.contains("   DSP Filters:  WARNING: [\"EasyEffects\", \"eq \\\"bass\\\"\"]\n"));
    assert!(report.contains(" PipeWire software filters active: [\"EasyEffects\", \"eq \\\"bass\\\"\"]\n"));
}

fn text(v: &JsonValue) -> &str {
    match v {
        JsonValue::Str(s) => s.as_str(),
        _ => panic!("not a string"),
    }
}

fn members(v: &JsonValue) -> &Vec<(String, JsonValue)> {
    match v {
        JsonValue::Object(m) => m,
        _ => panic!("not an object"),
    }
}

#[test]
fn listenbrainz_payload_holds_one_listen() {
    let played = PlayedTrack {
        artist: "Miles Davis".to_string(),
        title: "So What".to_string(),
        album: Some("Kind of Blue".to_string()),
    };
    let v = listenbrainz_payload(&played, 1_700_000_000);
    let top = members(&v);
    assert_eq!(top.len(), 2);
    assert_eq!(top[0].0, "listen_type");
    assert_eq!(text(&top[0].1), "single");
    assert_eq!(top[1].0, "payload");
    let items = match &top[1].1 {
        JsonValue::Array(a) => a,
        _ => panic!("payload is not an array"),
    };
    assert_eq!(items.len(), 1);
    let listen = members(&items[0]);
    assert_eq!(listen[0].0, "listened_at");
    assert!(matches!(listen[0].1, JsonValue::Number(JsonNumber::PosInt(1_700_000_000))));
    assert_eq!(listen[1].0, "track_metadata");
    let md = members(&listen[1].1);
    let pairs: Vec<(&str, &str)> = md.iter().map(|(k, x)| (k.as_str(), text(x))).collect();
    assert_eq!(
        pairs,
        vec![("artist_name", "Miles Davis"), ("release_name", "Kind of Blue"), ("track_name", "So What")]
    );

    let single = PlayedTrack { artist: "A".to_string(), title: "T".to_string(), album: None };
    let v = listenbrainz_payload(&single, 5);
    let items = match &members(&v)[1].1 {
        JsonValue::Array(a) => a,
        _ => panic!("payload is not an array"),
    };
    let listen = members(&items[0]);
    assert!(matches!(listen[0].1, JsonValue::Number(JsonNumber::PosInt(5))));
    let md = members(&listen[1].1);
    assert_eq!(md[1].0, "release_name");
    assert_eq!(text(&md[1].1), "");
}

#[test]
fn pw_dump_output_is_read_from_bytes() {
    let out = br#"[
        {"id": 31, "type": "PipeWire:Interface:Core",
         "info": {"props": {"default.clock.allowed-rates": "[ 44100 48000 ]",
                            "default.clock.rate": 48000}}},
        {"id": 55, "type": "PipeWire:Interface:Node",
         "info": {"state": "running",
                  "props": {"media.class": "Audio/Sink",
                            "node.name": "alsa_output.usb-dac",
                            "node.description": "USB DAC"},
                  "params": {"Format": [{"rate": 48000, "format": "S24LE", "channels": 2}]}}},
        {"id": 90, "type": "PipeWire:Interface:Node",
         "info": {"state": "running",
                  "props": {"media.class": "Stream/Output/Audio",
                            "application.name": "Firefox",
                            "application.process.id": 93384},
                  "params": {"Format": [{"rate": 48000, "format": "F32LE", "channels": 2}]}}}
    ]"#;
    let report = parse_pw_dump_output(out, Some(44100)).unwrap();
    assert_eq!(report.allowed_clock_rates, vec![44100, 48000]);
    assert_eq!(report.default_clock_rate, Some(48000));
    assert_eq!(report.active_sink.as_ref().unwrap().name, "alsa_output.usb-dac");
    assert_eq!(report.active_sink.as_ref().unwrap().active_rate, Some(48000));
    assert_eq!(report.culprits.len(), 1);
    assert_eq!(report.culprits[0].name, "Firefox");
    assert_eq!(report.culprits[0].pid, Some(93384));

    assert!(parse_pw_dump_output(b"not json", None).is_none());
    assert!(parse_pw_dump_output(b"[1, 2", None).is_none());
    let empty = parse_pw_dump_output(b"{}", None).unwrap();
    assert!(empty.active_sink.is_none());
    assert!(empty.allowed_clock_rates.is_empty());
}

#[test]
fn mirror_search_tries_each_mirror_once() {
    let mut s = MirrorSearch::new(3);
    assert_eq!(s.step(), MirrorStep::Try(0));
    assert_eq!(s.on_outcome(MirrorOutcome::Failed), MirrorStep::Try(1));
    assert_eq!(s.on_outcome(MirrorOutcome::Stations), MirrorStep::Found);
    assert_eq!(s.tried, 1);

    let mut s = MirrorSearch::new(3);
    assert_eq!(s.on_outcome(MirrorOutcome::Failed), MirrorStep::Try(1));
    assert_eq!(s.on_outcome(MirrorOutcome::Unreadable), MirrorStep::Try(2));
    assert_eq!(s.on_outcome(MirrorOutcome::Unreadable), MirrorStep::LastError);

    let mut s = MirrorSearch::new(2);
    assert_eq!(s.on_outcome(MirrorOutcome::Unreadable), MirrorStep::Try(1));
    assert_eq!(s.on_outcome(MirrorOutcome::Unreadable), MirrorStep::NoStations);

    assert_eq!(MirrorSearch::new(0).step(), MirrorStep::NoStations);
}
