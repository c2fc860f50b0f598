use md5::{Digest, Md5};
use reso::alsa::{parse_alsa_cards_content, parse_hw_params_content, parse_stream0_content, select_hw_params};
use reso::api::{now_playing_url, search_servers, search_url, RadioBrowserStation, RadioParadiseNowPlaying};
use reso::commands::{cycle_target, list_stations, recent_lines, record_plan, resolve_play_station, volume_plan, PlayError, RecordPlan, VolumePlan};
use reso::config::{format_bookmark_line, AppConfig, ConfigManager, Station, StationsCatalog};
use reso::dashboard::{truncate_str, ActiveTab, AppAction, Dashboard, Key, KeyEffect, MpvReaction};
use reso::display::{allowed_rates_text, banner_title, bit_depth_text, buffer_text, channels_text, chip_active, dsp_text, rate_label, rate_tone, record_pulse_bright, resample_diagnosis, sleep_badge, verdict_badge, Tone};
use reso::events::{AudioStreamParams, PlaybackState, TrackMetadata};
use reso::json::{number_to_u32, JsonNumber, JsonValue};
use reso::mpris::{metadata, playback_status, supported_mime_types};
use reso::mpv::{decode_ipc, observed_properties, parse_artist_title, MpvEvent, MpvTracker};
use reso::pipewire::{parse_allowed_rates, parse_pw_dump_json, CulpritClient};
use reso::scrobble::{calculate_lastfm_signature, kv_insert_exec, PlayedTrack, ScrobbleTracker};
use reso::status::{select_target_card, BitPerfectVerdict, PipelineStatus};
use reso::util::{format_bitrate, format_duration, format_sample_rate, parse_duration_parts, recording_file_name, sanitize_filename};

fn to_json(v: &serde_json::Value) -> JsonValue {
    match v {
        serde_json::Value::Null => JsonValue::Null,
        serde_json::Value::Bool(b) => JsonValue::Bool(*b),
        serde_json::Value::Number(n) => {
            if let Some(u) = n.as_u64() {
                JsonValue::Number(JsonNumber::PosInt(u))
            } else if let Some(i) = n.as_i64() {
                JsonValue::Number(JsonNumber::NegInt(i))
            } else {
                JsonValue::Number(JsonNumber::Float(n.as_f64().unwrap_or(0.0).to_bits()))
            }
        }
        serde_json::Value::String(s) => JsonValue::Str(s.clone()),
        serde_json::Value::Array(a) => JsonValue::Array(a.iter().map(to_json).collect()),
        serde_json::Value::Object(m) => {
            JsonValue::Object(m.iter().map(|(k, x)| (k.clone(), to_json(x))).collect())
        }
    }
}

fn json(text: &str) -> JsonValue {
    to_json(&serde_json::from_str::<serde_json::Value>(text).unwrap())
}

fn station(id: &str, name: &str, codec: &str, tags: &[&str], favorite: bool) -> Station {
    Station {
        id: id.to_string(),
        name: name.to_string(),
        url: format!("https://example.org/{}", id),
        codec: codec.to_string(),
        sample_rate: 44100,
        bit_depth: 16,
        homepage: None,
        tags: tags.iter().map(|t| t.to_string()).collect(),
        favorite,
        rp_channel: None,
    }
}

fn manager(stations: Vec<Station>) -> ConfigManager {
    ConfigManager::new(
        "/tmp/reso".to_string(),
        AppConfig::with_paths("/tmp/reso.sock".to_string(), "/tmp/rec".to_string()),
        StationsCatalog { stations },
    )
}

fn sample_manager() -> ConfigManager {
    manager(vec![
        station("rp-main", "Radio Paradise Main", "FLAC", &["eclectic"], false),
        station("jazz-1", "Jazz Night", "AAC", &["jazz", "smooth"], true),
        station("classic", "Classic FM", "MP3", &["classical"], false),
    ])
}

// ----- formatting -----

#[test]
fn sample_rate_matches_float_formatting() {
    let mut hz: u32 = 1;
    while hz < 400_000 {
        let expected = if hz % 1000 == 0 {
            format!("{}.0 kHz", hz / 1000)
        } else {
            format!("{:.1} kHz", hz as f64 / 1000.0)
        };
        assert_eq!(format_sample_rate(hz), expected, "rate {}", hz);
        hz += 37;
    }
    for hz in [22050u32, 44100, 11025, 250, 750, 1250, 4_294_967_295] {
        let expected = format!("{:.1} kHz", hz as f64 / 1000.0);
        assert_eq!(format_sample_rate(hz), expected);
    }
}

#[test]
fn bitrate_texts() {
    assert_eq!(format_bitrate(0), "Lossless / VBR");
    assert_eq!(format_bitrate(920), "920 kbps");
    assert_eq!(format_bitrate(1000), "1.0 Mbps");
    assert_eq!(format_bitrate(1411), "1.4 Mbps");
    let mut k: u32 = 1000;
    while k < 100_000 {
        assert_eq!(format_bitrate(k), format!("{:.1} Mbps", k as f64 / 1000.0));
        k += 13;
    }
}

#[test]
fn duration_texts() {
    assert_eq!(format_duration(0), "00:00");
    assert_eq!(format_duration(59), "00:59");
    assert_eq!(format_duration(3600), "01:00:00");
    assert_eq!(format_duration(360000), "100:00:00");
}

#[test]
fn duration_parsing_edges() {
    assert_eq!(parse_duration_parts("  90 "), Some((90, 0)));
    assert_eq!(parse_duration_parts("+7"), Some((7, 0)));
    assert_eq!(parse_duration_parts("2h 5m"), Some((7500, 0)));
    assert_eq!(parse_duration_parts("abc"), None);
    assert_eq!(parse_duration_parts(""), None);
    assert_eq!(parse_duration_parts("1500ms"), Some((1, 500_000_000)));
}

#[test]
fn file_names() {
    assert_eq!(sanitize_filename("  a/b  "), "a_b");
    assert_eq!(sanitize_filename("Émission №5"), "Émission _5");
    assert_eq!(
        recording_file_name("Radio X", Some("A/B"), "20240101_120000"),
        "Radio X_20240101_120000_A_B.flac"
    );
    assert_eq!(recording_file_name("R", None, "T"), "R_T_Stream.flac");
}

#[test]
fn truncation() {
    assert_eq!(truncate_str("hello", 10), "hello");
    assert_eq!(truncate_str("hello", 5), "hello");
    assert_eq!(truncate_str("hello world", 5), "hell\u{2026}");
    assert_eq!(truncate_str("abc", 0), "");
    assert_eq!(truncate_str("abc", 1), "\u{2026}");
    assert_eq!(truncate_str("", 0), "");
    assert_eq!(truncate_str("ééééé", 3), "éé\u{2026}");
}

#[test]
fn display_fields() {
    assert_eq!(rate_label(44100), "44.1k");
    assert_eq!(rate_label(48000), "48k");
    assert_eq!(allowed_rates_text(&vec![]), "Dynamic rates");
    assert_eq!(allowed_rates_text(&vec![44100, 48000, 88200]), "44.1k, 48k, 88.2k");
    assert_eq!(rate_tone(44100, 44100), Tone::Good);
    assert_eq!(rate_tone(48000, 44100), Tone::Warn);
    assert_eq!(rate_tone(0, 44100), Tone::Muted);
    assert_eq!(rate_tone(0, 0), Tone::Muted);
    assert!(chip_active(96000, 96000));
    assert!(!chip_active(0, 0));
    assert_eq!(dsp_text(&vec![]), "None (Bit-exact)");
    assert_eq!(dsp_text(&vec!["eq".to_string(), "lsp".to_string()]), "Active (2)");
    assert_eq!(channels_text(0), "2 (Stereo)");
    assert_eq!(channels_text(6), "6 ch");
    assert_eq!(bit_depth_text(Some(24)), "24-bit");
    assert_eq!(bit_depth_text(None), "16/24-bit");
    let hw = parse_hw_params_content("period_size: 512\nbuffer_size: 4096\n");
    assert_eq!(buffer_text(Some(&hw)), "512/4096");
    assert_eq!(buffer_text(None), "\u{2014}");
    assert!(record_pulse_bright(4));
    assert!(!record_pulse_bright(5));
    assert_eq!(sleep_badge(65), " \u{23f3}01:05 ");
    let v = BitPerfectVerdict::Resampled { source_rate: 44100, sink_rate: 48000, culprit: None };
    assert_eq!(verdict_badge(Some(&v), 44100).0, " [\u{26a0} RESAMPLED: 44.1 kHz\u{2192}48.0 kHz] ");
    assert_eq!(verdict_badge(None, 0), (" [STANDBY] ".to_string(), Tone::Muted));
    assert_eq!(banner_title(Some(&BitPerfectVerdict::NativeBitPerfect)).1, Tone::Good);
    let c = CulpritClient { name: "Firefox".to_string(), pid: Some(1), locking_rate: 48000, description: "x".to_string() };
    assert_eq!(
        resample_diagnosis(44100, 48000, Some(&c)),
        "Stream sample rate (44.1 kHz) is resampled to (48.0 kHz) by PipeWire (Locked by: Firefox)"
    );
}

// ----- ALSA -----

#[test]
fn hw_params_edges() {
    let p = parse_hw_params_content("channels: abc\nrate: \naccess:RW\nnonsense\n");
    assert!(p.is_active);
    assert_eq!(p.channels, None);
    assert_eq!(p.rate, None);
    assert_eq!(p.access.as_deref(), Some("RW"));
    let q = parse_hw_params_content("rate: 48000\r\nrate: 44100 (44100/1)\r\n");
    assert_eq!(q.rate, Some(44100));
}

#[test]
fn hw_params_substream_choice() {
    let picked = select_hw_params(&vec![
        None,
        Some("closed\n".to_string()),
        Some("   \n".to_string()),
        Some("rate: 48000\n".to_string()),
        Some("rate: 96000\n".to_string()),
    ]);
    assert!(picked.is_active);
    assert_eq!(picked.rate, Some(48000));
    let none = select_hw_params(&vec![None, Some("closed".to_string())]);
    assert!(!none.is_active);
    assert_eq!(none.rate, None);
}

#[test]
fn stream0_sections_and_order() {
    let raw = "Chu2 at usb-1\nCapture:\n  Format: S32_LE\n  Rates: 8000\nPlayback:\n  Status:Status: Stop\n  Format: S24_3LE\n  Format: S16_LE\n  Format: S24_3LE\n  Bits: 300\n  Rates: 44100, x, , 48000\n  Momentary freq = abc\n";
    let caps = parse_stream0_content(raw);
    assert_eq!(caps.card_name, "Chu2 at usb-1");
    assert_eq!(caps.status, "Stop");
    assert_eq!(caps.supported_formats, vec!["S16_LE".to_string(), "S24_3LE".to_string()]);
    assert_eq!(caps.supported_rates.iter().cloned().collect::<Vec<u32>>(), vec![44100, 48000]);
    assert_eq!(caps.supported_bit_depths.iter().cloned().collect::<Vec<u8>>(), vec![16, 24]);
    assert_eq!(caps.momentary_freq_hz, None);
}

#[test]
fn card_list() {
    let raw = " 0 [PCH            ]: HDA-Intel - HDA Intel PCH\n                      HDA Intel PCH at 0xf7f10000 irq 32\n 1 [DSP            ]: USB-Audio - Chu2 DSP\n                      KTMicro Chu2 DSP at usb-0000:00:14.0-9, full speed\n";
    let cards = parse_alsa_cards_content(raw);
    assert_eq!(cards.len(), 2);
    assert_eq!(cards[0].index, 0);
    assert_eq!(cards[0].id, "PCH");
    assert_eq!(cards[0].name, "HDA-Intel - HDA Intel PCH (HDA Intel PCH at 0xf7f10000 irq 32)");
    assert!(!cards[0].is_usb);
    assert_eq!(cards[1].id, "DSP");
    assert!(cards[1].is_usb);
    assert_eq!(select_target_card(&cards), Some(1));
    let plain = parse_alsa_cards_content(" 3 [A ]: x - y\n 1 [B ]: x - z\n");
    assert_eq!(plain.len(), 2);
    assert_eq!(plain[0].name, "x - y");
    assert_eq!(select_target_card(&plain), Some(1));
    assert_eq!(select_target_card(&vec![]), None);
}

// ----- PipeWire -----

#[test]
fn pipewire_edges() {
    assert_eq!(parse_allowed_rates("44100, \"48000\", x"), vec![44100, 48000]);
    let not_array = parse_pw_dump_json(&JsonValue::Null, Some(44100));
    assert!(not_array.active_sink.is_none());
    assert!(not_array.culprits.is_empty());
    let dump = json(r#"[
        {"id": 5, "type": "PipeWire:Interface:Node", "info": {"state": "running",
          "props": {"media.class": "Audio/Sink", "node.name": "sink"},
          "params": {"Format": [{"rate": 48000}]}}},
        {"id": 6, "type": "PipeWire:Interface:Node", "info": {"state": "running",
          "props": {"media.class": "Stream/Output/Audio", "application.name": "mpv"},
          "params": {"Format": [{"rate": 48000}]}}},
        {"id": 7, "type": "PipeWire:Interface:Node", "info": {"state": "idle",
          "props": {"media.class": "Stream/Output/Audio", "application.name": "Other"}}}
    ]"#);
    let r = parse_pw_dump_json(&dump, Some(44100));
    assert_eq!(r.active_sink.as_ref().map(|s| s.id), Some(5));
    assert!(r.mpv_stream.is_some());
    assert!(r.culprits.is_empty());
    let no_target = parse_pw_dump_json(&dump, None);
    assert!(no_target.culprits.is_empty());
}

// ----- JSON numbers -----

#[test]
fn numbers_cut_like_float_casts() {
    let floats = [0.0f64, -0.0, 0.5, 1.0, 3.99, 320000.0, 4294967295.0, 4294967296.0, 1e12, -1.0, -1e300, f64::NAN, f64::INFINITY, f64::NEG_INFINITY, 1e-300, 123456.789];
    for f in floats {
        assert_eq!(number_to_u32(JsonNumber::Float(f.to_bits())), f as u32, "value {}", f);
    }
    assert_eq!(number_to_u32(JsonNumber::PosInt(5_000_000_000)), u32::MAX);
    assert_eq!(number_to_u32(JsonNumber::PosInt(320_000)), 320_000);
    assert_eq!(number_to_u32(JsonNumber::NegInt(-5)), 0);
}

// ----- MPV -----

#[test]
fn artist_title_edges() {
    assert_eq!(parse_artist_title("   "), (None, None));
    assert_eq!(parse_artist_title(" - Title"), (None, Some("- Title".to_string())));
    assert_eq!(parse_artist_title("A - B - C"), (Some("A".to_string()), Some("B - C".to_string())));
    assert_eq!(parse_artist_title("A -  / T"), (Some("A".to_string()), Some("/ T".to_string())));
    assert_eq!(parse_artist_title("A- / T"), (Some("A-".to_string()), Some("T".to_string())));
}

#[test]
fn display_name_round_trips_through_artist_title() {
    let t = TrackMetadata {
        artist: Some("Nina Simone".to_string()),
        title: Some("Sinnerman".to_string()),
        album: None,
        year: None,
        raw_title: None,
        cover_url: None,
        duration_remaining_secs: None,
    };
    let name = t.display_name();
    assert_eq!(name, "Nina Simone - Sinnerman");
    assert_eq!(parse_artist_title(&name), (t.artist.clone(), t.title.clone()));
}

#[test]
fn observers() {
    let obs = observed_properties();
    assert_eq!(obs.len(), 9);
    assert_eq!(obs[0], (1, "pause".to_string()));
    assert_eq!(obs[8], (9, "stream-record".to_string()));
}

#[test]
fn ipc_decoding() {
    let v = json(r#"{"event":"property-change","id":1,"name":"pause","data":false,"extra":3}"#);
    let m = decode_ipc(&v).unwrap();
    assert_eq!(m.event.as_deref(), Some("property-change"));
    assert_eq!(m.id, Some(1));
    assert!(matches!(m.data, Some(JsonValue::Bool(false))));
    let nulls = json(r#"{"event":null,"data":null}"#);
    let n = decode_ipc(&nulls).unwrap();
    assert!(n.event.is_none() && n.data.is_none());
    assert!(decode_ipc(&json(r#"{"event":5}"#)).is_none());
    assert!(decode_ipc(&json(r#"{"id":-1}"#)).is_none());
    assert!(decode_ipc(&json(r#"{"id":1.5}"#)).is_none());
    assert!(decode_ipc(&json(r#""text""#)).is_none());
    let arr_value = json(r#"["end-file", 3]"#);
    let arr = decode_ipc(&arr_value).unwrap();
    assert_eq!(arr.event.as_deref(), Some("end-file"));
    assert_eq!(arr.id, Some(3));
    assert!(decode_ipc(&json(r#"[null,null,null,null,null,null,null]"#)).is_none());
}

fn feed(t: &mut MpvTracker, text: &str) -> Option<MpvEvent> {
    let v = json(text);
    let m = decode_ipc(&v).unwrap();
    t.handle_message(&m)
}

#[test]
fn tracker_sequence() {
    let mut t = MpvTracker::new();
    assert!(feed(&mut t, r#"{"event":"property-change","id":1,"data":false}"#).is_none());
    assert!(matches!(feed(&mut t, r#"{"event":"property-change","id":2,"data":false}"#), Some(MpvEvent::State(PlaybackState::Playing))));
    assert!(matches!(feed(&mut t, r#"{"event":"property-change","id":1,"data":true}"#), Some(MpvEvent::State(PlaybackState::Paused))));
    assert!(feed(&mut t, r#"{"event":"property-change","id":1,"data":"yes"}"#).is_none());
    match feed(&mut t, r#"{"event":"property-change","id":5,"data":"Nils Frahm - Says"}"#) {
        Some(MpvEvent::Metadata(m)) => {
            assert_eq!(m.artist.as_deref(), Some("Nils Frahm"));
            assert_eq!(m.title.as_deref(), Some("Says"));
            assert_eq!(m.raw_title.as_deref(), Some("Nils Frahm - Says"));
        }
        _ => panic!("metadata expected"),
    }
    assert!(feed(&mut t, r#"{"event":"property-change","id":4,"data":"  "}"#).is_none());
    match feed(&mut t, r#"{"event":"property-change","id":3,"data":{"samplerate":96000,"channel-count":2,"format":"s24"}}"#) {
        Some(MpvEvent::AudioParams(p)) => {
            assert_eq!(p.sample_rate, 96000);
            assert_eq!(p.channels, 2);
            assert_eq!(p.bit_depth, Some(24));
        }
        _ => panic!("params expected"),
    }
    match feed(&mut t, r#"{"event":"property-change","id":3,"data":{"samplerate":-3,"channel-count":"two","format":"floatp"}}"#) {
        Some(MpvEvent::AudioParams(p)) => {
            assert_eq!(p.sample_rate, 0);
            assert_eq!(p.channels, 2);
            assert_eq!(p.bit_depth, Some(24));
        }
        _ => panic!("params expected"),
    }
    match feed(&mut t, r#"{"event":"property-change","id":6,"data":320000.0}"#) {
        Some(MpvEvent::AudioParams(p)) => assert_eq!(p.bitrate_kbps, Some(320)),
        _ => panic!("bitrate expected"),
    }
    match feed(&mut t, r#"{"event":"property-change","id":7,"data":"flac"}"#) {
        Some(MpvEvent::AudioParams(p)) => assert_eq!(p.codec, "FLAC"),
        _ => panic!("codec expected"),
    }
    assert!(matches!(feed(&mut t, r#"{"event":"property-change","id":8,"data":55}"#), Some(MpvEvent::Volume(JsonNumber::PosInt(55)))));
    match feed(&mut t, r#"{"event":"property-change","id":9,"data":"/tmp/a.flac"}"#) {
        Some(MpvEvent::RecordingState { is_recording, path }) => {
            assert!(is_recording);
            assert_eq!(path.as_deref(), Some("/tmp/a.flac"));
        }
        _ => panic!("recording expected"),
    }
    assert!(matches!(feed(&mut t, r#"{"event":"property-change","id":9}"#), Some(MpvEvent::RecordingState { is_recording: false, path: None })));
    assert!(feed(&mut t, r#"{"event":"playback-restart"}"#).is_none());
    assert!(matches!(feed(&mut t, r#"{"event":"end-file"}"#), Some(MpvEvent::State(PlaybackState::Stopped))));
    assert!(feed(&mut t, r#"{"request_id":100,"error":"success"}"#).is_none());
}

// ----- status -----

fn params(rate: u32) -> AudioStreamParams {
    AudioStreamParams { codec: "FLAC".to_string(), sample_rate: rate, channels: 2, bit_depth: Some(24), bitrate_kbps: Some(920) }
}

#[test]
fn verdicts() {
    let idle = PipelineStatus::begin(&params(0), 100f64.to_bits());
    assert!(matches!(idle.verdict, Some(BitPerfectVerdict::Idle)));

    let mut s = PipelineStatus::begin(&params(44100), 100f64.to_bits());
    assert!(s.verdict.is_none());
    assert!(matches!(s.calculate_verdict(false), BitPerfectVerdict::NativeBitPerfect));
    match s.calculate_verdict(true) {
        BitPerfectVerdict::VolumeDegraded { mpv_volume_bits } => assert_eq!(f64::from_bits(mpv_volume_bits), 100.0),
        _ => panic!("volume verdict expected"),
    }
    s.pw_sink_rate = Some(48000);
    s.pw_culprits = vec![CulpritClient { name: "Firefox".to_string(), pid: None, locking_rate: 48000, description: "Firefox (PID ?) @ 48.0 kHz".to_string() }];
    match s.calculate_verdict(false) {
        BitPerfectVerdict::Resampled { source_rate, sink_rate, culprit } => {
            assert_eq!((source_rate, sink_rate), (44100, 48000));
            assert_eq!(culprit.unwrap().name, "Firefox");
        }
        _ => panic!("resampled expected"),
    }
    s.pw_sink_rate = None;
    s.record_alsa(Some(parse_hw_params_content("rate: 96000\n")), None);
    match s.calculate_verdict(false) {
        BitPerfectVerdict::Resampled { sink_rate, culprit, .. } => {
            assert_eq!(sink_rate, 96000);
            assert!(culprit.is_none());
        }
        _ => panic!("hardware mismatch expected"),
    }
    s.pw_dsp_filters = vec!["easyeffects".to_string()];
    s.conclude(true);
    assert!(matches!(s.verdict, Some(BitPerfectVerdict::DspFilterActive { .. })));
}

#[test]
fn status_stages() {
    let mut s = PipelineStatus::begin(&params(44100), 100f64.to_bits());
    let cards = parse_alsa_cards_content(" 0 [PCH ]: HDA - Intel\n 1 [X ]: y - z\n");
    assert_eq!(s.choose_card(&cards), Some(1));
    assert_eq!(s.alsa_card_name.as_deref(), Some("y - z"));
    assert_eq!(s.alsa_card_index, Some(1));
    let mut empty = PipelineStatus::begin(&params(44100), 0);
    assert_eq!(empty.choose_card(&vec![]), None);
    assert!(empty.alsa_card_name.is_none());
}

// ----- dashboard -----

#[test]
fn dashboard_jump_keys() {
    let mut d = Dashboard::new(sample_manager());
    let n = d.filtered_stations().len();
    assert_eq!(n, 3);
    d.handle_key_event(Key::Char('G'));
    assert_eq!(d.station_list_index, n - 1);
    d.handle_key_event(Key::Char('g'));
    assert_eq!(d.station_list_index, 0);
    d.handle_key_event(Key::End);
    assert_eq!(d.station_list_index, 2);
    d.handle_key_event(Key::Home);
    assert_eq!(d.station_list_index, 0);
    d.handle_key_event(Key::PageDown);
    assert_eq!(d.station_list_index, 2);
    d.handle_key_event(Key::PageUp);
    assert_eq!(d.station_list_index, 0);
    d.search_results = (0..12).map(|i| station(&format!("s{}", i), "S", "FLAC", &[], false)).collect();
    d.active_tab = ActiveTab::Search;
    d.handle_key_event(Key::PageDown);
    assert_eq!(d.search_results_index, 5);
    d.handle_key_event(Key::PageDown);
    assert_eq!(d.search_results_index, 10);
    d.handle_key_event(Key::PageDown);
    assert_eq!(d.search_results_index, 11);
    d.handle_key_event(Key::PageUp);
    assert_eq!(d.search_results_index, 6);
    d.handle_key_event(Key::PageUp);
    assert_eq!(d.search_results_index, 1);
    d.handle_key_event(Key::PageUp);
    assert_eq!(d.search_results_index, 0);
    // the search box takes `g` as text
    d.search_input_active = true;
    d.handle_key_event(Key::Char('G'));
    assert_eq!(d.search_results_index, 0);
    assert_eq!(d.search_query, "G");
}

#[test]
fn cycling_from_start() {
    let mut d = Dashboard::new(sample_manager());
    for k in 1..=7usize {
        let st = d.cycle_station(true).unwrap();
        assert_eq!(d.station_list_index, k % 3);
        assert_eq!(st.id, d.config_manager.catalog.stations[k % 3].id);
    }
    let mut b = Dashboard::new(sample_manager());
    for k in 1..=7usize {
        let st = b.cycle_station(false).unwrap();
        assert_eq!(b.station_list_index, (3 - k % 3) % 3);
        assert_eq!(st.id, b.config_manager.catalog.stations[(3 - k % 3) % 3].id);
        assert_eq!(b.current_station.as_ref().unwrap().id, st.id);
    }
}

#[test]
fn capture_section_changes_nothing() {
    let head = "USB DAC at usb-0000:00:14.0-1, high speed : USB Audio\n\nPlayback:\n  Status: Running\n  Interface 1\n    Format: S24_3LE\n    Rates: 44100, 96000\n";
    let tail = "    Status: Stop\n    Format: S16_LE\n    Rates: 8000\n    Bits: 16\n";
    let a = parse_stream0_content(&format!("{}Capture:\n", head));
    let b = parse_stream0_content(&format!("{}Capture:\n{}", head, tail));
    assert_eq!(a.status, b.status);
    assert_eq!(a.supported_rates, b.supported_rates);
    assert_eq!(a.supported_bit_depths, b.supported_bit_depths);
    assert_eq!(a.supported_formats, b.supported_formats);
    assert_eq!(b.supported_formats, vec!["S24_3LE".to_string()]);
}

#[test]
fn sanitizing_twice_changes_nothing() {
    for name in ["Radio Paradise / Main Mix: FLAC (Hi-Res)", "  a\tb  ", "\t/x/\t", "ok_name-1.flac", ""] {
        let once = sanitize_filename(name);
        assert_eq!(sanitize_filename(&once), once);
    }
}

#[test]
fn durations_whose_seconds_could_overflow_are_refused() {
    assert_eq!(parse_duration_parts("18446744073709551615s 1000000000ns"), None);
    assert_eq!(parse_duration_parts("10000000000000000000s"), None);
    assert_eq!(parse_duration_parts("1000000000000y"), None);
    assert_eq!(parse_duration_parts("100000000000s"), Some((100_000_000_000, 0)));
    assert_eq!(parse_duration_parts("1000000000000000s"), Some((1_000_000_000_000_000, 0)));
    assert_eq!(parse_duration_parts("99999999999h"), Some((99_999_999_999 * 3600, 0)));
    assert_eq!(parse_duration_parts("10000000000y"), Some((10_000_000_000 * 31_557_600, 0)));
    assert_eq!(parse_duration_parts("1.5h 2min"), Some((5520, 0)));
    assert_eq!(parse_duration_parts("12345678901ns"), Some((12, 345678901)));
    assert_eq!(parse_duration_parts("18446744073709551615"), Some((u64::MAX, 0)));
}

#[test]
fn long_subsecond_durations_are_read() {
    assert_eq!(parse_duration_parts("100000000000ns"), Some((100, 0)));
    assert_eq!(parse_duration_parts("123456789012ns"), Some((123, 456789012)));
    assert_eq!(parse_duration_parts("2000000000000us"), Some((2000000, 0)));
    assert_eq!(parse_duration_parts("1500000000000ms 1ns"), Some((1500000000, 1)));
}

#[test]
fn dashboard_keys() {
    let mut d = Dashboard::new(sample_manager());
    assert!(d.handle_key_event(Key::Char('?')).is_none());
    assert!(d.show_help_modal);
    assert!(d.handle_key_event(Key::Char('s')).is_none());
    assert!(d.show_help_modal);
    d.handle_key_event(Key::Esc);
    assert!(!d.show_help_modal);
    assert!(!d.should_quit);

    assert!(d.handle_key_event(Key::Up).is_none());
    assert_eq!(d.station_list_index, 2);
    d.handle_key_event(Key::Down);
    assert_eq!(d.station_list_index, 0);
    d.handle_key_event(Key::Char('j'));
    match d.handle_key_event(Key::Enter) {
        Some(KeyEffect::Dispatch(AppAction::Play(st))) => assert_eq!(st.id, "jazz-1"),
        _ => panic!("play expected"),
    }
    assert!(matches!(d.handle_key_event(Key::Char('f')), Some(KeyEffect::SaveStations)));
    assert!(!d.config_manager.catalog.stations[1].favorite);
    assert!(matches!(d.handle_key_event(Key::Char('3')), Some(KeyEffect::RefreshDiagnostics)));
    assert_eq!(d.active_tab, ActiveTab::Inspector);
    assert!(matches!(d.handle_key_event(Key::Char('+')), Some(KeyEffect::AdjustVolume { up: true })));
    assert!(matches!(d.handle_key_event(Key::Char(' ')), Some(KeyEffect::Dispatch(AppAction::TogglePause))));

    d.handle_key_event(Key::Char('/'));
    assert!(d.search_input_active);
    d.handle_key_event(Key::Char('j'));
    d.handle_key_event(Key::Char('a'));
    d.handle_key_event(Key::Char('z'));
    d.handle_key_event(Key::Backspace);
    d.handle_key_event(Key::Char('z'));
    assert_eq!(d.search_query, "jaz");
    match d.handle_key_event(Key::Enter) {
        Some(KeyEffect::Dispatch(AppAction::Search(q))) => assert_eq!(q, "jaz"),
        _ => panic!("search expected"),
    }
    assert!(!d.search_input_active);
    d.search_results = vec![station("rb-1", "New", "FLAC", &[], false)];
    assert!(matches!(d.handle_key_event(Key::Char('a')), Some(KeyEffect::SaveStations)));
    assert_eq!(d.config_manager.catalog.stations.len(), 4);
    assert!(matches!(d.handle_key_event(Key::Char('a')), Some(KeyEffect::SaveStations)));
    assert_eq!(d.config_manager.catalog.stations.len(), 4);
    assert!(d.handle_key_event(Key::Char('q')).is_none());
    assert!(d.should_quit);
}

#[test]
fn dashboard_filter() {
    let mut d = Dashboard::new(sample_manager());
    d.filter_query = "  JAZZ ".to_string();
    let f: Vec<String> = d.filtered_stations().iter().map(|s| s.id.clone()).collect();
    assert_eq!(f, vec!["jazz-1".to_string()]);
    d.filter_query = "mp3".to_string();
    let g: Vec<String> = d.filtered_stations().iter().map(|s| s.id.clone()).collect();
    assert_eq!(g, vec!["classic".to_string()]);
    d.filter_query = "classical".to_string();
    assert_eq!(d.filtered_stations().len(), 1);
    d.filter_query = "   ".to_string();
    assert_eq!(d.filtered_stations().len(), 3);
}

#[test]
fn dashboard_ticks_and_events() {
    let mut d = Dashboard::new(sample_manager());
    d.sleep_timer_secs_remaining = Some(2);
    let mut stops = 0;
    for _ in 0..40 {
        let plan = d.on_tick();
        if plan.stop_requested {
            stops += 1;
        }
    }
    assert_eq!(stops, 1);
    assert_eq!(d.sleep_timer_secs_remaining, None);
    assert_eq!(d.tick_count, 40);
    assert_eq!(d.handle_mpv_event(MpvEvent::State(PlaybackState::Playing)), MpvReaction::UpdateMpris);
    assert_eq!(d.playback_state, PlaybackState::Playing);
    d.tick_count = 99;
    assert!(d.on_tick().refresh_diagnostics);
    assert_eq!(d.handle_mpv_event(MpvEvent::Volume(JsonNumber::PosInt(50))), MpvReaction::RefreshDiagnostics);
    let st = d.cycle_station(true).unwrap();
    assert_eq!(st.id, "jazz-1");
    let back = d.cycle_station(false).unwrap();
    assert_eq!(back.id, "rp-main");
    assert_eq!(d.current_station.as_ref().unwrap().id, "rp-main");
    let b = d.bookmark_fields();
    assert_eq!(b.station, "Radio Paradise Main");
    assert_eq!(b.artist, "Unknown Artist");
    assert_eq!(b.title, "Unknown Title");
    assert_eq!(b.codec, None);
    let rp = RadioParadiseNowPlaying { time: Some(30), artist: Some("A".to_string()), title: Some("T".to_string()), album: None, year: None, cover: None, cover_med: Some("m".to_string()), cover_small: Some("s".to_string()) };
    assert!(d.apply_now_playing(rp.clone().into_track()));
    assert!(!d.apply_now_playing(rp.into_track()));
    assert_eq!(d.track_metadata.cover_url.as_deref(), Some("m"));
    let (st_label, track_label) = d.recording_labels();
    assert_eq!(st_label, "Radio Paradise Main");
    assert_eq!(track_label, "A - T");
}

// ----- catalog and commands -----

#[test]
fn catalog_operations() {
    let mut cm = sample_manager();
    assert_eq!(cm.find_station("JAZZ-1").map(|s| s.id.clone()), Some("jazz-1".to_string()));
    assert_eq!(cm.find_station("paradise").map(|s| s.id.clone()), Some("rp-main".to_string()));
    assert!(cm.find_station("nothing").is_none());
    assert!(cm.toggle_favorite("rp-main"));
    assert!(!cm.toggle_favorite("rp-main"));
    assert!(!cm.toggle_favorite("missing"));
    cm.add_station(station("jazz-1", "Renamed", "FLAC", &[], false));
    assert_eq!(cm.catalog.stations.len(), 3);
    assert_eq!(cm.catalog.stations[1].name, "Renamed");
    let line = format_bookmark_line("2024-01-01 10:00:00", "RP", "Artist", "Title", Some("Album"), None, Some(44100));
    assert_eq!(line, "- `[2024-01-01 10:00:00]` **Artist** - *Title* [Station: RP | Codec: Lossless (44.1 kHz) | Album: *Album*]\n");
}

#[test]
fn play_resolution() {
    let cm = sample_manager();
    let url = resolve_play_station(&cm, Some("https://x.org/s")).unwrap();
    assert_eq!(url.id, "custom-stream");
    assert_eq!(url.url, "https://x.org/s");
    assert_eq!(url.tags, vec!["custom".to_string()]);
    assert_eq!(resolve_play_station(&cm, Some("classic")).unwrap().id, "classic");
    match resolve_play_station(&cm, Some("zzz")) {
        Err(PlayError::NotFound(q)) => assert_eq!(q, "zzz"),
        _ => panic!("not found expected"),
    }
    assert_eq!(resolve_play_station(&cm, None).unwrap().id, "rp-main");
    let other = manager(vec![station("a", "A", "FLAC", &[], false)]);
    assert_eq!(resolve_play_station(&other, None).unwrap().id, "a");
    let favs: Vec<String> = list_stations(&cm, true).iter().map(|s| s.id.clone()).collect();
    assert_eq!(favs, vec!["jazz-1".to_string()]);
    assert_eq!(list_stations(&cm, false).len(), 3);
    assert_eq!(cycle_target(0, Some(0), true), None);
    assert_eq!(cycle_target(3, None, true), Some(0));
    assert_eq!(cycle_target(3, None, false), Some(2));
    assert_eq!(cycle_target(3, Some(0), true), Some(1));
    assert_eq!(cycle_target(3, Some(2), true), Some(0));
    assert_eq!(cycle_target(3, Some(0), false), Some(2));
    assert_eq!(cycle_target(3, Some(2), false), Some(1));
    assert_eq!(cycle_target(3, Some(7), true), Some(0));
    let urls = &cm.catalog.stations;
    assert_eq!(reso::commands::station_index_by_url(urls, &urls[1].url), Some(1));
    assert_eq!(reso::commands::station_index_by_url(urls, "http://nowhere"), None);
}

#[test]
fn command_words() {
    assert!(matches!(volume_plan("get"), VolumePlan::Get));
    assert!(matches!(volume_plan("mute"), VolumePlan::Mute));
    match volume_plan("50") {
        VolumePlan::SetTo(v) => assert_eq!(v, "50%"),
        _ => panic!("set expected"),
    }
    match volume_plan("0.5%") {
        VolumePlan::SetTo(v) => assert_eq!(v, "0.5%"),
        _ => panic!("set expected"),
    }
    match volume_plan("0.5") {
        VolumePlan::SetTo(v) => assert_eq!(v, "0.5"),
        _ => panic!("set expected"),
    }
    match volume_plan("40%") {
        VolumePlan::SetTo(v) => assert_eq!(v, "40%"),
        _ => panic!("set expected"),
    }
    assert_eq!(record_plan("start"), RecordPlan::Start);
    assert_eq!(record_plan("status"), RecordPlan::Status);
    assert_eq!(record_plan("whatever"), RecordPlan::Toggle);
    let content: String = (0..150).map(|i| format!("line {}\n", i)).collect();
    let recent = recent_lines(&content);
    assert_eq!(recent.len(), 100);
    assert_eq!(recent[0], "line 149");
    assert_eq!(recent[99], "line 50");
    assert_eq!(recent_lines("a\nb"), vec!["b".to_string(), "a".to_string()]);
}

// ----- online directories -----

#[test]
fn radio_browser_conversion() {
    let rb = RadioBrowserStation {
        stationuuid: "a1b2c3d4-0000-1111".to_string(),
        name: "  Jazz FM  ".to_string(),
        url: "http://u".to_string(),
        url_resolved: Some("http://resolved".to_string()),
        homepage: None,
        favicon: None,
        tags: Some(" jazz, ,flac ".to_string()),
        codec: Some("flac".to_string()),
        bitrate: None,
        votes: None,
    };
    let st = rb.into_station();
    assert_eq!(st.id, "rb-a1b2c3d4");
    assert_eq!(st.name, "Jazz FM");
    assert_eq!(st.url, "http://resolved");
    assert_eq!(st.codec, "FLAC");
    assert_eq!(st.tags, vec!["jazz".to_string(), "flac".to_string()]);
    assert_eq!((st.sample_rate, st.bit_depth, st.favorite), (44100, 16, false));
    let short = RadioBrowserStation { stationuuid: "abc".to_string(), name: "x".to_string(), url: "u".to_string(), url_resolved: None, homepage: None, favicon: None, tags: None, codec: None, bitrate: None, votes: None };
    let s2 = short.into_station();
    assert_eq!(s2.id, "rb-abc");
    assert_eq!(s2.codec, "UNKNOWN");
    assert_eq!(s2.url, "u");
    assert!(s2.tags.is_empty());
    let wide = RadioBrowserStation { stationuuid: "ééééé".to_string(), name: "x".to_string(), url: "u".to_string(), url_resolved: None, homepage: None, favicon: None, tags: None, codec: None, bitrate: None, votes: None };
    assert_eq!(wide.into_station().id, "rb-éééé");
}

#[test]
fn directory_urls() {
    assert_eq!(now_playing_url(2), "https://api.radioparadise.com/api/now_playing?chan=2");
    assert_eq!(search_servers()[1], "https://nl1.api.radio-browser.info");
    assert_eq!(
        search_url("https://s", "jazz", Some("FLAC"), Some(320), 30),
        "https://s/json/stations/search?name=jazz&limit=30&order=votes&reverse=true&codec=FLAC&bitrateMin=320"
    );
    assert_eq!(search_url("h", "q", None, None, 5), "h/json/stations/search?name=q&limit=5&order=votes&reverse=true");
    let rp = RadioParadiseNowPlaying { time: None, artist: None, title: None, album: None, year: None, cover: Some("c".to_string()), cover_med: Some("m".to_string()), cover_small: None };
    assert_eq!(rp.into_track().cover_url.as_deref(), Some("c"));
}

// ----- scrobbling -----

fn md5_hex(s: &str) -> String {
    let mut h = Md5::new();
    h.update(s.as_bytes());
    h.finalize().iter().map(|b| format!("{:02x}", b)).collect::<String>()
}

fn lastfm_on() -> reso::config::LastFmConfig {
    reso::config::LastFmConfig {
        enabled: true,
        api_key: Some("KEY".to_string()),
        api_secret: Some("SECRET".to_string()),
        session_key: Some("SK".to_string()),
        username: None,
    }
}

#[test]
fn signature_is_md5_hex() {
    assert_eq!(calculate_lastfm_signature(&vec![], ""), "d41d8cd98f00b204e9800998ecf8427e");
    let params = vec![
        ("a".to_string(), "1".to_string()),
        ("format".to_string(), "json".to_string()),
        ("b".to_string(), "2".to_string()),
    ];
    assert_eq!(calculate_lastfm_signature(&params, "s"), md5_hex("a1b2s"));
}

#[test]
fn digest_bytes_in_hex() {
    assert_eq!(reso::scrobble::hex_digest(&[]), "");
    assert_eq!(reso::scrobble::hex_digest(&[0x00, 0x0f, 0xab, 0xff]), "000fabff");
}

#[test]
fn ordered_form_fields() {
    let mut m: Vec<(String, String)> = Vec::new();
    kv_insert_exec(&mut m, "track", "T");
    kv_insert_exec(&mut m, "artist", "A");
    kv_insert_exec(&mut m, "album", "B");
    kv_insert_exec(&mut m, "artist", "A2");
    let keys: Vec<&str> = m.iter().map(|p| p.0.as_str()).collect();
    assert_eq!(keys, vec!["album", "artist", "track"]);
    assert_eq!(m[1].1, "A2");
}

#[test]
fn scrobble_tracking() {
    let mut s = ScrobbleTracker::new(lastfm_on(), reso::config::ListenBrainzConfig { enabled: true, user_token: Some("tok".to_string()) });
    let t = TrackMetadata { artist: Some("A".to_string()), title: Some("T".to_string()), album: Some("L".to_string()), year: None, raw_title: None, cover_url: None, duration_remaining_secs: None };
    let announce = s.on_track_change(t.clone(), 1000).unwrap();
    assert_eq!(announce.artist, "A");
    assert!(s.on_track_change(t.clone(), 1100).is_none());
    assert!(s.tick(1239).is_none());
    let played = s.tick(1240).unwrap();
    assert_eq!(played.title, "T");
    assert!(s.tick(5000).is_none());
    let form = s.now_playing_form(&PlayedTrack { artist: "A".to_string(), title: "T".to_string(), album: Some("L".to_string()) }).unwrap();
    let keys: Vec<&str> = form.iter().map(|p| p.0.as_str()).collect();
    assert_eq!(keys, vec!["album", "api_key", "api_sig", "artist", "format", "method", "sk", "track"]);
    let expected_sig = md5_hex("albumLapi_keyKEYartistAmethodtrack.updateNowPlayingskSKtrackTSECRET");
    assert_eq!(form[2].1, expected_sig);
    let sc = s.scrobble_form(&played, "1700000000").unwrap();
    assert!(sc.iter().any(|p| p.0 == "timestamp" && p.1 == "1700000000"));
    assert_eq!(s.listenbrainz_auth().as_deref(), Some("Token tok"));
    let off = ScrobbleTracker::new(reso::config::LastFmConfig { enabled: false, ..lastfm_on() }, reso::config::ListenBrainzConfig { enabled: false, user_token: None });
    assert!(off.now_playing_form(&played).is_none());
    assert!(off.listenbrainz_auth().is_none());
    let mut no_artist = ScrobbleTracker::new(lastfm_on(), reso::config::ListenBrainzConfig { enabled: false, user_token: None });
    let anon = TrackMetadata { artist: None, ..t };
    assert!(no_artist.on_track_change(anon, 0).is_none());
    assert!(no_artist.tick(1000).is_none());
    assert!(!no_artist.scrobbled);
}

#[test]
fn scrobble_at_half_length() {
    let mut s = ScrobbleTracker::new(lastfm_on(), reso::config::ListenBrainzConfig { enabled: false, user_token: None });
    let short = TrackMetadata { artist: Some("A".to_string()), title: Some("S".to_string()), album: None, year: None, raw_title: None, cover_url: None, duration_remaining_secs: Some(100) };
    assert_eq!(reso::scrobble::scrobble_threshold(&short), 50);
    assert!(s.on_track_change(short.clone(), 10).is_some());
    assert!(s.tick(59).is_none());
    assert_eq!(s.tick(60).unwrap().title, "S");
    let long = TrackMetadata { duration_remaining_secs: Some(900), title: Some("L".to_string()), ..short };
    assert_eq!(reso::scrobble::scrobble_threshold(&long), 240);
    assert!(s.on_track_change(long, 100).is_some());
    assert!(s.tick(339).is_none());
    assert_eq!(s.tick(340).unwrap().title, "L");
}

// ----- MPRIS -----

#[test]
fn mpris_reports() {
    assert_eq!(playback_status(PlaybackState::Playing), "Playing");
    assert_eq!(playback_status(PlaybackState::Buffering), "Stopped");
    let t = TrackMetadata { artist: None, title: None, album: None, year: None, raw_title: Some("Raw".to_string()), cover_url: Some("c".to_string()), duration_remaining_secs: None };
    let m = metadata(&t, "Station");
    assert_eq!(m.title, "Raw");
    assert_eq!(m.artist, vec!["Station".to_string()]);
    assert_eq!(m.album, "Station");
    assert_eq!(m.art_url.as_deref(), Some("c"));
    assert_eq!(m.track_id, "/org/mpris/MediaPlayer2/CurrentTrack");
    assert_eq!(supported_mime_types().len(), 4);
}
