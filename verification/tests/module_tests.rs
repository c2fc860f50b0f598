use reso::alsa::{parse_hw_params_content, parse_stream0_content};
use reso::json::{JsonNumber, JsonValue};
use reso::mpv::parse_artist_title;
use reso::pipewire::{parse_allowed_rates, parse_pw_dump_json};
use reso::util::{format_sample_rate, parse_duration_parts, sanitize_filename};

fn to_json(v: &serde_json::Value) -> JsonValue {
    match v {
        serde_json::Value::Null => JsonValue::Null,
        serde_json::Value::Bool(b) => JsonValue::Bool(*b),
        serde_json::Value::Number(n) => {
            if let Some(u) = n.as_u64() {
                JsonValue::Number(JsonNumber::PosInt(u))
            } else if let Some(i) = n.as_i64() {
                JsonValue::Number(JsonNumber::NegInt(i))
            } else {
                JsonValue::Number(JsonNumber::Float(n.as_f64().unwrap_or(0.0).to_bits()))
            }
        }
        serde_json::Value::String(s) => JsonValue::Str(s.clone()),
        serde_json::Value::Array(a) => JsonValue::Array(a.iter().map(to_json).collect()),
        serde_json::Value::Object(m) => {
            JsonValue::Object(m.iter().map(|(k, x)| (k.clone(), to_json(x))).collect())
        }
    }
}

#[test]
fn test_parse_hw_params() {
    let raw = r#"
access: MMAP_INTERLEAVED
format: S24_3LE
subformat: STD
channels: 2
rate: 44100 (44100/1)
period_size: 512
buffer_size: 32768
"#;
    let params = parse_hw_params_content(raw);
    assert!(params.is_active);
    assert_eq!(params.format, Some("S24_3LE".to_string()));
    assert_eq!(params.channels, Some(2));
    assert_eq!(params.rate, Some(44100));
    assert_eq!(params.period_size, Some(512));
}

#[test]
fn test_parse_stream0() {
    let raw = r#"
KTMicro Chu2 DSP at usb-0000:00:14.0-9, full speed : USB Audio

Playback:
  Status: Running
    Interface = 2
    Altset = 2
    Packet Size = 402
    Momentary freq = 44100 Hz (0x2c.199a)
  Interface 2
    Altset 1
    Format: S16_LE
    Channels: 2
    Rates: 44100, 48000, 88200, 96000
    Bits: 16
  Interface 2
    Altset 2
    Format: S24_3LE
    Channels: 2
    Rates: 44100, 88200, 48000, 96000
    Bits: 24
"#;
    let caps = parse_stream0_content(raw);
    assert_eq!(caps.status, "Running");
    assert_eq!(caps.momentary_freq_hz, Some(44100));
    assert!(caps.supported_rates.contains(&44100));
    assert!(caps.supported_rates.contains(&48000));
    assert!(caps.supported_rates.contains(&88200));
    assert!(caps.supported_rates.contains(&96000));
    assert!(caps.supported_bit_depths.contains(&16));
    assert!(caps.supported_bit_depths.contains(&24));
}

#[test]
fn test_parse_allowed_rates() {
    let raw = "[ 44100 48000 88200 96000 ]";
    let rates = parse_allowed_rates(raw);
    assert_eq!(rates, vec![44100, 48000, 88200, 96000]);
}

#[test]
fn test_parse_pw_dump_sink_and_culprit() {
    let text = r#"[
        {
            "id": 0,
            "type": "PipeWire:Interface:Core",
            "info": {
                "props": {
                    "default.clock.allowed-rates": "[ 44100 48000 88200 96000 ]",
                    "default.clock.rate": 48000
                }
            }
        },
        {
            "id": 55,
            "type": "PipeWire:Interface:Node",
            "info": {
                "state": "running",
                "props": {
                    "media.class": "Audio/Sink",
                    "node.name": "alsa_output.usb-Chu2_DSP.analog-stereo",
                    "node.description": "Chu2 DSP Analog Stereo"
                },
                "params": {
                    "Format": [
                        {
                            "rate": 48000,
                            "format": "S24LE",
                            "channels": 2
                        }
                    ]
                }
            }
        },
        {
            "id": 98,
            "type": "PipeWire:Interface:Node",
            "info": {
                "state": "running",
                "props": {
                    "media.class": "Stream/Output/Audio",
                    "application.name": "Firefox",
                    "application.process.binary": "firefox",
                    "application.process.id": 84229
                },
                "params": {
                    "Format": [
                        {
                            "rate": 48000,
                            "format": "F32LE",
                            "channels": 2
                        }
                    ]
                }
            }
        }
    ]"#;
    let dump = to_json(&serde_json::from_str::<serde_json::Value>(text).unwrap());

    let report = parse_pw_dump_json(&dump, Some(44100));
    assert!(report.active_sink.is_some());
    let sink = report.active_sink.unwrap();
    assert_eq!(sink.id, 55);
    assert_eq!(sink.active_rate, Some(48000));

    // Firefox was running at 48000 while target is 44100 -> culprit!
    assert_eq!(report.culprits.len(), 1);
    assert_eq!(report.culprits[0].name, "Firefox");
    assert_eq!(report.culprits[0].locking_rate, 48000);
    assert_eq!(report.culprits[0].pid, Some(84229));
}

#[test]
fn test_parse_artist_title() {
    let (artist, title) = parse_artist_title("Radiohead - Karma Police");
    assert_eq!(artist, Some("Radiohead".to_string()));
    assert_eq!(title, Some("Karma Police".to_string()));

    let (artist2, title2) = parse_artist_title("Pink Floyd / Time");
    assert_eq!(artist2, Some("Pink Floyd".to_string()));
    assert_eq!(title2, Some("Time".to_string()));

    let (artist3, title3) = parse_artist_title("Single Title Only");
    assert_eq!(artist3, None);
    assert_eq!(title3, Some("Single Title Only".to_string()));
}

#[test]
fn test_format_sample_rate() {
    assert_eq!(format_sample_rate(44100), "44.1 kHz");
    assert_eq!(format_sample_rate(48000), "48.0 kHz");
    assert_eq!(format_sample_rate(88200), "88.2 kHz");
    assert_eq!(format_sample_rate(96000), "96.0 kHz");
    assert_eq!(format_sample_rate(192000), "192.0 kHz");
    assert_eq!(format_sample_rate(0), "Unknown");
}

#[test]
fn test_parse_duration() {
    assert_eq!(parse_duration_parts("45m"), Some((45 * 60, 0)));
    assert_eq!(parse_duration_parts("1h"), Some((3600, 0)));
    assert_eq!(parse_duration_parts("30s"), Some((30, 0)));
    assert_eq!(parse_duration_parts("120"), Some((120, 0)));
}

#[test]
fn test_sanitize_filename() {
    assert_eq!(
        sanitize_filename("Radio Paradise / Main Mix: FLAC (Hi-Res)"),
        "Radio Paradise _ Main Mix_ FLAC _Hi-Res_"
    );
}
