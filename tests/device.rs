use vialctl::command::{effective_white_point, target_hsv};
use vialctl::color::{ColorError, WhitePoint};
use vialctl::config::Config;
use vialctl::discovery::{serial_has_magic, Descriptor, Discovery};
use vialctl::error::DeviceError;
use vialctl::protocol::{frame_message, is_rawhid_reply, is_vialrgb_reply, rawhid_probe, vial_probe};
use vialctl::transport::{AttemptOutcome, Exchange, RetryPolicy, SendStep};
use vialctl::vialrgb::{Phase, SolidColorSession};

fn reply(bytes: &[u8]) -> [u8; 32] {
    let mut r = [0u8; 32];
    r[..bytes.len()].copy_from_slice(bytes);
    r
}

fn keyboard() -> Descriptor {
    Descriptor {
        serial: Some("vial:f64c2b3c:1234".to_string()),
        usage_page: 0xFF60,
        usage: 0x61,
    }
}

fn raw_ok() -> [u8; 32] {
    reply(&[0x01, 0x00, 0x09])
}

fn vial_ok() -> [u8; 32] {
    let mut r = reply(&[0x06, 0, 0, 0]);
    r[12] = 0x01;
    r
}

fn discover(devs: &Vec<Descriptor>, answers: &[Option<[u8; 32]>]) -> Discovery {
    let mut d = Discovery::start(devs);
    let mut i = 0;
    while d.request().is_some() && i < answers.len() {
        d = d.answer(devs, answers[i]);
        i += 1;
    }
    d
}

#[test]
fn frame_pads_message() {
    let f = frame_message(&[0x07, 0x41]).unwrap();
    assert_eq!(f.len(), 33);
    assert_eq!(&f[..3], &[0, 0x07, 0x41]);
    assert!(f[3..].iter().all(|&b| b == 0));
    let full = frame_message(&[0xAB; 32]).unwrap();
    assert_eq!(full[0], 0);
    assert!(full[1..].iter().all(|&b| b == 0xAB));
}

#[test]
fn frame_rejects_oversized_message() {
    assert_eq!(frame_message(&[0u8; 33]), Err(DeviceError::MessageTooLong { len: 33 }));
}

#[test]
fn probe_replies() {
    assert_eq!(rawhid_probe().message, vec![0x01]);
    assert_eq!(vial_probe().message, vec![0xFE, 0x00]);
    assert_eq!(vial_probe().attempts, 3);
    assert!(is_rawhid_reply(&raw_ok()));
    assert!(!is_rawhid_reply(&reply(&[0x01, 0x00, 0x0A])));
    assert!(is_vialrgb_reply(&vial_ok()));
    let mut old = vial_ok();
    old[0] = 3;
    assert!(!is_vialrgb_reply(&old));
    let mut big = reply(&[0, 0, 0, 1]);
    big[12] = 0x03;
    assert!(is_vialrgb_reply(&big));
    let mut no_rgb = vial_ok();
    no_rgb[12] = 0x02;
    assert!(!is_vialrgb_reply(&no_rgb));
}

#[test]
fn serial_magic_is_found_anywhere() {
    assert!(serial_has_magic("vial:f64c2b3c"));
    assert!(serial_has_magic("xx vial:f64c2b3c yy"));
    assert!(!serial_has_magic("vial:f64c2b3"));
    assert!(!serial_has_magic(""));
    assert!(!serial_has_magic("VIAL:F64C2B3C"));
}

#[test]
fn retry_all_attempts_fail() {
    let mut ex = Exchange::new(RetryPolicy::new(4));
    let mut delays = Vec::new();
    loop {
        match ex.step() {
            SendStep::Attempt { delay_ms, timeout_ms } => {
                assert_eq!(timeout_ms, 1000);
                delays.push(delay_ms);
                let outcome = match delays.len() {
                    1 => AttemptOutcome::WriteFailed("w".to_string()),
                    2 => AttemptOutcome::Read { len: 0, data: [0; 32] },
                    3 => AttemptOutcome::ReadFailed("r".to_string()),
                    _ => AttemptOutcome::Read { len: 0, data: [0; 32] },
                };
                ex.record(outcome);
            }
            SendStep::Reply(_) => panic!("no reply was read"),
            SendStep::Failed(e) => {
                assert_eq!(
                    e,
                    DeviceError::Communication { attempts: 4, last_error: Some("r".to_string()) }
                );
                break;
            }
        }
    }
    assert_eq!(delays, vec![0, 500, 500, 500]);
}

#[test]
fn retry_returns_first_reply() {
    let mut ex = Exchange::new(RetryPolicy::new(20));
    let data = reply(&[9, 8, 7]);
    let mut attempts = 0;
    let got = loop {
        match ex.step() {
            SendStep::Attempt { .. } => {
                attempts += 1;
                if attempts < 3 {
                    ex.record(AttemptOutcome::WriteFailed("busy".to_string()));
                } else {
                    ex.record(AttemptOutcome::Read { len: 32, data });
                }
            }
            SendStep::Reply(r) => break r,
            SendStep::Failed(_) => panic!("a reply was read"),
        }
    };
    assert_eq!(attempts, 3);
    assert_eq!(got, data);
}

#[test]
fn retry_with_no_budget_fails_at_once() {
    let ex = Exchange::new(RetryPolicy::new(0));
    assert_eq!(
        ex.step(),
        SendStep::Failed(DeviceError::Communication { attempts: 0, last_error: None })
    );
}

#[test]
fn discovery_finds_matching_endpoint() {
    let devs = vec![keyboard()];
    assert_eq!(discover(&devs, &[Some(raw_ok()), Some(vial_ok())]), Discovery::Found(0));
}

#[test]
fn discovery_any_failed_predicate_is_not_found() {
    let mut bad_serial = keyboard();
    bad_serial.serial = Some("qmk:1234".to_string());
    assert_eq!(discover(&vec![bad_serial], &[Some(raw_ok()), Some(vial_ok())]), Discovery::NotFound);
    let mut no_serial = keyboard();
    no_serial.serial = None;
    assert_eq!(discover(&vec![no_serial], &[Some(raw_ok()), Some(vial_ok())]), Discovery::NotFound);
    let mut bad_usage = keyboard();
    bad_usage.usage = 0x62;
    assert_eq!(discover(&vec![bad_usage], &[Some(raw_ok()), Some(vial_ok())]), Discovery::NotFound);
    let devs = vec![keyboard()];
    assert_eq!(discover(&devs, &[Some(reply(&[1, 0, 8])), Some(vial_ok())]), Discovery::NotFound);
    assert_eq!(discover(&devs, &[None, Some(vial_ok())]), Discovery::NotFound);
    assert_eq!(discover(&devs, &[Some(raw_ok()), Some(reply(&[3]))]), Discovery::NotFound);
    assert_eq!(discover(&devs, &[Some(raw_ok()), None]), Discovery::NotFound);
}

#[test]
fn discovery_takes_first_match_in_order() {
    let mut other = keyboard();
    other.usage_page = 0x0001;
    let devs = vec![other, keyboard(), keyboard(), keyboard()];
    let mut d = Discovery::start(&devs);
    assert_eq!(d, Discovery::ProbeRawHid(1));
    d = d.answer(&devs, None);
    assert_eq!(d, Discovery::ProbeRawHid(2));
    d = d.answer(&devs, Some(raw_ok()));
    assert_eq!(d, Discovery::ProbeVial(2));
    d = d.answer(&devs, Some(vial_ok()));
    assert_eq!(d, Discovery::Found(2));
    assert!(d.request().is_none());
}

fn page(words: &[u16]) -> [u8; 32] {
    let mut r = [0u8; 32];
    for (i, w) in words.iter().enumerate() {
        r[2 + 2 * i] = (*w & 0xFF) as u8;
        r[3 + 2 * i] = (*w >> 8) as u8;
    }
    r
}

fn info_v1() -> [u8; 32] {
    reply(&[0, 0, 1, 0])
}

#[test]
fn end_to_end_magenta_saved() {
    let (h, s, v) = target_hsv("ff00ff", None, None).unwrap();
    assert_eq!((h, s, v), (213, 255, 255));
    let mut session = SolidColorSession::new(h, s, v, true);
    let info = session.request().unwrap();
    assert_eq!(info.message, vec![0x08, 0x40]);
    assert_eq!(info.attempts, 20);
    session.on_reply(&info_v1());
    let scan = session.request().unwrap();
    assert_eq!(scan.message.len(), 32);
    assert_eq!(&scan.message[..4], &[0x08, 0x42, 0, 0]);
    assert_eq!(scan.attempts, 3);
    session.on_reply(&page(&[1, 2, 3, 0xFFFF]));
    let set = session.request().unwrap();
    assert_eq!(set.message, vec![0x07, 0x41, 0x02, 0x00, 0x80, 213, 255, 255]);
    assert_eq!(set.attempts, 20);
    session.on_reply(&reply(&[]));
    let save = session.request().unwrap();
    assert_eq!(save.message, vec![0x09]);
    session.on_reply(&reply(&[]));
    assert_eq!(*session.phase(), Phase::Done);
    assert!(session.request().is_none());
}

#[test]
fn end_to_end_without_save() {
    let mut session = SolidColorSession::new(213, 255, 255, false);
    session.on_reply(&info_v1());
    session.on_reply(&page(&[2, 0xFFFF]));
    assert_eq!(session.request().unwrap().message, vec![0x07, 0x41, 0x02, 0x00, 0x80, 213, 255, 255]);
    session.on_reply(&reply(&[]));
    assert_eq!(*session.phase(), Phase::Done);
}

#[test]
fn scan_pages_with_cursor() {
    let mut session = SolidColorSession::new(1, 2, 3, false);
    session.on_reply(&info_v1());
    let words: Vec<u16> = (1..=15).map(|w| w * 20).collect();
    session.on_reply(&page(&words));
    assert_eq!(*session.phase(), Phase::ScanEffects);
    // the next page starts at the largest effect seen: 300 = 0x012C
    assert_eq!(&session.request().unwrap().message[..4], &[0x08, 0x42, 0x2C, 0x01]);
    session.on_reply(&page(&[2, 0xFFFF, 7]));
    assert_eq!(*session.phase(), Phase::SetMode);
    assert!(session.supports(0));
    assert!(session.supports(300));
    assert!(!session.supports(7));
    assert!(!session.supports(0xFFFF));
}

#[test]
fn modes_always_contain_zero() {
    let mut session = SolidColorSession::new(1, 2, 3, true);
    session.on_reply(&info_v1());
    session.on_reply(&page(&[0xFFFF]));
    assert!(session.supports(0));
    assert_eq!(*session.phase(), Phase::Failed(DeviceError::UnsupportedEffect));
    assert!(session.request().is_none());
}

#[test]
fn scan_without_end_marker_fails() {
    let mut session = SolidColorSession::new(1, 2, 3, true);
    session.on_reply(&info_v1());
    let mut rounds = 0;
    while *session.phase() == Phase::ScanEffects {
        session.on_reply(&page(&[2, 5]));
        rounds += 1;
    }
    assert_eq!(rounds, 100);
    assert_eq!(*session.phase(), Phase::Failed(DeviceError::TooManyEffects));
}

#[test]
fn scan_ending_on_last_round_succeeds() {
    let mut session = SolidColorSession::new(1, 2, 3, true);
    session.on_reply(&info_v1());
    for _ in 0..99 {
        session.on_reply(&page(&[2]));
    }
    assert_eq!(*session.phase(), Phase::ScanEffects);
    session.on_reply(&page(&[0xFFFF]));
    assert_eq!(*session.phase(), Phase::SetMode);
}

#[test]
fn unsupported_protocol_version() {
    let mut session = SolidColorSession::new(1, 2, 3, true);
    session.on_reply(&reply(&[0, 0, 2, 0]));
    assert_eq!(*session.phase(), Phase::Failed(DeviceError::UnsupportedProtocol { version: 2 }));
    let mut session = SolidColorSession::new(1, 2, 3, true);
    session.on_reply(&reply(&[0, 0, 1, 1]));
    assert_eq!(
        *session.phase(),
        Phase::Failed(DeviceError::UnsupportedProtocol { version: 0x0101 })
    );
}

#[test]
fn transport_failure_ends_session() {
    let mut session = SolidColorSession::new(1, 2, 3, true);
    session.on_reply(&info_v1());
    session.on_reply(&page(&[2, 0xFFFF]));
    session.on_reply(&reply(&[]));
    let err = DeviceError::Communication { attempts: 20, last_error: None };
    session.on_failure(err.clone());
    assert_eq!(*session.phase(), Phase::Failed(err));
    assert!(session.request().is_none());
}

#[test]
fn target_hsv_applies_corrections() {
    let wp = WhitePoint::new([128, 255, 255]);
    assert_eq!(target_hsv("#ff0000", wp, None), Ok((0, 255, 128)));
    assert_eq!(target_hsv("00ff00", None, Some(80)), Ok((85, 255, 80)));
    assert_eq!(target_hsv("00ff0", None, Some(80)), Err(ColorError::Length));
}

#[test]
fn white_point_sources() {
    let given = WhitePoint::new([1, 2, 3]);
    let saved = WhitePoint::new([4, 5, 6]);
    assert_eq!(effective_white_point(given, saved), given);
    assert_eq!(effective_white_point(None, saved), saved);
    assert_eq!(effective_white_point(None, None), None);
}

#[test]
fn config_ignores_zero_channels() {
    assert_eq!(Config::from_white_point(Some([200, 255, 230])).0.white_point.unwrap().0, [200, 255, 230]);
    assert_eq!(Config::from_white_point(Some([200, 0, 230])), (Config { white_point: None }, true));
    assert_eq!(Config::from_white_point(None), (Config::default(), false));
}
