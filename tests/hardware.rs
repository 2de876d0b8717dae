use pendulum::control::{get_reference, Settler};
use pendulum::frame::{decode_frame, encode_frame, next_backoff, Decoded};
use pendulum::rng::RNG;
use pendulum::hardware::{motor_duty, tick_speed, MagneticEncoder, QuadratureTracker, StateLogger};

#[test]
fn encoder_bytes_to_angle() {
    let enc = MagneticEncoder { channel: () };
    let rotation_from_raw = |hi: u8, lo: u8| enc.rotation_from_response([hi, lo]);
    assert_eq!(rotation_from_raw(0, 0), 0);
    assert_eq!(rotation_from_raw(0x04, 0x00), 1_570_796);
    assert_eq!(rotation_from_raw(0x08, 0x00), 3_141_593 - 6_283_186);
    assert_eq!(rotation_from_raw(0x0F, 0xFF), 4095 * 6_283_186 / 4096 - 6_283_186);
}

#[test]
fn motor_duty_cycle() {
    assert_eq!(motor_duty(0), (200, false));
    assert_eq!(motor_duty(-500_000), (100, true));
    assert_eq!(motor_duty(250_000), (150, false));
    assert_eq!(motor_duty(2_000_000), (0, false));
    assert_eq!(motor_duty(-2_000_000), (0, true));
}

#[test]
fn reference_settles_after_quiet_readings() {
    let mut s = Settler::new(1_000_000);
    for _ in 0..5 {
        assert_eq!(s.observe(1_005_000), None);
    }
    assert_eq!(s.observe(1_050_000), None);
    assert_eq!(s.last, 1_050_000);
    assert_eq!(s.stable, 0);
    for _ in 0..7 {
        assert_eq!(s.observe(1_045_000), None);
    }
    assert_eq!(s.observe(1_051_000), Some(1_050_000));
}

#[test]
fn frames_round_trip() {
    let payload: Vec<u8> = (0..300u32).map(|i| (i % 251) as u8).collect();
    let mut buf = encode_frame(&payload).unwrap();
    assert_eq!(buf[0], 1);
    assert_eq!(buf[1], 44);
    buf.extend_from_slice(&[9, 9, 9]);
    match decode_frame(&buf, 1000) {
        Decoded::Frame(p, k) => {
            assert_eq!(p, payload);
            assert_eq!(k, 302);
        }
        other => panic!("unexpected {:?}", other),
    }
    assert!(encode_frame(&vec![0u8; 65536]).is_none());
    assert_eq!(encode_frame(&vec![]).unwrap(), vec![0, 0]);
}

#[test]
fn partial_and_oversized_frames() {
    assert!(matches!(decode_frame(&vec![0], 10), Decoded::Incomplete));
    assert!(matches!(decode_frame(&vec![0, 3, 1, 2], 10), Decoded::Incomplete));
    assert!(matches!(decode_frame(&vec![0, 20, 1, 2], 10), Decoded::Oversized(22)));
    match decode_frame(&vec![0, 0, 7], 10) {
        Decoded::Frame(p, k) => {
            assert!(p.is_empty());
            assert_eq!(k, 2);
        }
        other => panic!("unexpected {:?}", other),
    }
}

#[test]
fn xorshift_sequence() {
    let mut r = RNG::new(42);
    assert_eq!(r.randint(), 6255019084209693600);
    assert_eq!(r.randint(), 14430073426741505498);
    assert_eq!(r.randint(), 14575455857230217846);
    let mut z = RNG::new(0);
    assert_eq!(z.randint(), 0);
}

#[test]
fn quadrature_counts() {
    let mut t = QuadratureTracker::new(true, true);
    t.on_edge(true, false);
    assert_eq!((t.count, t.abs_ticks), (-1, 0));
    t.on_edge(true, true);
    assert_eq!((t.count, t.abs_ticks), (0, 0));
    t.on_edge(false, true);
    assert_eq!((t.count, t.abs_ticks), (0, 1));
    t.on_edge(true, true);
    assert_eq!((t.count, t.abs_ticks), (0, 2));
    let mut w = QuadratureTracker { prev_a: true, prev_b: false, count: i32::MAX, abs_ticks: 0 };
    w.on_edge(true, true);
    assert_eq!(w.count, i32::MIN);
}

#[test]
fn backoff_doubles_up_to_cap() {
    assert_eq!(next_backoff(1), 2);
    assert_eq!(next_backoff(2), 4);
    assert_eq!(next_backoff(4), 8);
    assert_eq!(next_backoff(8), 8);
    assert_eq!(next_backoff(u64::MAX), 8);
    assert_eq!(next_backoff(0), 0);
}

#[test]
fn reference_from_reading_sequence() {
    let mut readings = vec![1_000_000];
    readings.extend([1_005_000; 5]);
    readings.push(1_050_000);
    readings.extend([1_045_000; 7]);
    assert_eq!(get_reference(&readings), None);
    readings.push(1_051_000);
    readings.push(9_999);
    assert_eq!(get_reference(&readings), Some(1_050_000));
    assert_eq!(get_reference(&vec![]), None);
    assert_eq!(get_reference(&vec![-3_000_000; 9]), Some(-3_000_000));
    assert_eq!(get_reference(&vec![-3_000_000; 8]), None);
}

#[test]
fn wheel_speed_from_ticks() {
    assert_eq!(tick_speed(100, 1_000_000), 6_283_186);
    assert_eq!(tick_speed(50, 500_000), 6_283_186);
    assert_eq!(tick_speed(-25, 1_000_000), -1_570_796);
    assert_eq!(tick_speed(i64::MAX, 1), i64::MAX);
    let mut log = StateLogger::new(0, 0, 0);
    assert_eq!(log.log(100, 100, 1_000_000), (6_283_186, 6_283_186));
    assert_eq!(log.log(50, 150, 2_000_000), (-3_141_593, 3_141_593));
    let mut w = StateLogger::new(i32::MAX, 0, 5);
    assert_eq!(w.log(i32::MIN, 0, 1_000_005), (62_831, 0));
    assert_eq!(w.last_time_us, 1_000_005);
}
