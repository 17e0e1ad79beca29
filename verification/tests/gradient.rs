use matrix_rain::gradient::{locate, query_key, stop_key, Segment};

type Rgb = (f32, f32, f32);

const BLACK: Rgb = (0.0, 0.0, 0.0);
const WHITE: Rgb = (1.0, 1.0, 1.0);
const RED: Rgb = (1.0, 0.0, 0.0);
const GREEN: Rgb = (0.0, 1.0, 0.0);
const BLUE: Rgb = (0.0, 0.0, 1.0);

fn lerp(a: Rgb, o: Rgb, w: f32) -> Rgb {
    let x = 1.0 - w;
    (a.0 * w + o.0 * x, a.1 * w + o.1 * x, a.2 * w + o.2 * x)
}

fn sample(stops: &[(f32, Rgb)], s: f32) -> Rgb {
    let keys: Vec<i64> = stops.iter().map(|stop| stop_key(stop.0.to_bits())).collect();
    match locate(&keys, query_key(s.to_bits())) {
        Segment::Empty => BLACK,
        Segment::Stop(i) => stops[i].1,
        Segment::Blend { below, above } => {
            let (s0, c0) = stops[below];
            let (s1, c1) = stops[above];
            lerp(c1, c0, (s - s0) / (s1 - s0))
        }
    }
}

fn close(a: Rgb, b: Rgb) -> bool {
    (a.0 - b.0).abs() < 1e-5 && (a.1 - b.1).abs() < 1e-5 && (a.2 - b.2).abs() < 1e-5
}

fn create_grad() -> Vec<(f32, Rgb)> {
    vec![(0.0, RED), (0.5, GREEN), (1.0, BLUE)]
}

#[test]
fn test_grad() {
    let grad = create_grad();

    assert_eq!(sample(&grad, 0.0), RED);
    assert_eq!(sample(&grad, 0.5), GREEN);
    assert_eq!(sample(&grad, 1.0), BLUE);
}

#[test]
fn three_stops_blend_halfway() {
    let grad = create_grad();
    assert_eq!(sample(&grad, 0.25), (0.5, 0.5, 0.0));
    assert_eq!(sample(&grad, 0.25), lerp(GREEN, RED, 0.5));
}

#[test]
fn three_stops_segments() {
    let key = |p: f32| query_key(p.to_bits());
    let keys = vec![stop_key(0f32.to_bits()), stop_key(0.5f32.to_bits()), stop_key(1f32.to_bits())];
    assert_eq!(locate(&keys, key(0.0)), Segment::Stop(0));
    assert_eq!(locate(&keys, key(-0.0)), Segment::Stop(0));
    assert_eq!(locate(&keys, key(0.25)), Segment::Blend { below: 0, above: 1 });
    assert_eq!(locate(&keys, key(0.5)), Segment::Blend { below: 0, above: 1 });
    assert_eq!(locate(&keys, key(0.75)), Segment::Blend { below: 1, above: 2 });
    assert_eq!(locate(&keys, key(1.0)), Segment::Blend { below: 1, above: 2 });
    assert_eq!(locate(&keys, key(1.5)), Segment::Stop(2));
    assert_eq!(locate(&keys, key(-1.0)), Segment::Stop(0));
    assert_eq!(locate(&keys, key(f32::NAN)), Segment::Stop(2));
    assert_eq!(locate(&keys, key(f32::INFINITY)), Segment::Stop(2));
    assert_eq!(locate(&keys, key(f32::NEG_INFINITY)), Segment::Stop(0));
}

#[test]
fn uneven_stops() {
    let grad = vec![(0.0, BLACK), (0.8, GREEN), (1.0, WHITE)];
    assert_eq!(sample(&grad, 0.4), (0.0, 0.5, 0.0));
    assert_eq!(sample(&grad, 0.4), lerp(GREEN, BLACK, 0.5));
    assert!(close(sample(&grad, 0.9), (0.5, 1.0, 0.5)));
    assert!(close(sample(&grad, 0.9), lerp(WHITE, GREEN, 0.5)));
    assert_eq!(sample(&grad, 1.2), WHITE);
}

#[test]
fn no_stop_and_one_stop() {
    assert_eq!(locate(&Vec::new(), 7), Segment::Empty);
    assert_eq!(locate(&vec![3], -100), Segment::Stop(0));
    assert_eq!(locate(&vec![3], 3), Segment::Stop(0));
    assert_eq!(locate(&vec![3], 100), Segment::Stop(0));
    assert_eq!(sample(&[], 0.3), BLACK);
    assert_eq!(sample(&[(0.7, BLUE)], 0.1), BLUE);
    assert_eq!(sample(&[(0.7, BLUE)], 0.9), BLUE);
}

#[test]
fn queries_beyond_the_stops_are_clamped() {
    let stops = vec![10, 20, 30, 40];
    assert_eq!(locate(&stops, 9), Segment::Stop(0));
    assert_eq!(locate(&stops, i64::MIN), Segment::Stop(0));
    assert_eq!(locate(&stops, 41), Segment::Stop(3));
    assert_eq!(locate(&stops, i64::MAX), Segment::Stop(3));
}

#[test]
fn endpoints_of_the_stops() {
    let stops = vec![10, 20, 30, 40];
    assert_eq!(locate(&stops, 10), Segment::Stop(0));
    assert_eq!(locate(&stops, 40), Segment::Blend { below: 2, above: 3 });
    let grad = vec![(0.0, RED), (0.25, GREEN), (2.0, BLUE)];
    assert_eq!(sample(&grad, 0.0), RED);
    assert_eq!(sample(&grad, 2.0), BLUE);
}

#[test]
fn two_stops_blend_linearly() {
    let grad = vec![(0.0, RED), (1.0, BLUE)];
    for k in 0..=8 {
        let s = k as f32 / 8.0;
        assert_eq!(sample(&grad, s), lerp(BLUE, RED, s));
    }
}

#[test]
fn blend_takes_the_first_stop_that_reaches_the_query() {
    let stops = vec![0, 5, 5, 9];
    assert_eq!(locate(&stops, 5), Segment::Blend { below: 0, above: 1 });
    assert_eq!(locate(&stops, 6), Segment::Blend { below: 2, above: 3 });
    let unordered = vec![4, 1, 8];
    assert_eq!(locate(&unordered, 3), Segment::Stop(0));
    assert_eq!(locate(&unordered, 5), Segment::Blend { below: 1, above: 2 });
}

#[test]
fn keys_keep_the_order_of_positions() {
    let positions = [
        f32::NEG_INFINITY,
        f32::MIN,
        -2.5,
        -1.0,
        -f32::MIN_POSITIVE,
        -1e-45,
        -0.0,
        0.0,
        1e-45,
        f32::MIN_POSITIVE,
        1e-9,
        0.5,
        0.8,
        1.0,
        7.0,
        f32::MAX,
        f32::INFINITY,
        f32::NAN,
        -f32::NAN,
    ];
    for a in positions {
        for b in positions {
            assert_eq!(a >= b, stop_key(a.to_bits()) >= query_key(b.to_bits()));
        }
    }
}

#[test]
fn keys_of_chosen_numbers() {
    assert_eq!(stop_key(0f32.to_bits()), 0);
    assert_eq!(query_key(0f32.to_bits()), 0);
    assert_eq!(stop_key((-0f32).to_bits()), 0);
    assert_eq!(stop_key(1f32.to_bits()), 0x3f80_0000);
    assert_eq!(query_key((-1f32).to_bits()), -0x3f80_0000);
    assert_eq!(stop_key(f32::INFINITY.to_bits()), 0x7f80_0000);
    assert_eq!(query_key(f32::NEG_INFINITY.to_bits()), -0x7f80_0000);
    assert_eq!(stop_key(0x7f80_0001), i64::MIN);
    assert_eq!(stop_key(0xffff_ffff), i64::MIN);
    assert_eq!(query_key(0x7fc0_0000), i64::MAX);
    assert_eq!(query_key(0xff80_0001), i64::MAX);
}

#[test]
fn a_stop_that_is_no_number_is_passed_over() {
    let grad = vec![(0.0, RED), (f32::NAN, GREEN), (1.0, BLUE)];
    assert!(sample(&grad, 0.5).0.is_nan());
    assert_eq!(
        locate(
            &grad.iter().map(|stop| stop_key(stop.0.to_bits())).collect(),
            query_key(0.5f32.to_bits())
        ),
        Segment::Blend { below: 1, above: 2 }
    );
    assert_eq!(sample(&grad, f32::NAN), BLUE);
}
