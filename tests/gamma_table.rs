use glowworm::{Channel, GammaMap};

fn float_level(max: f64, v: u8) -> u8 {
    let f = ((v as f64) / 255.0).powf(2.8);
    (f * max) as u8
}

#[test]
fn gamma_matches_power_curve() {
    let g = GammaMap::new();
    for v in 0..=255u8 {
        assert_eq!(g.red(v), float_level(255.0, v), "red {}", v);
        assert_eq!(g.green(v), float_level(240.0, v), "green {}", v);
        assert_eq!(g.blue(v), float_level(220.0, v), "blue {}", v);
    }
}

#[test]
fn gamma_known_values() {
    let g = GammaMap::new();
    assert_eq!(g.red(128), 37);
    assert_eq!(g.green(128), 34);
    assert_eq!(g.blue(128), 31);
    assert_eq!(g.red(254), 252);
    assert_eq!(g.green(254), 237);
    assert_eq!(g.blue(254), 217);
    assert_eq!(g.red(64), 5);
    assert_eq!(g.blue(64), 4);
}

#[test]
fn gamma_is_monotonic() {
    let g = GammaMap::default();
    for ch in [Channel::Red, Channel::Green, Channel::Blue] {
        for a in 0..255u8 {
            assert!(g.correct(ch, a) <= g.correct(ch, a + 1));
        }
    }
}

#[test]
fn gamma_ends_at_channel_maxima() {
    let g = GammaMap::new();
    assert_eq!(g.correct(Channel::Red, 0), 0);
    assert_eq!(g.correct(Channel::Green, 0), 0);
    assert_eq!(g.correct(Channel::Blue, 0), 0);
    assert_eq!(g.correct(Channel::Red, 255), 255);
    assert_eq!(g.correct(Channel::Green, 255), 240);
    assert_eq!(g.correct(Channel::Blue, 255), 220);
}

#[test]
fn correct_rgb_swaps_green_and_blue() {
    let g = GammaMap::new();
    let mut rgb = [200u8, 128, 255, 7];
    g.correct_rgb(&mut rgb);
    assert_eq!(rgb, [129, 220, 34, 7]);
}
