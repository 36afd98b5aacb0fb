use glowworm::{encode, Adalight, GammaMap, GlowError};

#[test]
fn header_for_one_light() {
    assert_eq!(Adalight::get_header(1), [0x41, 0x64, 0x61, 0, 0, 0x55]);
}

#[test]
fn header_for_three_hundred_lights() {
    assert_eq!(Adalight::get_header(300), [b'A', b'd', b'a', 1, 43, 127]);
}

#[test]
fn header_for_most_lights() {
    assert_eq!(Adalight::get_header(65535), [b'A', b'd', b'a', 255, 254, 84]);
}

#[test]
fn header_invariant_for_every_count() {
    for leds in 1..=65535u16 {
        let h = Adalight::get_header(leds);
        assert_eq!(&h[0..3], b"Ada");
        assert_eq!(h[5], h[3] ^ h[4] ^ 0x55);
        assert_eq!((h[3] as u16) << 8 | h[4] as u16, leds - 1);
    }
}

#[test]
fn packet_size_is_header_plus_three_per_light() {
    for leds in [1u16, 2, 5, 60] {
        let colors = vec![17u8; 3 * leds as usize];
        let p = encode(leds, &colors).unwrap();
        assert_eq!(p.slice().len(), 6 + 3 * leds as usize);
    }
}

#[test]
fn packet_size_mismatch() {
    assert!(matches!(encode(2, &[1, 2, 3]), Err(GlowError::SizeMismatch)));
    assert!(matches!(encode(1, &[1, 2, 3, 4]), Err(GlowError::SizeMismatch)));
    assert!(matches!(encode(1, &[]), Err(GlowError::SizeMismatch)));
    let ada = Adalight::new(2);
    let payload = [1u8, 2, 3];
    assert!(matches!(ada.pack(&payload), Err(GlowError::SizeMismatch)));
}

#[test]
fn channel_permutation() {
    let g = GammaMap::new();
    let p = encode(1, &[10, 20, 30]).unwrap();
    assert_eq!(&p.slice()[6..], &[g.red(10), g.blue(30), g.green(20)]);
    let p = encode(1, &[200, 128, 255]).unwrap();
    assert_eq!(&p.slice()[6..], &[129, 220, 34]);
}

#[test]
fn pack_leaves_colours_unchanged() {
    let ada = Adalight::new(2);
    assert_eq!(ada.leds(), 2);
    let colors = vec![200u8, 128, 255, 255, 255, 255];
    let p = ada.pack(&colors).unwrap();
    assert_eq!(colors, vec![200, 128, 255, 255, 255, 255]);
    assert_eq!(p.slice(), &[0x41, 0x64, 0x61, 0, 1, 0x54, 129, 220, 34, 255, 220, 240]);
    let again = ada.pack(&colors).unwrap();
    assert_eq!(again.slice(), p.slice());
}
