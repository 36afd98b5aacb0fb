use glowworm::{Mode, RotatingGradient, StaticGradient};

#[test]
fn static_gradient_repeats() {
    let mut g = StaticGradient::new(vec![1, 2, 3, 4, 5, 6]).unwrap();
    assert_eq!(g.render(), vec![1, 2, 3, 4, 5, 6]);
    assert_eq!(g.render(), vec![1, 2, 3, 4, 5, 6]);
}

#[test]
fn gradients_need_whole_triples() {
    assert!(StaticGradient::new(vec![1, 2]).is_none());
    assert!(RotatingGradient::new(vec![1, 2, 3, 4]).is_none());
}

#[test]
fn rotating_gradient_advances_one_light() {
    let mut g = RotatingGradient::new(vec![1, 2, 3, 4, 5, 6, 7, 8, 9]).unwrap();
    assert_eq!(g.render(), vec![1, 2, 3, 4, 5, 6, 7, 8, 9]);
    assert_eq!(g.render(), vec![4, 5, 6, 7, 8, 9, 1, 2, 3]);
    assert_eq!(g.render(), vec![7, 8, 9, 1, 2, 3, 4, 5, 6]);
}

#[test]
fn rotating_gradient_full_cycle() {
    let colors: Vec<u8> = (0..15).collect();
    let mut g = RotatingGradient::new(colors.clone()).unwrap();
    let first = g.next_colors();
    assert_eq!(first, colors);
    for _ in 1..5 {
        g.next_colors();
    }
    assert_eq!(g.next_colors(), first);
}

#[test]
fn rotating_gradient_of_one_light_and_none() {
    let mut g = RotatingGradient::new(vec![9, 8, 7]).unwrap();
    assert_eq!(g.render(), vec![9, 8, 7]);
    assert_eq!(g.render(), vec![9, 8, 7]);
    let mut e = RotatingGradient::new(vec![]).unwrap();
    assert_eq!(e.render(), Vec::<u8>::new());
}
