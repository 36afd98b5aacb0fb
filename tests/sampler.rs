use glowworm::{encode, sample, Algorithm, Frame, GlowError, Region};

fn point(x: u32, y: u32) -> Region {
    Region { x, y, x2: x, y2: y }
}

/// A 2x2 BGRA frame with distinct pixels.
fn frame() -> Frame {
    Frame {
        width: 2,
        height: 2,
        data: vec![10, 100, 200, 255, 50, 150, 250, 255, 30, 60, 90, 255, 255, 128, 64, 255],
    }
}

#[test]
fn point_sample_reorders_bgra() {
    let c = sample(&frame(), &[point(1, 0)], Algorithm::Samples).unwrap();
    assert_eq!(c, vec![250, 150, 50]);
    let c = sample(&frame(), &[point(0, 1)], Algorithm::Average).unwrap();
    assert_eq!(c, vec![90, 60, 30]);
}

#[test]
fn samples_keep_region_order() {
    let regions = [point(1, 1), point(0, 0), point(1, 0)];
    let c = sample(&frame(), &regions, Algorithm::Samples).unwrap();
    assert_eq!(c, vec![64, 128, 255, 200, 100, 10, 250, 150, 50]);
}

#[test]
fn region_past_width_is_out_of_bounds() {
    let r = Region { x: 0, y: 0, x2: 3, y2: 1 };
    assert_eq!(sample(&frame(), &[r], Algorithm::Average), Err(GlowError::OutOfBounds));
    assert_eq!(sample(&frame(), &[r], Algorithm::Samples), Err(GlowError::OutOfBounds));
}

#[test]
fn region_past_height_is_out_of_bounds() {
    let r = Region { x: 0, y: 0, x2: 1, y2: 3 };
    assert_eq!(sample(&frame(), &[point(0, 0), r], Algorithm::Average), Err(GlowError::OutOfBounds));
    assert_eq!(sample(&frame(), &[point(2, 0)], Algorithm::Samples), Err(GlowError::OutOfBounds));
    assert_eq!(sample(&frame(), &[point(0, 2)], Algorithm::Samples), Err(GlowError::OutOfBounds));
}

#[test]
fn inverted_rectangle_is_out_of_bounds() {
    let r = Region { x: 1, y: 1, x2: 0, y2: 2 };
    assert_eq!(sample(&frame(), &[r], Algorithm::Average), Err(GlowError::OutOfBounds));
}

#[test]
fn short_buffer_is_out_of_bounds() {
    let f = Frame { width: 2, height: 2, data: vec![0; 15] };
    assert_eq!(sample(&f, &[point(0, 0)], Algorithm::Samples), Err(GlowError::OutOfBounds));
}

#[test]
fn area_average_truncates() {
    let whole = Region { x: 0, y: 0, x2: 2, y2: 2 };
    let c = sample(&frame(), &[whole], Algorithm::Average).unwrap();
    assert_eq!(c, vec![151, 109, 86]);
    let top = Region { x: 0, y: 0, x2: 2, y2: 1 };
    let c = sample(&frame(), &[top], Algorithm::Average).unwrap();
    assert_eq!(c, vec![225, 125, 30]);
}

#[test]
fn samples_read_the_corner_of_a_rectangle() {
    let r = Region { x: 1, y: 0, x2: 2, y2: 2 };
    let c = sample(&frame(), &[r], Algorithm::Samples).unwrap();
    assert_eq!(c, vec![250, 150, 50]);
}

#[test]
fn no_regions_give_no_colours() {
    assert_eq!(sample(&frame(), &[], Algorithm::Average), Ok(vec![]));
}

#[test]
fn end_to_end_three_points() {
    let regions = [point(0, 0), point(1, 0), point(1, 1)];
    let colors = sample(&frame(), &regions, Algorithm::Samples).unwrap();
    assert_eq!(colors, vec![200, 100, 10, 250, 150, 50, 64, 128, 255]);
    let p = encode(3, &colors).unwrap();
    assert_eq!(
        p.slice(),
        &[65, 100, 97, 0, 2, 87, 129, 0, 17, 241, 2, 54, 5, 220, 34]
    );
}
