use ssd1681::color::TriColor;
use ssd1681::graphics::{find_position, Display, DisplayRotation};

const ROTATIONS: [DisplayRotation; 4] = [
    DisplayRotation::Rotate0,
    DisplayRotation::Rotate90,
    DisplayRotation::Rotate180,
    DisplayRotation::Rotate270,
];

fn logical(width: u32, height: u32, r: DisplayRotation) -> (u32, u32) {
    match r {
        DisplayRotation::Rotate0 | DisplayRotation::Rotate180 => (width, height),
        DisplayRotation::Rotate90 | DisplayRotation::Rotate270 => (height, width),
    }
}

fn assert_bijective(width: u32, height: u32, r: DisplayRotation) {
    let row = (width + 7) / 8;
    let mut seen = vec![false; (row * height * 8) as usize];
    let (lw, lh) = logical(width, height, r);
    for x in 0..lw {
        for y in 0..lh {
            let (index, mask) = find_position(x, y, width, height, r);
            assert!(index < row * height);
            assert_eq!(mask.count_ones(), 1);
            let bit = (index * 8 + mask.leading_zeros()) as usize;
            assert!(!seen[bit], "two pixels share a bit");
            seen[bit] = true;
        }
    }
    assert!(seen.iter().all(|b| *b));
}

#[test]
fn position_is_bijective_for_every_rotation() {
    for r in ROTATIONS {
        assert_bijective(200, 200, r);
    }
}

#[test]
fn position_is_bijective_on_asymmetric_panel() {
    for r in ROTATIONS {
        assert_bijective(16, 8, r);
    }
}

#[test]
fn position_examples() {
    assert_eq!(find_position(0, 0, 200, 200, DisplayRotation::Rotate0), (0, 0x80));
    assert_eq!(find_position(0, 0, 200, 200, DisplayRotation::Rotate90), (24, 0x01));
    assert_eq!(find_position(0, 0, 200, 200, DisplayRotation::Rotate180), (4999, 0x01));
    assert_eq!(find_position(0, 0, 200, 200, DisplayRotation::Rotate270), (4975, 0x80));
    assert_eq!(find_position(9, 2, 200, 200, DisplayRotation::Rotate0), (51, 0x40));
    // 90 degrees on a 16x8 panel: logical (3, 5) is physical (10, 3).
    assert_eq!(find_position(3, 5, 16, 8, DisplayRotation::Rotate90), (7, 0x20));
}

#[test]
fn clear_white() {
    let mut d = Display::new();
    d.clear(TriColor::White);
    assert!(d.black_data().iter().all(|b| *b == 0xFF));
    assert!(d.red_data().iter().all(|b| *b == 0x00));
}

#[test]
fn clear_black() {
    let mut d = Display::new();
    d.clear(TriColor::Red);
    d.clear(TriColor::Black);
    assert!(d.black_data().iter().all(|b| *b == 0x00));
    assert!(d.red_data().iter().all(|b| *b == 0x00));
}

#[test]
fn clear_red() {
    let mut d = Display::new();
    d.clear(TriColor::Red);
    assert!(d.black_data().iter().all(|b| *b == 0xFF));
    assert!(d.red_data().iter().all(|b| *b == 0xFF));
}

#[test]
fn new_display_is_zeroed() {
    let d = Display::default();
    assert_eq!(d.black_data().len(), 5000);
    assert!(d.black_data().iter().all(|b| *b == 0));
    assert!(d.red_data().iter().all(|b| *b == 0));
    assert_eq!(d.rotation(), DisplayRotation::Rotate0);
    assert!(d.is_inverted());
}

#[test]
fn size_per_rotation() {
    let mut d = Display::new();
    for r in ROTATIONS {
        d.set_rotation(r);
        assert_eq!(d.rotation(), r);
        assert_eq!(d.size(), (200, 200));
    }
}

#[test]
fn set_pixel_writes_both_planes() {
    let mut d = Display::new();
    d.clear(TriColor::White);
    d.set_pixel(9, 2, TriColor::Red);
    assert_eq!(d.black_data()[51], 0xFF);
    assert_eq!(d.red_data()[51], 0x40);
    d.set_pixel(9, 2, TriColor::Black);
    assert_eq!(d.black_data()[51], 0xBF);
    assert_eq!(d.red_data()[51], 0x00);
    d.set_pixel(9, 2, TriColor::White);
    assert_eq!(d.black_data()[51], 0xFF);
    assert_eq!(d.red_data()[51], 0x00);
}

#[test]
fn set_pixel_follows_rotation() {
    let mut d = Display::new();
    d.set_rotation(DisplayRotation::Rotate90);
    d.set_pixel(0, 0, TriColor::White);
    assert_eq!(d.black_data()[24], 0x01);
    assert_eq!(d.black_data()[0], 0x00);
}

#[test]
fn draw_iter_clips_points_off_the_panel() {
    let mut d = Display::new();
    d.clear(TriColor::White);
    d.draw_iter(&vec![
        (0, 0, TriColor::Black),
        (-1, 5, TriColor::Black),
        (200, 0, TriColor::Black),
        (199, 199, TriColor::Red),
    ]);
    assert_eq!(d.black_data()[0], 0x7F);
    assert_eq!(d.red_data()[4999], 0x01);
    assert_eq!(d.black_data().iter().filter(|b| **b != 0xFF).count(), 1);
    assert_eq!(d.red_data().iter().filter(|b| **b != 0x00).count(), 1);
}
