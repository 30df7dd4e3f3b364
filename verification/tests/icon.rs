//! The tray icon, held against the geometry that it is drawn from.
use tetron_systray::icon::{icon_for, solid_icon, SIZE};

const RGB: [u8; 3] = [1, 2, 3];
const GLYPH: [u8; 3] = [200, 201, 202];

fn drawn() -> Vec<u8> {
    let center = (SIZE as f32 - 1.0) / 2.0;
    let mut rgba = Vec::new();
    for y in 0..SIZE {
        for x in 0..SIZE {
            let dx = x as f32 - center;
            let dy = y as f32 - center;
            let dist = (dx * dx + dy * dy).sqrt();
            let alpha = if dist <= 12.0 {
                255
            } else if dist <= 13.0 {
                (255.0 * (1.0 - (dist - 12.0))).clamp(0.0, 255.0) as u8
            } else {
                0
            };
            let yf = y as f32;
            let in_stem = dx.abs() <= 1.75 && (11.0..=23.0).contains(&yf);
            let in_bar = dx.abs() <= 5.5 && (8.0..=11.0).contains(&yf);
            let color = if alpha > 0 && (in_stem || in_bar) { GLYPH } else { RGB };
            rgba.extend_from_slice(&[color[0], color[1], color[2], alpha]);
        }
    }
    rgba
}

fn pixel(icon: &[u8], x: usize, y: usize) -> [u8; 4] {
    let k = 4 * (32 * y + x);
    [icon[k], icon[k + 1], icon[k + 2], icon[k + 3]]
}

#[test]
fn every_pixel_follows_the_geometry() {
    assert_eq!(solid_icon(RGB, GLYPH), drawn());
}

#[test]
fn some_pixels_by_value() {
    let icon = solid_icon(RGB, GLYPH);
    assert_eq!(icon.len(), 4096);
    assert_eq!(pixel(&icon, 0, 0), [1, 2, 3, 0]);
    assert_eq!(pixel(&icon, 16, 16), [200, 201, 202, 255]);
    assert_eq!(pixel(&icon, 8, 16), [1, 2, 3, 255]);
    assert_eq!(pixel(&icon, 10, 8), [200, 201, 202, 255]);
    assert_eq!(pixel(&icon, 9, 8), [1, 2, 3, 255]);
    assert_eq!(pixel(&icon, 16, 24), [1, 2, 3, 255]);
}

#[test]
fn the_letter_stays_in_the_circle() {
    let icon = solid_icon(RGB, GLYPH);
    for i in 0..1024 {
        if icon[4 * i + 3] == 0 {
            assert_eq!(icon[4 * i..4 * i + 3], RGB);
        }
    }
}

#[test]
fn a_margin_of_three_pixels_is_transparent() {
    let icon = solid_icon(RGB, GLYPH);
    for y in 0..32 {
        for x in 0..32 {
            if x < 3 || x > 28 || y < 3 || y > 28 {
                assert_eq!(pixel(&icon, x, y)[3], 0);
            }
        }
    }
}

#[test]
fn the_icon_is_symmetric() {
    let icon = solid_icon(RGB, GLYPH);
    for y in 0..32 {
        for x in 0..32 {
            assert_eq!(pixel(&icon, x, y), pixel(&icon, 31 - x, y));
        }
    }
}

#[test]
fn each_state_has_its_colours() {
    let white = [255, 255, 255];
    assert_eq!(icon_for(false, false), solid_icon([229, 115, 115], white));
    assert_eq!(icon_for(false, true), solid_icon([229, 115, 115], white));
    assert_eq!(icon_for(true, true), solid_icon([76, 175, 80], white));
    assert_eq!(icon_for(true, false), solid_icon([154, 159, 168], [60, 63, 70]));
}
