use commedia::raster::{covers, crop_upside_down, downsample4, face_visible, face_pixel, Pixel, Raster};

fn px(v: u8) -> Pixel {
    Pixel { r: v, g: v, b: v, a: 255 }
}

fn raster(w: usize, h: usize, f: impl Fn(usize, usize) -> Pixel) -> Raster {
    Raster { rows: (0..h).map(|y| (0..w).map(|x| f(x, y)).collect()).collect() }
}

#[test]
fn face_band_edges() {
    assert!(face_pixel(px(0x70)));
    assert!(face_pixel(px(0x8f)));
    assert!(!face_pixel(px(0x90)));
    assert!(!face_pixel(px(0x6f)));
    assert!(!face_pixel(Pixel { r: 0x80, g: 0x80, b: 0x20, a: 0 }));
}

#[test]
fn visibility_scan() {
    let dark = raster(8, 6, |_, _| px(0));
    assert!(!face_visible(&dark));
    let one = raster(8, 6, |x, y| if (x, y) == (7, 5) { px(0x80) } else { px(0) });
    assert!(face_visible(&one));
    assert!(!face_visible(&Raster { rows: vec![] }));
}

#[test]
fn crop_is_upside_down() {
    let src = raster(4, 4, |x, y| Pixel { r: x as u8, g: y as u8, b: 0, a: 0 });
    let out = crop_upside_down(&src, 1, 1, 2, 3);
    assert_eq!(out.rows.len(), 3);
    assert_eq!(out.rows[0], vec![Pixel { r: 1, g: 3, b: 0, a: 0 }, Pixel { r: 2, g: 3, b: 0, a: 0 }]);
    assert_eq!(out.rows[2], vec![Pixel { r: 1, g: 1, b: 0, a: 0 }, Pixel { r: 2, g: 1, b: 0, a: 0 }]);
}

#[test]
fn downsample_averages_squares() {
    let src = raster(9, 5, |x, y| Pixel { r: (x + 4 * y) as u8, g: 16, b: 255, a: if x < 4 { 0 } else { 31 } });
    let out = downsample4(&src, 9);
    assert_eq!(out.rows.len(), 1);
    assert_eq!(out.rows[0].len(), 2);
    // r of the first square: sum over x<4, y<4 of x + 4y = 24 + 96 = 120, / 16 = 7
    assert_eq!(out.rows[0][0], Pixel { r: 7, g: 16, b: 255, a: 0 });
    // and of the second: 88 + 96 = 184, / 16 = 11
    assert_eq!(out.rows[0][1], Pixel { r: 11, g: 16, b: 255, a: 31 });
}

#[test]
fn background_must_cover_the_frame() {
    assert!(covers(256, 192, 256, 192));
    assert!(!covers(255, 400, 256, 192));
    assert!(!covers(400, 191, 256, 192));
}
