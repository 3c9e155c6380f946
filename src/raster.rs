//! Pixel rasters: the visibility test on a flat-id pass, background cropping and
//! 4x4 downsampling.
use vstd::prelude::*;

verus! {

/// An 8-bit RGBA pixel.
#[derive(PartialEq, Eq, Structural, Clone, Copy, Debug)]
pub struct Pixel {
    pub r: u8,
    pub g: u8,
    pub b: u8,
    pub a: u8,
}

/// A raster as its rows, top to bottom.
#[derive(Debug, PartialEq)]
pub struct Raster {
    pub rows: Vec<Vec<Pixel>>,
}

impl View for Raster {
    type V = Seq<Seq<Pixel>>;

    open spec fn view(&self) -> Seq<Seq<Pixel>> {
        self.rows@.map_values(|row: Vec<Pixel>| row@)
    }
}

/// Every row of `img` has `width` pixels.
pub open spec fn is_rect(img: Seq<Seq<Pixel>>, width: nat) -> bool {
    forall|y: int| 0 <= y < img.len() ==> (#[trigger] img[y]).len() == width
}

/// A channel value that marks face surface in the flat-id pass.
pub open spec fn in_face_band(v: u8) -> bool {
    0x70 <= v < 0x90
}

pub open spec fn is_face_pixel(p: Pixel) -> bool {
    in_face_band(p.r) && in_face_band(p.g) && in_face_band(p.b)
}

/// Some pixel of `img` shows face surface.
pub open spec fn shows_face(img: Seq<Seq<Pixel>>) -> bool {
    exists|y: int, x: int| 0 <= y < img.len() && 0 <= x < img[y].len() && is_face_pixel(#[trigger] img[y][x])
}

pub fn face_pixel(p: Pixel) -> (r: bool)
    ensures
        r == is_face_pixel(p),
{
    0x70 <= p.r && p.r < 0x90 && 0x70 <= p.g && p.g < 0x90 && 0x70 <= p.b && p.b < 0x90
}

/// Whether a rendered flat-id pass shows any face pixel: the instance is visible.
pub fn face_visible(img: &Raster) -> (r: bool)
    ensures
        r == shows_face(img@),
{
    let mut y: usize = 0;
    while y < img.rows.len()
        invariant
            y <= img@.len(),
            forall|yy: int, x: int|
                0 <= yy < y && 0 <= x < img@[yy].len() ==> !is_face_pixel(#[trigger] img@[yy][x]),
        decreases img@.len() - y,
    {
        let row = &img.rows[y];
        assert(img@[y as int] == row@);
        let mut x: usize = 0;
        while x < row.len()
            invariant
                y < img@.len(),
                x <= row@.len(),
                img@[y as int] == row@,
                forall|k: int| 0 <= k < x ==> !is_face_pixel(#[trigger] row@[k]),
            decreases row@.len() - x,
        {
            if face_pixel(row[x]) {
                assert(is_face_pixel(img@[y as int][x as int]));
                return true;
            }
            x += 1;
        }
        y += 1;
    }
    false
}

/// The window of `src` at column `ox`, row `oy`, `w` wide and `h` high, with its rows
/// in reverse order.
pub open spec fn crop_flipped(src: Seq<Seq<Pixel>>, ox: int, oy: int, w: int, h: int) -> Seq<
    Seq<Pixel>,
> {
    Seq::new(h as nat, |r: int| src[oy + h - 1 - r].subrange(ox, ox + w))
}

/// Cuts a `w` by `h` window at (`ox`, `oy`) out of `src`, upside down: the window's
/// bottom row comes first.
pub fn crop_upside_down(src: &Raster, ox: usize, oy: usize, w: usize, h: usize) -> (r: Raster)
    requires
        forall|y: int| 0 <= y < src@.len() ==> (#[trigger] src@[y]).len() >= ox + w,
        oy + h <= src@.len(),
    ensures
        r@ == crop_flipped(src@, ox as int, oy as int, w as int, h as int),
{
    let mut rows: Vec<Vec<Pixel>> = Vec::new();
    let mut r: usize = 0;
    while r < h
        invariant
            r <= h,
            oy + h <= src@.len(),
            forall|y: int| 0 <= y < src@.len() ==> (#[trigger] src@[y]).len() >= ox + w,
            rows@.map_values(|row: Vec<Pixel>| row@) == crop_flipped(
                src@,
                ox as int,
                oy as int,
                w as int,
                h as int,
            ).take(r as int),
        decreases h - r,
    {
        let m = src.rows.len();
        assert(src@.len() == m);
        let line = &src.rows[oy + h - 1 - r];
        assert(src@[oy + h - 1 - r] == line@);
        let mut out: Vec<Pixel> = Vec::new();
        let mut x: usize = 0;
        while x < w
            invariant
                x <= w,
                line@.len() >= ox + w,
                out@ == line@.subrange(ox as int, ox + x),
            decreases w - x,
        {
            let n = line.len();
            out.push(line[ox + x]);
            x += 1;
        }
        let ghost before = rows@.map_values(|row: Vec<Pixel>| row@);
        rows.push(out);
        assert(rows@.map_values(|row: Vec<Pixel>| row@) =~= before.push(out@));
        assert(crop_flipped(src@, ox as int, oy as int, w as int, h as int).take(r + 1) =~= before.push(
            out@,
        ));
        r += 1;
    }
    assert(crop_flipped(src@, ox as int, oy as int, w as int, h as int).take(h as int)
        =~= crop_flipped(src@, ox as int, oy as int, w as int, h as int));
    Raster { rows }
}

pub open spec fn channel(p: Pixel, c: int) -> int {
    if c == 0 {
        p.r as int
    } else if c == 1 {
        p.g as int
    } else if c == 2 {
        p.b as int
    } else {
        p.a as int
    }
}

/// Sum of channel `c` over the four pixels of `row` from column `4x`.
pub open spec fn run_sum(row: Seq<Pixel>, x: int, c: int) -> int {
    channel(row[4 * x], c) + channel(row[4 * x + 1], c) + channel(row[4 * x + 2], c) + channel(
        row[4 * x + 3],
        c,
    )
}

/// Sum of channel `c` over the 4x4 square of `img` whose corner is (`4x`, `4y`).
pub open spec fn square_sum(img: Seq<Seq<Pixel>>, x: int, y: int, c: int) -> int {
    run_sum(img[4 * y], x, c) + run_sum(img[4 * y + 1], x, c) + run_sum(img[4 * y + 2], x, c)
        + run_sum(img[4 * y + 3], x, c)
}

/// The pixel of a 4x4-downsampled raster: each channel is the mean of the square,
/// rounded down.
pub open spec fn mean_pixel(img: Seq<Seq<Pixel>>, x: int, y: int) -> Pixel {
    Pixel {
        r: (square_sum(img, x, y, 0) / 16) as u8,
        g: (square_sum(img, x, y, 1) / 16) as u8,
        b: (square_sum(img, x, y, 2) / 16) as u8,
        a: (square_sum(img, x, y, 3) / 16) as u8,
    }
}

/// `img` reduced 4 times in each direction; a rest of fewer than 4 rows or columns
/// is dropped.
pub open spec fn downsampled(img: Seq<Seq<Pixel>>, width: int) -> Seq<Seq<Pixel>> {
    Seq::new(
        (img.len() / 4) as nat,
        |y: int| Seq::new((width / 4) as nat, |x: int| mean_pixel(img, x, y)),
    )
}

fn run_sums(row: &Vec<Pixel>, x: usize) -> (s: (u32, u32, u32, u32))
    requires
        4 * x + 3 < row@.len(),
    ensures
        s.0 == run_sum(row@, x as int, 0),
        s.1 == run_sum(row@, x as int, 1),
        s.2 == run_sum(row@, x as int, 2),
        s.3 == run_sum(row@, x as int, 3),
        s.0 <= 1020 && s.1 <= 1020 && s.2 <= 1020 && s.3 <= 1020,
{
    let n = row.len();
    let (p, q, u, v) = (row[4 * x], row[4 * x + 1], row[4 * x + 2], row[4 * x + 3]);
    (
        p.r as u32 + q.r as u32 + u.r as u32 + v.r as u32,
        p.g as u32 + q.g as u32 + u.g as u32 + v.g as u32,
        p.b as u32 + q.b as u32 + u.b as u32 + v.b as u32,
        p.a as u32 + q.a as u32 + u.a as u32 + v.a as u32,
    )
}

fn mean_of(img: &Raster, x: usize, y: usize) -> (p: Pixel)
    requires
        4 * y + 3 < img@.len(),
        forall|k: int| 4 * y <= k < 4 * y + 4 ==> 4 * x + 3 < (#[trigger] img@[k]).len(),
    ensures
        p == mean_pixel(img@, x as int, y as int),
{
    assert(img@[4 * y as int] == img.rows[4 * y as int]@);
    assert(img@[4 * y + 1] == img.rows[4 * y + 1]@);
    assert(img@[4 * y + 2] == img.rows[4 * y + 2]@);
    assert(img@[4 * y + 3] == img.rows[4 * y + 3]@);
    assert(4 * x + 3 < img@[4 * y as int].len());
    assert(4 * x + 3 < img@[4 * y + 1].len());
    assert(4 * x + 3 < img@[4 * y + 2].len());
    assert(4 * x + 3 < img@[4 * y + 3].len());
    let n = img.rows.len();
    assert(img@.len() == n);
    let a = run_sums(&img.rows[4 * y], x);
    let b = run_sums(&img.rows[4 * y + 1], x);
    let c = run_sums(&img.rows[4 * y + 2], x);
    let d = run_sums(&img.rows[4 * y + 3], x);
    Pixel {
        r: ((a.0 + b.0 + c.0 + d.0) / 16) as u8,
        g: ((a.1 + b.1 + c.1 + d.1) / 16) as u8,
        b: ((a.2 + b.2 + c.2 + d.2) / 16) as u8,
        a: ((a.3 + b.3 + c.3 + d.3) / 16) as u8,
    }
}

/// Reduces a raster `width` pixels wide 4 times in each direction, each pixel the mean
/// of a 4x4 square: the supersampled render becomes the output image.
pub fn downsample4(img: &Raster, width: usize) -> (r: Raster)
    requires
        is_rect(img@, width as nat),
    ensures
        r@ == downsampled(img@, width as int),
{
    let h = img.rows.len() / 4;
    let w = width / 4;
    let mut rows: Vec<Vec<Pixel>> = Vec::new();
    let mut y: usize = 0;
    while y < h
        invariant
            h == img@.len() / 4,
            w == width / 4,
            y <= h,
            is_rect(img@, width as nat),
            rows@.map_values(|row: Vec<Pixel>| row@) == downsampled(img@, width as int).take(
                y as int,
            ),
        decreases h - y,
    {
        let mut out: Vec<Pixel> = Vec::new();
        let mut x: usize = 0;
        while x < w
            invariant
                h == img@.len() / 4,
                w == width / 4,
                y < h,
                x <= w,
                is_rect(img@, width as nat),
                out@ == downsampled(img@, width as int)[y as int].take(x as int),
            decreases w - x,
        {
            assert forall|k: int| 4 * y <= k < 4 * y + 4 implies 4 * x + 3 < (
            #[trigger] img@[k]).len() by {
                assert(img@[k].len() == width);
            }
            let p = mean_of(img, x, y);
            out.push(p);
            assert(out@ =~= downsampled(img@, width as int)[y as int].take(x + 1));
            x += 1;
        }
        let ghost before = rows@.map_values(|row: Vec<Pixel>| row@);
        rows.push(out);
        assert(rows@.map_values(|row: Vec<Pixel>| row@) =~= before.push(out@));
        assert(out@ =~= downsampled(img@, width as int)[y as int]);
        assert(downsampled(img@, width as int).take(y + 1) =~= before.push(out@));
        y += 1;
    }
    assert(downsampled(img@, width as int).take(h as int) =~= downsampled(img@, width as int));
    Raster { rows }
}

/// Whether a background `bw` by `bh` is large enough to crop a `w` by `h` window from.
pub fn covers(bw: usize, bh: usize, w: usize, h: usize) -> (r: bool)
    ensures
        r == (bw >= w && bh >= h),
{
    bw >= w && bh >= h
}

} // verus!
