use std::io::Cursor;
use xkcli::braille::{braille_char, get_braille, pack};
use xkcli::comic::{header_line, metadata_url, push_decimal, ComicInfo};
use xkcli::dither::{diffusion_targets, Ditherer, Spread};
use xkcli::grid::{padded_height, padded_width, BitGrid};
use xkcli::loader::{load, scaled_size, PixelGrid, RenderError};

/// Runs a full single-precision Floyd-Steinberg pass over `p`.
fn dither(p: &PixelGrid) -> BitGrid {
    let (w, h) = (p.width(), p.height());
    let mut residual = vec![0_f32; w * h];
    let mut d = Ditherer::new(w, h);
    while let Some((x, y)) = d.current() {
        let (r, g, b) = p.pixel(x, y);
        let (r, g, b) = (r as f32 / 255_f32, g as f32 / 255_f32, b as f32 / 255_f32);
        let val = residual[x * h + y] + 0.299 * r + 0.587 * g + 0.114 * b;
        let dark = val < 0.5;
        let error = val - if dark { 0_f32 } else { 1_f32 };
        for s in d.record(dark) {
            residual[s.x * h + s.y] += error * (s.sixteenths as f32 / 16.0);
        }
    }
    d.finish()
}

fn solid(w: usize, h: usize, v: u8) -> PixelGrid {
    PixelGrid::from_rgb(w, h, vec![v; 3 * w * h]).unwrap()
}

fn all_bits(g: &BitGrid, v: bool) -> bool {
    (0..g.width()).all(|x| (0..g.height()).all(|y| g.get(x, y) == v))
}

fn png_bytes(w: u32, h: u32) -> Vec<u8> {
    let img = image::RgbImage::from_pixel(w, h, image::Rgb([0, 0, 0]));
    let mut out = Cursor::new(Vec::new());
    img.write_to(&mut out, image::ImageFormat::Png).unwrap();
    out.into_inner()
}

#[test]
fn padding_rounds_up_to_whole_cells() {
    assert_eq!(padded_width(0), 0);
    assert_eq!(padded_width(3), 4);
    assert_eq!(padded_width(4), 4);
    assert_eq!(padded_height(1), 4);
    assert_eq!(padded_height(8), 8);
    assert_eq!(padded_height(9), 12);
    let g = dither(&solid(5, 5, 128));
    assert_eq!((g.width(), g.height()), (6, 8));
    assert!(g.width() % 2 == 0 && g.height() % 4 == 0);
}

#[test]
fn padding_dots_stay_blank() {
    let g = dither(&solid(3, 5, 0));
    for x in 0..4 {
        for y in 0..8 {
            assert_eq!(g.get(x, y), x < 3 && y < 5);
        }
    }
}

#[test]
fn dithering_is_deterministic() {
    let rgb: Vec<u8> = (0..3 * 7 * 9).map(|i| (i * 37 % 256) as u8).collect();
    let p = PixelGrid::from_rgb(7, 9, rgb).unwrap();
    let (a, b) = (dither(&p), dither(&p));
    assert_eq!(pack(&a), pack(&b));
    for x in 0..a.width() {
        for y in 0..a.height() {
            assert_eq!(a.get(x, y), b.get(x, y));
        }
    }
}

#[test]
fn white_gives_no_dots_and_black_gives_all() {
    assert!(all_bits(&dither(&solid(6, 8, 255)), false));
    assert!(all_bits(&dither(&solid(6, 8, 0)), true));
}

#[test]
fn mid_grey_mixes_dots() {
    let g = dither(&solid(4, 4, 128));
    let on = (0..4).flat_map(|x| (0..4).map(move |y| (x, y))).filter(|&(x, y)| g.get(x, y)).count();
    assert!(on > 0 && on < 16);
    assert!(!g.get(0, 0));
}

#[test]
fn interior_pixel_spreads_whole_residual() {
    let t = diffusion_targets(1, 1, 3, 3);
    assert_eq!(
        t,
        vec![
            Spread { x: 2, y: 1, sixteenths: 7 },
            Spread { x: 1, y: 2, sixteenths: 5 },
            Spread { x: 0, y: 2, sixteenths: 3 },
            Spread { x: 2, y: 2, sixteenths: 1 },
        ]
    );
    assert_eq!(t.iter().map(|s| s.sixteenths).sum::<u32>(), 16);
}

#[test]
fn edge_pixels_spread_inside_only() {
    assert_eq!(diffusion_targets(2, 2, 3, 3), vec![]);
    assert_eq!(
        diffusion_targets(0, 2, 3, 3),
        vec![Spread { x: 1, y: 2, sixteenths: 7 }]
    );
    assert_eq!(
        diffusion_targets(2, 0, 3, 3),
        vec![
            Spread { x: 2, y: 1, sixteenths: 5 },
            Spread { x: 1, y: 1, sixteenths: 3 },
        ]
    );
}

#[test]
fn scan_is_column_major() {
    let mut d = Ditherer::new(2, 3);
    let mut order = vec![];
    while let Some(p) = d.current() {
        order.push(p);
        d.record(false);
    }
    assert_eq!(order, vec![(0, 0), (0, 1), (0, 2), (1, 0), (1, 1), (1, 2)]);
    assert_eq!(Ditherer::new(3, 0).current(), None);
}

#[test]
fn blank_and_full_cells() {
    let mut g = BitGrid::new(4, 8);
    assert_eq!(pack(&g), "\u{2800}\u{2800}\n\u{2800}\u{2800}\n");
    for x in 0..4 {
        for y in 0..8 {
            g.set(x, y, true);
        }
    }
    assert_eq!(pack(&g), "\u{28FF}\u{28FF}\n\u{28FF}\u{28FF}\n");
}

#[test]
fn corner_dots_make_one_glyph() {
    let mut g = BitGrid::new(2, 4);
    g.set(0, 0, true);
    g.set(1, 3, true);
    assert_eq!(pack(&g), "\u{2881}\n");
    assert_eq!(get_braille(true, false, false, false, false, false, false, true), "\u{2881}");
}

#[test]
fn dot_bits_follow_braille_numbering() {
    let one = |i: usize| {
        let mut d = [false; 8];
        d[i] = true;
        braille_char(d[0], d[1], d[2], d[3], d[4], d[5], d[6], d[7]) as u32 - 0x2800
    };
    assert_eq!((0..8).map(one).collect::<Vec<u32>>(), vec![1, 8, 2, 16, 4, 32, 64, 128]);
    assert_eq!(get_braille(false, false, false, false, false, false, false, false), "\u{2800}");
}

#[test]
fn black_four_by_eight_renders_full_glyphs() {
    let g = dither(&solid(4, 8, 0));
    assert!(all_bits(&g, true));
    assert_eq!(pack(&g), "\u{28FF}\u{28FF}\n\u{28FF}\u{28FF}\n");
}

#[test]
fn pixel_reads_row_by_row() {
    let p = PixelGrid::from_rgb(2, 1, vec![1, 2, 3, 4, 5, 6]).unwrap();
    assert_eq!(p.pixel(0, 0), (1, 2, 3));
    assert_eq!(p.pixel(1, 0), (4, 5, 6));
    assert!(PixelGrid::from_rgb(2, 2, vec![0; 6]).is_none());
    assert!(PixelGrid::from_rgb(0, 3, vec![]).is_some());
}

#[test]
fn load_rejects_zero_width() {
    assert_eq!(load(&png_bytes(4, 4), 0).err(), Some(RenderError::InvalidArgument));
}

#[test]
fn load_rejects_garbage() {
    assert_eq!(load(&[1, 2, 3, 4], 10).err(), Some(RenderError::DecodeError));
}

#[test]
fn load_scales_to_twice_char_width() {
    let p = load(&png_bytes(8, 4), 2).unwrap();
    assert_eq!((p.width(), p.height()), (4, 2));
    let p = load(&png_bytes(4, 8), 2).unwrap();
    assert_eq!((p.width(), p.height()), (4, 8));
    assert_eq!(p.pixel(3, 7), (0, 0, 0));
}

#[test]
fn metadata_address() {
    assert_eq!(metadata_url("614"), "http://xkcd.com/614/info.0.json");
    assert_eq!(metadata_url(""), "http://xkcd.com//info.0.json");
}

#[test]
fn header_shows_number_date_and_title() {
    let info = ComicInfo {
        num: 1234,
        year: "2013".to_string(),
        month: "7".to_string(),
        day: "29".to_string(),
        title: "Douglas Engelbart".to_string(),
        img: String::new(),
    };
    assert_eq!(header_line(&info), "#1234 (2013-7-29): Douglas Engelbart");
    let mut s = String::from("n=");
    push_decimal(&mut s, 0);
    assert_eq!(s, "n=0");
}

#[test]
fn scaled_size_keeps_aspect_ratio() {
    assert_eq!(scaled_size(8, 4, 2), Ok((4, 2)));
    assert_eq!(scaled_size(3, 1, 1), Ok((2, 1)));
    assert_eq!(scaled_size(4, 1, 1), Ok((2, 1)));
    assert_eq!(scaled_size(5, 1, 1), Ok((2, 0)));
    assert_eq!(scaled_size(100, 50, 100), Ok((200, 100)));
    assert_eq!(scaled_size(0, 7, 3), Ok((6, 0)));
}

#[test]
fn scaled_size_rejects_bad_widths() {
    assert_eq!(scaled_size(8, 4, 0), Err(RenderError::InvalidArgument));
    assert_eq!(scaled_size(8, 4, u32::MAX / 2 + 1), Err(RenderError::InvalidArgument));
    assert_eq!(scaled_size(1, u32::MAX, u32::MAX / 2), Err(RenderError::InvalidArgument));
}

#[test]
fn load_enlarges_small_pictures() {
    let p = load(&png_bytes(2, 2), 3).unwrap();
    assert_eq!((p.width(), p.height()), (6, 6));
    assert_eq!(p.pixel(5, 5), (0, 0, 0));
}
