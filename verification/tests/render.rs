use raydium::math::RectSize;
use raydium::render::compose;
use raydium::render::pixel_at;
use raydium::render::pixel_seed;
use raydium::render::Rgb;
use raydium::render::MAX_SCATTER_DEPTH;
use raydium::render::NUM_SAMPLES;

fn shade(i: usize) -> Rgb {
    Rgb { r: (i % 251) as u8, g: ((i * 7) % 253) as u8, b: ((i * 13) % 241) as u8 }
}

#[test]
fn defaults_are_ten_samples_and_fifty_bounces() {
    assert_eq!(NUM_SAMPLES, 10);
    assert_eq!(MAX_SCATTER_DEPTH, 50);
}

#[test]
fn pixels_are_visited_row_by_row() {
    let size = RectSize { width: 3, height: 2 };
    let visited: Vec<(u32, u32)> = (0..6).map(|i| pixel_at(size, i)).collect();
    assert_eq!(visited, vec![(0, 0), (1, 0), (2, 0), (0, 1), (1, 1), (2, 1)]);
}

#[test]
fn pixel_at_in_a_single_column() {
    let size = RectSize { width: 1, height: 4 };
    assert_eq!(pixel_at(size, 0), (0, 0));
    assert_eq!(pixel_at(size, 3), (0, 3));
}

#[test]
fn pixel_at_in_a_large_grid() {
    let size = RectSize { width: u32::MAX, height: u32::MAX };
    let last = (u32::MAX as u64) * (u32::MAX as u64) - 1;
    assert_eq!(pixel_at(size, last), (u32::MAX - 1, u32::MAX - 1));
    assert_eq!(pixel_at(size, u32::MAX as u64), (0, 1));
}

#[test]
fn single_pixel_is_opaque() {
    let picture = compose(RectSize { width: 1, height: 1 }, &vec![Rgb { r: 1, g: 2, b: 3 }]);
    assert_eq!(picture, vec![1, 2, 3, 255]);
}

#[test]
fn rows_are_flipped_and_columns_kept() {
    let size = RectSize { width: 2, height: 3 };
    let colors: Vec<Rgb> = (0..6).map(|i| Rgb { r: 10 * i, g: 10 * i + 1, b: 10 * i + 2 }).collect();
    let picture = compose(size, &colors);
    let expected: Vec<u8> = vec![
        40, 41, 42, 255, 50, 51, 52, 255, // the last sampled row comes first
        20, 21, 22, 255, 30, 31, 32, 255, //
        0, 1, 2, 255, 10, 11, 12, 255,
    ];
    assert_eq!(picture, expected);
}

#[test]
fn a_single_row_is_left_in_order() {
    let size = RectSize { width: 3, height: 1 };
    let colors = vec![Rgb { r: 1, g: 1, b: 1 }, Rgb { r: 2, g: 2, b: 2 }, Rgb { r: 3, g: 3, b: 3 }];
    assert_eq!(compose(size, &colors), vec![1, 1, 1, 255, 2, 2, 2, 255, 3, 3, 3, 255]);
}

#[test]
fn empty_pictures_have_no_samples() {
    assert_eq!(compose(RectSize { width: 0, height: 0 }, &vec![]), Vec::<u8>::new());
    assert_eq!(compose(RectSize { width: 0, height: 5 }, &vec![]), Vec::<u8>::new());
    assert_eq!(compose(RectSize { width: 5, height: 0 }, &vec![]), Vec::<u8>::new());
}

#[test]
fn every_pixel_lands_where_the_flip_puts_it() {
    let size = RectSize { width: 20, height: 10 };
    let colors: Vec<Rgb> = (0..200).map(shade).collect();
    let picture = compose(size, &colors);
    assert_eq!(picture.len(), 4 * 20 * 10);
    for y in 0..10usize {
        for x in 0..20usize {
            let at = (y * 20 + x) * 4;
            let from = colors[(10 - 1 - y) * 20 + x];
            assert_eq!(picture[at], from.r);
            assert_eq!(picture[at + 1], from.g);
            assert_eq!(picture[at + 2], from.b);
            assert_eq!(picture[at + 3], 255);
        }
    }
}

#[test]
fn the_same_colours_give_the_same_picture() {
    let size = RectSize { width: 20, height: 10 };
    let colors: Vec<Rgb> = (0..200).map(shade).collect();
    assert_eq!(compose(size, &colors), compose(size, &colors));
}

#[test]
fn full_brightness_stays_at_the_channel_maximum() {
    let size = RectSize { width: 2, height: 2 };
    let white = Rgb { r: 255, g: 255, b: 255 };
    assert_eq!(compose(size, &vec![white; 4]), vec![255u8; 16]);
}

#[test]
fn picture_agrees_with_the_image_crate() {
    let size = RectSize { width: 4, height: 3 };
    let colors: Vec<Rgb> = (0..12).map(shade).collect();
    let mut buffer: image::ImageBuffer<image::Rgba<u8>, Vec<u8>> = image::ImageBuffer::new(4, 3);
    for (x, y, pixel) in buffer.enumerate_pixels_mut() {
        let c = colors[(y * 4 + x) as usize];
        *pixel = image::Rgba([c.r, c.g, c.b, 255]);
    }
    let flipped = image::DynamicImage::ImageRgba8(buffer).flipv().into_rgba8();
    assert_eq!(compose(size, &colors), flipped.into_raw());
}

#[test]
fn pixel_seed_is_the_sum_of_seed_and_place() {
    assert_eq!(pixel_seed(0, 0), 0);
    assert_eq!(pixel_seed(42, 0), 42);
    assert_eq!(pixel_seed(42, 199), 241);
    assert_eq!(pixel_seed(1 << 40, 3), (1 << 40) + 3);
}

#[test]
fn pixel_seed_wraps_around() {
    assert_eq!(pixel_seed(u64::MAX, 0), u64::MAX);
    assert_eq!(pixel_seed(u64::MAX, 1), 0);
    assert_eq!(pixel_seed(u64::MAX, 5), 4);
    assert_eq!(pixel_seed(u64::MAX - 2, 2), u64::MAX);
    assert_eq!(pixel_seed(u64::MAX - 2, 3), 0);
    assert_eq!(pixel_seed(u64::MAX, u64::MAX), u64::MAX - 1);
    assert_eq!(pixel_seed(7, u64::MAX), 6);
}

#[test]
fn pixels_of_one_render_have_different_seeds() {
    let seeds: Vec<u64> = (0..200).map(|i| pixel_seed(u64::MAX - 100, i)).collect();
    for i in 0..seeds.len() {
        for j in 0..i {
            assert_ne!(seeds[i], seeds[j]);
        }
    }
}

#[test]
fn pixel_seed_agrees_with_wrapping_addition() {
    let values = [0u64, 1, 2, 1 << 32, u64::MAX / 2, u64::MAX - 1, u64::MAX];
    for &a in values.iter() {
        for &b in values.iter() {
            assert_eq!(pixel_seed(a, b), a.wrapping_add(b));
        }
    }
}
