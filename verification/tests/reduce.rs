use dhash::{to_grey_signature_image, ColorImage, HashError};

fn color_from_fn(width: u32, height: u32, f: impl Fn(u32, u32) -> [u8; 4]) -> ColorImage {
    let mut data = Vec::new();
    for y in 0..height {
        for x in 0..width {
            data.extend_from_slice(&f(x, y));
        }
    }
    ColorImage::from_bytes(width, height, &data).unwrap()
}

fn signature_samples(img: &ColorImage) -> Vec<u16> {
    let grid = to_grey_signature_image(img).unwrap();
    assert_eq!(grid.width(), 9);
    assert_eq!(grid.height(), 8);
    let mut samples = Vec::new();
    for y in 0..8 {
        for x in 0..9 {
            samples.push(grid.get_pixel(x, y));
        }
    }
    samples
}

#[test]
fn signature_is_nine_by_eight() {
    for (width, height) in [(1, 1), (9, 8), (8, 9), (3, 200), (640, 480), (17, 5)] {
        let img = color_from_fn(width, height, |x, y| [x as u8, y as u8, 0, 255]);
        let grid = to_grey_signature_image(&img).unwrap();
        assert_eq!((grid.width(), grid.height()), (9, 8));
    }
}

#[test]
fn grey_value_is_the_weighted_sum_rounded_down() {
    // at nine by eight nothing is resampled, so the signature is the grey image itself
    let colors: [([u8; 4], u16); 9] = [
        ([255, 0, 0, 255], 54),
        ([0, 255, 0, 255], 182),
        ([0, 0, 255, 255], 18),
        ([255, 255, 255, 255], 255),
        ([0, 0, 0, 255], 0),
        ([10, 20, 30, 255], 18),
        ([200, 100, 50, 7], 117),
        ([1, 1, 1, 0], 1),
        ([4, 1, 1, 255], 1),
    ];
    let img = color_from_fn(9, 8, |x, _| colors[x as usize].0);
    let samples = signature_samples(&img);
    for y in 0..8usize {
        for x in 0..9usize {
            assert_eq!(samples[y * 9 + x], colors[x].1);
        }
    }
}

#[test]
fn alpha_plays_no_part() {
    let opaque = color_from_fn(9, 8, |x, y| [(x * 20) as u8, (y * 30) as u8, 90, 255]);
    let clear = color_from_fn(9, 8, |x, y| [(x * 20) as u8, (y * 30) as u8, 90, 0]);
    assert_eq!(signature_samples(&opaque), signature_samples(&clear));
}

#[test]
fn single_pixel_fills_the_signature() {
    let img = color_from_fn(1, 1, |_, _| [255, 0, 0, 255]);
    assert_eq!(signature_samples(&img), vec![54u16; 72]);
}

#[test]
fn halving_picks_one_sample_of_each_block() {
    // blocks of two by two pixels of one grey value each
    let img = color_from_fn(18, 16, |x, y| {
        let v = ((x / 2) * 8 + (y / 2) * 25) as u8;
        [v, v, v, 255]
    });
    let samples = signature_samples(&img);
    for y in 0..8u32 {
        for x in 0..9u32 {
            assert_eq!(samples[(y * 9 + x) as usize], (x * 8 + y * 25) as u16);
        }
    }
}

#[test]
fn small_image_is_enlarged_by_repeating_samples() {
    let img = color_from_fn(3, 2, |x, y| {
        let v = (10 + x * 10 + y * 100) as u8;
        [v, v, v, 255]
    });
    let samples = signature_samples(&img);
    for y in 0..8u32 {
        for x in 0..9u32 {
            assert_eq!(samples[(y * 9 + x) as usize], (10 + (x / 3) * 10 + (y / 4) * 100) as u16);
        }
    }
}

#[test]
fn signature_matches_the_image_crate() {
    let img = color_from_fn(37, 23, |x, y| {
        [(x * 7 + y * 3) as u8, (x * x + y) as u8, (x + y * y) as u8, (x ^ y) as u8]
    });
    let direct = image::RgbaImage::from_fn(37, 23, |x, y| {
        image::Rgba([(x * 7 + y * 3) as u8, (x * x + y) as u8, (x + y * y) as u8, (x ^ y) as u8])
    });
    let grey = image::imageops::grayscale(&direct);
    let small = image::imageops::resize(&grey, 9, 8, image::imageops::FilterType::Nearest);
    let expected: Vec<u16> = small.into_raw().into_iter().map(u16::from).collect();
    assert_eq!(signature_samples(&img), expected);
}

#[test]
fn signature_of_sixteen_bit_image_matches_the_image_crate() {
    let f = |x: u32, y: u32| {
        [(x * 701 + y * 3) as u16, (x * x * 50 + y) as u16, (x + y * y * 90) as u16, (x ^ y) as u16]
    };
    let mut data = Vec::new();
    for y in 0..23 {
        for x in 0..37 {
            data.extend_from_slice(&f(x, y));
        }
    }
    let img = ColorImage::new(37, 23, data).unwrap();
    let direct = image::ImageBuffer::<image::Rgba<u16>, Vec<u16>>::from_fn(37, 23, |x, y| {
        image::Rgba(f(x, y))
    });
    let grey = image::imageops::grayscale(&direct);
    let small = image::imageops::resize(&grey, 9, 8, image::imageops::FilterType::Nearest);
    assert_eq!(signature_samples(&img), small.into_raw());
}

#[test]
fn grey_value_of_sixteen_bit_colors() {
    let colors: [([u16; 4], u16); 9] = [
        ([65535, 0, 0, 65535], 13932),
        ([0, 65535, 0, 65535], 46870),
        ([0, 0, 65535, 65535], 4731),
        ([65535, 65535, 65535, 65535], 65535),
        ([0, 0, 0, 0], 0),
        ([1000, 2000, 3000, 5], 1859),
        ([256, 256, 256, 0], 256),
        ([40000, 40000, 40000, 1], 40000),
        ([300, 200, 100, 65535], 214),
    ];
    let mut data = Vec::new();
    for _ in 0..8 {
        for x in 0..9 {
            data.extend_from_slice(&colors[x].0);
        }
    }
    let img = ColorImage::new(9, 8, data).unwrap();
    let samples = signature_samples(&img);
    for y in 0..8usize {
        for x in 0..9usize {
            assert_eq!(samples[y * 9 + x], colors[x].1);
        }
    }
}

#[test]
fn image_without_pixels_is_rejected() {
    for (width, height) in [(0, 0), (0, 5), (5, 0)] {
        let img = ColorImage::new(width, height, vec![]).unwrap();
        assert_eq!(to_grey_signature_image(&img).err(), Some(HashError::InvalidImage));
    }
}
