use raytracer::config::OutConfig;
use raytracer::image::{Frame, ImageSize, ImageSizeError, Rgb8};
use raytracer::ppm::{push_decimal, push_header, push_pixel_line};

#[test]
fn image_size_accepts_positive_dimensions() {
    let size = ImageSize::new(400, 225).unwrap();
    assert_eq!(size.width(), 400);
    assert_eq!(size.height(), 225);
    assert_eq!(size.pixel_count(), 90_000);
}

#[test]
fn image_size_rejects_height_below_one() {
    assert_eq!(ImageSize::new(400, 0), Err(ImageSizeError::HeightTooSmall));
    assert_eq!(ImageSize::new(400, -7), Err(ImageSizeError::HeightTooSmall));
    assert_eq!(ImageSize::new(0, 0), Err(ImageSizeError::HeightTooSmall));
}

#[test]
fn image_size_rejects_width_below_one() {
    assert_eq!(ImageSize::new(0, 10), Err(ImageSizeError::WidthTooSmall));
}

#[test]
fn image_size_of_one_pixel() {
    let size = ImageSize::new(1, 1).unwrap();
    assert_eq!(size.pixel_count(), 1);
    assert_eq!(size.pixel_index(0, 0), 0);
}

#[test]
fn largest_image_size_counts_without_overflow() {
    let size = ImageSize::new(i32::MAX, i32::MAX).unwrap();
    assert_eq!(size.pixel_count(), (i32::MAX as u64) * (i32::MAX as u64));
    assert_eq!(size.pixel_index(i32::MAX as u32 - 1, i32::MAX as u32 - 1), size.pixel_count() - 1);
}

#[test]
fn pixel_index_is_row_major() {
    let size = ImageSize::new(4, 3).unwrap();
    assert_eq!(size.pixel_index(0, 0), 0);
    assert_eq!(size.pixel_index(3, 0), 3);
    assert_eq!(size.pixel_index(0, 1), 4);
    assert_eq!(size.pixel_index(2, 2), 10);
}

#[test]
fn frame_needs_one_pixel_per_cell() {
    let size = ImageSize::new(2, 2).unwrap();
    assert!(Frame::from_pixels(size, vec![Rgb8::new(0, 0, 0); 3]).is_none());
    assert!(Frame::from_pixels(size, vec![Rgb8::new(0, 0, 0); 5]).is_none());
    assert!(Frame::from_pixels(size, vec![Rgb8::new(0, 0, 0); 4]).is_some());
}

#[test]
fn frame_pixel_reads_raster_order() {
    let size = ImageSize::new(3, 2).unwrap();
    let pixels: Vec<Rgb8> = (0..6u8).map(|k| Rgb8::new(k, 10 * k, 255 - k)).collect();
    let frame = Frame::from_pixels(size, pixels).unwrap();
    assert_eq!(frame.size(), size);
    assert_eq!(frame.pixel(0, 0), Rgb8::new(0, 0, 255));
    assert_eq!(frame.pixel(2, 0), Rgb8::new(2, 20, 253));
    assert_eq!(frame.pixel(0, 1), Rgb8::new(3, 30, 252));
    assert_eq!(frame.pixel(2, 1), Rgb8::new(5, 50, 250));
}

#[test]
fn ppm_of_two_pixels() {
    let size = ImageSize::new(2, 1).unwrap();
    let frame = Frame::from_pixels(size, vec![Rgb8::new(255, 0, 7), Rgb8::new(10, 99, 100)]).unwrap();
    let text = String::from_utf8(frame.to_ppm()).unwrap();
    assert_eq!(text, "P3\n2 1\n255\n255 0 7\n10 99 100\n");
}

#[test]
fn ppm_header_of_default_size() {
    let mut out = Vec::new();
    push_header(&mut out, 400, 225);
    assert_eq!(out, b"P3\n400 225\n255\n".to_vec());
}

#[test]
fn ppm_pixel_line_extremes() {
    let mut out = b"x".to_vec();
    push_pixel_line(&mut out, Rgb8::new(0, 255, 128));
    assert_eq!(out, b"x0 255 128\n".to_vec());
}

#[test]
fn decimal_digits() {
    for (n, text) in [(0u32, "0"), (9, "9"), (10, "10"), (255, "255"), (1000, "1000"), (u32::MAX, "4294967295")] {
        let mut out = Vec::new();
        push_decimal(&mut out, n);
        assert_eq!(String::from_utf8(out).unwrap(), text);
    }
}

#[test]
fn encoding_is_deterministic() {
    let size = ImageSize::new(2, 2).unwrap();
    let pixels = vec![Rgb8::new(1, 2, 3), Rgb8::new(4, 5, 6), Rgb8::new(7, 8, 9), Rgb8::new(0, 0, 0)];
    let a = Frame::from_pixels(size, pixels.clone()).unwrap().to_ppm();
    let b = Frame::from_pixels(size, pixels).unwrap().to_ppm();
    assert_eq!(a, b);
}

#[test]
fn out_config_keeps_file() {
    let c = OutConfig::new("image.ppm".to_string());
    assert_eq!(c.file, "image.ppm");
}

#[test]
fn frame_from_rows_keeps_raster_order() {
    let size = ImageSize::new(2, 3).unwrap();
    let rows = vec![
        vec![Rgb8::new(1, 1, 1), Rgb8::new(2, 2, 2)],
        vec![Rgb8::new(3, 3, 3), Rgb8::new(4, 4, 4)],
        vec![Rgb8::new(5, 5, 5), Rgb8::new(6, 6, 6)],
    ];
    let frame = Frame::from_rows(size, rows).unwrap();
    assert_eq!(frame.pixel(1, 0), Rgb8::new(2, 2, 2));
    assert_eq!(frame.pixel(0, 2), Rgb8::new(5, 5, 5));
    let text = String::from_utf8(frame.to_ppm()).unwrap();
    assert_eq!(text, "P3\n2 3\n255\n1 1 1\n2 2 2\n3 3 3\n4 4 4\n5 5 5\n6 6 6\n");
}

#[test]
fn frame_from_rows_rejects_wrong_shapes() {
    let size = ImageSize::new(2, 2).unwrap();
    let p = Rgb8::new(0, 0, 0);
    assert!(Frame::from_rows(size, vec![vec![p, p]]).is_none());
    assert!(Frame::from_rows(size, vec![vec![p, p], vec![p]]).is_none());
    assert!(Frame::from_rows(size, vec![vec![p, p], vec![p, p], vec![p, p]]).is_none());
    assert!(Frame::from_rows(size, vec![vec![p, p, p], vec![p, p]]).is_none());
    assert!(Frame::from_rows(size, vec![vec![p, p], vec![p, p]]).is_some());
}
