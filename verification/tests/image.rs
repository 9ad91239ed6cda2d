use rgba_bmp::image::{Image, Pixel};
use rgba_bmp::matrix::matrix_size;
use rgba_bmp::status::Error;

#[test]
fn new_image_is_black() {
    let image = Image::new(3, 2).unwrap();
    assert_eq!(image.get_width(), 3);
    assert_eq!(image.get_height(), 2);
    for y in 0..2 {
        for x in 0..3 {
            assert_eq!(image.get_pixel(x, y), Pixel { r: 0, g: 0, b: 0 });
        }
    }
}

#[test]
fn new_image_needs_a_pixel() {
    assert_eq!(Image::new(0, 5), Err(Error::EmptyImage));
    assert_eq!(Image::new(5, 0), Err(Error::EmptyImage));
}

#[test]
fn set_pixel_changes_one_pixel() {
    let mut image = Image::new(3, 2).unwrap();
    image.set_pixel(2, 1, Pixel { r: 7, g: 8, b: 9 });
    for y in 0..2 {
        for x in 0..3 {
            let expected = if (x, y) == (2, 1) {
                Pixel { r: 7, g: 8, b: 9 }
            } else {
                Pixel { r: 0, g: 0, b: 0 }
            };
            assert_eq!(image.get_pixel(x, y), expected);
        }
    }
}

#[test]
fn from_rgba_addresses_pixels_by_row_then_column() {
    // 3 columns, 2 rows; pixel (x, y) at bytes 4 * (y * 3 + x).
    let mut rgba = Vec::new();
    for y in 0..2u8 {
        for x in 0..3u8 {
            rgba.extend_from_slice(&[10 * y + x, 100 + x, 200 + y, 50]);
        }
    }
    let image = Image::from_rgba(&rgba, 3, 2).unwrap();
    for y in 0..2u32 {
        for x in 0..3u32 {
            let expected = Pixel { r: (10 * y + x) as u8, g: (100 + x) as u8, b: (200 + y) as u8 };
            assert_eq!(image.get_pixel(x, y), expected);
        }
    }
}

#[test]
fn from_rgba_refuses_what_is_no_matrix() {
    assert_eq!(Image::from_rgba(&[0; 16], 0, 4), Err(Error::EmptyImage));
    assert_eq!(Image::from_rgba(&[0; 16], 4, 0), Err(Error::EmptyImage));
    assert_eq!(Image::from_rgba(&[0; 15], 2, 2), Err(Error::ShortMatrix));
    assert_eq!(Image::from_rgba(&[0; 16], u32::MAX, u32::MAX), Err(Error::SizeOverflow));
    assert!(Image::from_rgba(&[0; 16], 2, 2).is_ok());
}

#[test]
fn copy_to_rgba_writes_opaque_pixels() {
    let mut image = Image::new(2, 1).unwrap();
    image.set_pixel(0, 0, Pixel { r: 1, g: 2, b: 3 });
    image.set_pixel(1, 0, Pixel { r: 4, g: 5, b: 6 });
    let mut out = vec![0u8; 10];
    assert_eq!(image.copy_to_rgba(&mut out), Ok(()));
    assert_eq!(out, vec![1, 2, 3, 255, 4, 5, 6, 255, 0, 0]);
}

#[test]
fn copy_to_rgba_leaves_a_short_buffer_alone() {
    let image = Image::from_rgba(&[1, 2, 3, 4, 5, 6, 7, 8], 2, 1).unwrap();
    let mut out = vec![9u8; 7];
    assert_eq!(image.copy_to_rgba(&mut out), Err(Error::BufferTooSmall));
    assert_eq!(out, vec![9u8; 7]);
}

#[test]
fn matrix_through_an_image_keeps_colours_and_turns_opaque() {
    let rgba: Vec<u8> = (0u8..24).collect();
    let image = Image::from_rgba(&rgba, 3, 2).unwrap();
    let mut out = vec![0u8; 24];
    assert_eq!(image.copy_to_rgba(&mut out), Ok(()));
    for i in 0..24 {
        assert_eq!(out[i], if i % 4 == 3 { 255 } else { rgba[i] });
    }
}

#[test]
fn matrix_size_is_four_bytes_per_pixel() {
    assert_eq!(matrix_size(1, 1), Ok(4));
    assert_eq!(matrix_size(10, 10), Ok(400));
    assert_eq!(matrix_size(4096, 4096), Ok(67108864));
    assert_eq!(matrix_size(0, 7), Err(Error::EmptyImage));
    assert_eq!(matrix_size(7, 0), Err(Error::EmptyImage));
    assert_eq!(matrix_size(u32::MAX, u32::MAX), Err(Error::SizeOverflow));
}
