use rgba_bmp::entry::{write_bmp_from_rgba_matrix, write_status, FileToStore};
use rgba_bmp::image::{Image, Pixel};
use rgba_bmp::status::{status, Error};

fn filled(width: u32, height: u32, color: (u8, u8, u8, u8)) -> Vec<u8> {
    let mut rgba = Vec::with_capacity((width * height * 4) as usize);
    for _ in 0..width * height {
        rgba.push(color.0);
        rgba.push(color.1);
        rgba.push(color.2);
        rgba.push(color.3);
    }
    rgba
}

fn prepared(rgba: &[u8], width: u32, height: u32, path: &[u8]) -> FileToStore {
    write_bmp_from_rgba_matrix(Some(rgba), width, height, Some(path)).unwrap()
}

#[test]
fn create_image() {
    let width = 42;
    let height = 42;
    let color = (255, 0, 255, 0);
    let rgba_flat = filled(width, height, color);

    let file = prepared(&rgba_flat, width, height, b"./image.bmp\0");
    let ret = write_status(true);

    assert_eq!(ret, 0);
    assert_eq!(file.path, "./image.bmp");
    assert_eq!(file.bytes.len(), 54 + (3 * 42 + 2) * 42);
}

#[test]
fn one_magenta_pixel() {
    let file = prepared(&[255, 0, 255, 0], 1, 1, b"./a.bmp\0");
    assert_eq!(write_status(true), 0);
    assert_eq!(file.path, "./a.bmp");
    assert_eq!(file.bytes.len(), 58);
    assert_eq!(&file.bytes[54..58], &[0xFF, 0x00, 0xFF, 0x00]);
}

#[test]
fn one_pixel_file_byte_for_byte() {
    let file = prepared(&[10, 20, 30, 40], 1, 1, b"p\0");
    let expected: Vec<u8> = vec![
        0x42, 0x4D, 58, 0, 0, 0, 0, 0, 0, 0, 54, 0, 0, 0, // file header
        40, 0, 0, 0, 1, 0, 0, 0, 1, 0, 0, 0, 1, 0, 24, 0, // size, width, height, planes, bits
        0, 0, 0, 0, 4, 0, 0, 0, 0, 0, 0, 0, 0, 0, 0, 0, // compression, image size, resolution
        0, 0, 0, 0, 0, 0, 0, 0, // palette
        30, 20, 10, 0, // blue, green, red, padding
    ];
    assert_eq!(file.bytes, expected);
}

#[test]
fn two_by_two_chessboard() {
    let red = [255, 0, 0, 0];
    let green = [0, 255, 0, 0];
    let blue = [0, 0, 255, 0];
    let white = [255, 255, 255, 0];
    let rgba: Vec<u8> = [red, green, blue, white].concat();

    let file = prepared(&rgba, 2, 2, b"board.bmp\0");

    assert_eq!(file.bytes.len(), 70);
    assert_eq!(&file.bytes[2..6], &[70, 0, 0, 0]);
    assert_eq!(&file.bytes[34..38], &[16, 0, 0, 0]);
    // The bottom row, blue and white, is stored first.
    assert_eq!(&file.bytes[54..62], &[255, 0, 0, 255, 255, 255, 0, 0]);
    // Then the top row, red and green.
    assert_eq!(&file.bytes[62..70], &[0, 0, 255, 0, 255, 0, 0, 0]);
}

#[test]
fn file_starts_with_magic_and_little_endian_dimensions() {
    let rgba = filled(258, 3, (1, 2, 3, 4));
    let file = prepared(&rgba, 258, 3, b"wide.bmp\0");
    assert_eq!(&file.bytes[0..2], &[0x42, 0x4D]);
    assert_eq!(&file.bytes[18..22], &[0x02, 0x01, 0x00, 0x00]);
    assert_eq!(&file.bytes[22..26], &[0x03, 0x00, 0x00, 0x00]);
    assert_eq!(&file.bytes[10..14], &[54, 0, 0, 0]);
    assert_eq!(&file.bytes[14..18], &[40, 0, 0, 0]);
    assert_eq!(&file.bytes[26..28], &[1, 0]);
    assert_eq!(&file.bytes[28..30], &[24, 0]);
    assert_eq!(&file.bytes[30..34], &[0, 0, 0, 0]);
    assert_eq!(&file.bytes[38..54], &[0u8; 16]);
}

#[test]
fn file_length_for_each_padding() {
    for (width, height, expected) in [
        (1u32, 1u32, 58usize),
        (2, 2, 70),
        (3, 1, 54 + 12),
        (4, 1, 54 + 12),
        (5, 3, 54 + 16 * 3),
        (10, 10, 54 + 32 * 10),
    ] {
        let rgba = filled(width, height, (9, 8, 7, 6));
        let file = prepared(&rgba, width, height, b"x\0");
        assert_eq!(file.bytes.len(), expected);
        let pad = (4 - (3 * width as usize) % 4) % 4;
        assert_eq!(file.bytes.len(), 54 + (3 * width as usize + pad) * height as usize);
    }
}

#[test]
fn padding_bytes_are_zero() {
    for width in 1u32..9 {
        let height = 3u32;
        let rgba = filled(width, height, (255, 255, 255, 255));
        let file = prepared(&rgba, width, height, b"x\0");
        let row = 3 * width as usize;
        let padded = (row + 3) / 4 * 4;
        for slot in 0..height as usize {
            let start = 54 + slot * padded;
            assert!(file.bytes[start..start + row].iter().all(|b| *b == 255));
            assert!(file.bytes[start + row..start + padded].iter().all(|b| *b == 0));
        }
    }
}

#[test]
fn alpha_is_not_written() {
    let opaque = prepared(&[1, 2, 3, 255, 4, 5, 6, 255], 2, 1, b"x\0");
    let clear = prepared(&[1, 2, 3, 0, 4, 5, 6, 17], 2, 1, b"x\0");
    assert_eq!(opaque.bytes, clear.bytes);
}

#[test]
fn bytes_past_the_matrix_are_not_read() {
    let exact = prepared(&[1, 2, 3, 4], 1, 1, b"x\0");
    let longer = prepared(&[1, 2, 3, 4, 99, 98, 97], 1, 1, b"x\0");
    assert_eq!(exact.bytes, longer.bytes);
}

#[test]
fn null_path() {
    let rgba = [0u8; 4];
    let outcome = write_bmp_from_rgba_matrix(Some(&rgba), 1, 1, None);
    assert_eq!(outcome, Err(Error::NullArgument));
    assert_eq!(Error::NullArgument.code(), -1);
}

#[test]
fn operations_are_found_at_the_crate_root() {
    let file = rgba_bmp::write_bmp_from_rgba_matrix(Some(&[1, 2, 3, 4]), 1, 1, Some(b"a\0"));
    let file = file.unwrap();
    let mut width = 0u32;
    let mut height = 0u32;
    let mut out = [0u8; 4];
    let ret = rgba_bmp::read_bmp_to_rgba_matrix(Some(&file.bytes), &mut width, &mut height, &mut out);
    assert_eq!(ret, 0);
    assert_eq!(out, [1, 2, 3, 255]);
}

#[test]
fn null_matrix() {
    let outcome = write_bmp_from_rgba_matrix(None, 1, 1, Some(b"a.bmp\0"));
    assert_eq!(outcome, Err(Error::NullArgument));
    let outcome = write_bmp_from_rgba_matrix(None, 1, 1, None);
    assert_eq!(outcome, Err(Error::NullArgument));
}

#[test]
fn path_must_be_terminated() {
    let outcome = write_bmp_from_rgba_matrix(Some(&[0u8; 4]), 1, 1, Some(b"a.bmp"));
    assert_eq!(outcome, Err(Error::InvalidPath));
    let outcome = write_bmp_from_rgba_matrix(Some(&[0u8; 4]), 1, 1, Some(b""));
    assert_eq!(outcome, Err(Error::InvalidPath));
}

#[test]
fn path_must_be_utf8() {
    let outcome = write_bmp_from_rgba_matrix(Some(&[0u8; 4]), 1, 1, Some(&[b'a', 0xFF, 0]));
    assert_eq!(outcome, Err(Error::InvalidPath));
    assert_eq!(Error::InvalidPath.code(), -1);
}

#[test]
fn path_ends_at_the_first_zero() {
    let file = prepared(&[0u8; 4], 1, 1, b"a.bmp\0b.bmp\0");
    assert_eq!(file.path, "a.bmp");
    // What follows the terminator is not looked at.
    let file = prepared(&[0u8; 4], 1, 1, &[b'a', 0, 0xFF, 0xFE]);
    assert_eq!(file.path, "a");
}

#[test]
fn path_may_hold_any_utf8_text() {
    let mut buffer = "dossier/été/画像.bmp".as_bytes().to_vec();
    buffer.push(0);
    let file = prepared(&[0u8; 4], 1, 1, &buffer);
    assert_eq!(file.path, "dossier/été/画像.bmp");
}

#[test]
fn zero_dimensions_are_refused() {
    let rgba = [0u8; 16];
    for (width, height) in [(0u32, 1u32), (1, 0), (0, 0)] {
        let outcome = write_bmp_from_rgba_matrix(Some(&rgba), width, height, Some(b"a\0"));
        assert_eq!(outcome, Err(Error::EmptyImage));
    }
    assert_eq!(Error::EmptyImage.code(), -1);
}

#[test]
fn short_matrix_is_refused() {
    let rgba = [0u8; 15];
    let outcome = write_bmp_from_rgba_matrix(Some(&rgba), 2, 2, Some(b"a\0"));
    assert_eq!(outcome, Err(Error::ShortMatrix));
    assert_eq!(Error::ShortMatrix.code(), -1);
}

#[test]
fn oversized_dimensions_are_refused() {
    let rgba = [0u8; 16];
    let outcome = write_bmp_from_rgba_matrix(Some(&rgba), u32::MAX, u32::MAX, Some(b"a\0"));
    assert_eq!(outcome, Err(Error::SizeOverflow));
    assert_eq!(Error::SizeOverflow.code(), -1);
}

#[test]
fn path_is_checked_before_the_matrix() {
    let outcome = write_bmp_from_rgba_matrix(Some(&[0u8; 4]), 0, 0, Some(b"unterminated"));
    assert_eq!(outcome, Err(Error::InvalidPath));
}

#[test]
fn file_system_failure_is_minus_one() {
    assert_eq!(write_status(false), -1);
    assert_eq!(write_status(true), 0);
    assert_eq!(status(Err(Error::FileSystem)), -1);
    assert_eq!(status(Ok(())), 0);
    assert_eq!(status(Err(Error::BufferTooSmall)), -2);
}

#[test]
fn encode_stores_rows_bottom_up() {
    let mut image = Image::new(1, 2).unwrap();
    image.set_pixel(0, 0, Pixel { r: 1, g: 2, b: 3 });
    image.set_pixel(0, 1, Pixel { r: 4, g: 5, b: 6 });
    let bytes = image.encode().unwrap();
    assert_eq!(bytes.len(), 62);
    assert_eq!(&bytes[54..58], &[6, 5, 4, 0]);
    assert_eq!(&bytes[58..62], &[3, 2, 1, 0]);
}
