use rgba_bmp::layout::{stored_file_size, stored_row_size};
use rgba_bmp::path::decode_path;
use rgba_bmp::status::Error;

#[test]
fn rows_are_padded_to_four_bytes() {
    assert_eq!(stored_row_size(1), 4);
    assert_eq!(stored_row_size(2), 8);
    assert_eq!(stored_row_size(3), 12);
    assert_eq!(stored_row_size(4), 12);
    assert_eq!(stored_row_size(5), 16);
    assert_eq!(stored_row_size(10), 32);
    assert_eq!(stored_row_size(0), 0);
    assert_eq!(stored_row_size(u32::MAX), 3 * (u32::MAX as u64) + 3);
    for width in 0u32..64 {
        let row = 3 * width as u64;
        let pad = (4 - row % 4) % 4;
        assert_eq!(stored_row_size(width), row + pad);
        assert_eq!(stored_row_size(width) % 4, 0);
    }
}

#[test]
fn file_size_is_headers_plus_padded_rows() {
    assert_eq!(stored_file_size(1, 1), Some(58));
    assert_eq!(stored_file_size(2, 2), Some(70));
    assert_eq!(stored_file_size(10, 10), Some(54 + 32 * 10));
    assert_eq!(stored_file_size(4096, 4096), Some(54 + 12288 * 4096));
    assert_eq!(stored_file_size(7, 0), Some(54));
    assert_eq!(stored_file_size(0, 7), Some(54));
}

#[test]
fn file_size_must_fit_thirty_two_bits() {
    assert_eq!(stored_file_size(40000, 40000), None);
    assert_eq!(stored_file_size(u32::MAX, 1), None);
    assert_eq!(stored_file_size(1, u32::MAX), None);
    assert_eq!(stored_file_size(u32::MAX, u32::MAX), None);
    // The longest single row: 1431655746 pixels, stored in 4294967240 bytes.
    assert_eq!(stored_file_size(1431655746, 1), Some(u32::MAX - 1));
    assert_eq!(stored_file_size(1431655747, 1), None);
}

#[test]
fn path_is_the_text_before_the_first_zero() {
    assert_eq!(decode_path(b"./a.bmp\0"), Ok(String::from("./a.bmp")));
    assert_eq!(decode_path(b"\0"), Ok(String::new()));
    assert_eq!(decode_path(b"one\0two\0"), Ok(String::from("one")));
    assert_eq!(decode_path("ß→🙂\0".as_bytes()), Ok(String::from("ß→🙂")));
}

#[test]
fn path_without_terminator_or_utf8_is_refused() {
    assert_eq!(decode_path(b""), Err(Error::InvalidPath));
    assert_eq!(decode_path(b"./a.bmp"), Err(Error::InvalidPath));
    // A lone continuation byte, an overlong slash, a surrogate, a cut-off
    // sequence.
    assert_eq!(decode_path(&[0x80, 0]), Err(Error::InvalidPath));
    assert_eq!(decode_path(&[0xC0, 0xAF, 0]), Err(Error::InvalidPath));
    assert_eq!(decode_path(&[0xED, 0xA0, 0x80, 0]), Err(Error::InvalidPath));
    assert_eq!(decode_path(&[0xE2, 0x82, 0]), Err(Error::InvalidPath));
}
