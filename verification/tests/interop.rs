use rgba_bmp::image::{Image, Pixel};

fn sample(width: u32, height: u32) -> Image {
    let mut image = Image::new(width, height).unwrap();
    for y in 0..height {
        for x in 0..width {
            let pixel = Pixel { r: (x * 40) as u8, g: (y * 60) as u8, b: (x + y) as u8 };
            image.set_pixel(x, y, pixel);
        }
    }
    image
}

#[test]
fn files_are_read_by_the_bmp_crate() {
    for (width, height) in [(1u32, 1u32), (2, 2), (3, 5), (4, 3), (5, 2)] {
        let image = sample(width, height);
        let file = image.encode().unwrap();
        let other = bmp::from_reader(&mut &file[..]).unwrap();
        assert_eq!(other.get_width(), width);
        assert_eq!(other.get_height(), height);
        for y in 0..height {
            for x in 0..width {
                let ours = image.get_pixel(x, y);
                let theirs = other.get_pixel(x, y);
                assert_eq!((ours.r, ours.g, ours.b), (theirs.r, theirs.g, theirs.b));
            }
        }
    }
}

#[test]
fn files_of_the_bmp_crate_are_read() {
    for (width, height) in [(1u32, 1u32), (2, 2), (3, 5), (4, 3), (5, 2)] {
        let image = sample(width, height);
        let mut other = bmp::Image::new(width, height);
        for y in 0..height {
            for x in 0..width {
                let pixel = image.get_pixel(x, y);
                other.set_pixel(x, y, bmp::Pixel::new(pixel.r, pixel.g, pixel.b));
            }
        }
        let mut file: Vec<u8> = Vec::new();
        other.to_writer(&mut file).unwrap();
        assert_eq!(Image::decode(&file).unwrap(), image);
    }
}

#[test]
fn files_differ_from_those_of_the_bmp_crate_in_the_resolution_only() {
    for (width, height) in [(1u32, 1u32), (2, 2), (3, 5), (4, 3)] {
        let image = sample(width, height);
        let ours = image.encode().unwrap();
        let mut other = bmp::Image::new(width, height);
        for y in 0..height {
            for x in 0..width {
                let pixel = image.get_pixel(x, y);
                other.set_pixel(x, y, bmp::Pixel::new(pixel.r, pixel.g, pixel.b));
            }
        }
        let mut theirs: Vec<u8> = Vec::new();
        other.to_writer(&mut theirs).unwrap();
        assert_eq!(ours.len(), theirs.len());
        for at in 0..ours.len() {
            if (38..46).contains(&at) {
                assert_eq!(ours[at], 0);
            } else {
                assert_eq!(ours[at], theirs[at]);
            }
        }
    }
}
