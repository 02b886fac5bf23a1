use chromakey::{copy_img, Color, PixelBuffer};
use image::{Rgba, RgbaImage};

fn numbered_bytes(count: usize) -> Vec<u8> {
    (0..count).map(|i| (i % 251) as u8).collect()
}

#[test]
fn new_buffer_is_filled() {
    let fill = Color::new(1, 2, 3, 4);
    let buf = PixelBuffer::new(3, 2, fill);
    assert_eq!(buf.width(), 3);
    assert_eq!(buf.height(), 2);
    for y in 0..2 {
        for x in 0..3 {
            assert_eq!(buf.get(x, y), fill);
        }
    }
    assert_eq!(buf.into_raw(), [1u8, 2, 3, 4].repeat(6));
}

#[test]
fn from_raw_reads_pixels_row_by_row() {
    let buf = PixelBuffer::from_raw(3, 2, numbered_bytes(24)).expect("24 bytes are 3 x 2 pixels");
    assert_eq!(buf.width(), 3);
    assert_eq!(buf.height(), 2);
    assert_eq!(buf.get(0, 0), Color::new(0, 1, 2, 3));
    assert_eq!(buf.get(1, 0), Color::new(4, 5, 6, 7));
    assert_eq!(buf.get(2, 0), Color::new(8, 9, 10, 11));
    assert_eq!(buf.get(0, 1), Color::new(12, 13, 14, 15));
    assert_eq!(buf.get(2, 1), Color::new(20, 21, 22, 23));
}

#[test]
fn from_raw_wants_the_exact_length() {
    assert!(PixelBuffer::from_raw(3, 2, numbered_bytes(24)).is_some());
    assert!(PixelBuffer::from_raw(3, 2, numbered_bytes(23)).is_none());
    assert!(PixelBuffer::from_raw(3, 2, numbered_bytes(25)).is_none());
    assert!(PixelBuffer::from_raw(3, 2, Vec::new()).is_none());
    assert!(PixelBuffer::from_raw(1, 1, numbered_bytes(4)).is_some());
}

#[test]
fn from_raw_refuses_empty_dimensions() {
    assert!(PixelBuffer::from_raw(0, 0, Vec::new()).is_none());
    assert!(PixelBuffer::from_raw(0, 5, Vec::new()).is_none());
    assert!(PixelBuffer::from_raw(5, 0, Vec::new()).is_none());
    assert!(PixelBuffer::from_raw(u32::MAX, 0, Vec::new()).is_none());
    assert!(PixelBuffer::from_raw(u32::MAX, u32::MAX, numbered_bytes(16)).is_none());
}

#[test]
fn into_raw_gives_the_bytes_back() {
    let bytes = numbered_bytes(4 * 5 * 7);
    let buf = PixelBuffer::from_raw(5, 7, bytes.clone()).expect("exact length");
    assert_eq!(buf.into_raw(), bytes);
}

#[test]
fn set_changes_one_pixel_only() {
    let fill = Color::new(9, 9, 9, 9);
    let mut buf = PixelBuffer::new(4, 3, fill);
    let c = Color::new(1, 2, 3, 4);
    buf.set(2, 1, c);
    assert_eq!(buf.width(), 4);
    assert_eq!(buf.height(), 3);
    for y in 0..3 {
        for x in 0..4 {
            let expected = if (x, y) == (2, 1) { c } else { fill };
            assert_eq!(buf.get(x, y), expected);
        }
    }
    let raw = buf.into_raw();
    let at = 4 * (1 * 4 + 2);
    assert_eq!(&raw[at..at + 4], &[1, 2, 3, 4]);
    assert_eq!(raw.iter().filter(|b| **b != 9).count(), 4);
}

#[test]
fn set_then_get_at_the_corners() {
    let mut buf = PixelBuffer::new(3, 2, Color::new(0, 0, 0, 0));
    buf.set(0, 0, Color::new(1, 1, 1, 1));
    buf.set(2, 0, Color::new(2, 2, 2, 2));
    buf.set(0, 1, Color::new(3, 3, 3, 3));
    buf.set(2, 1, Color::new(4, 4, 4, 4));
    assert_eq!(buf.get(0, 0), Color::new(1, 1, 1, 1));
    assert_eq!(buf.get(2, 0), Color::new(2, 2, 2, 2));
    assert_eq!(buf.get(0, 1), Color::new(3, 3, 3, 3));
    assert_eq!(buf.get(2, 1), Color::new(4, 4, 4, 4));
    assert_eq!(buf.get(1, 0), Color::new(0, 0, 0, 0));
    assert_eq!(buf.get(1, 1), Color::new(0, 0, 0, 0));
}

#[test]
fn copy_has_the_same_pixels_and_is_independent() {
    let mut src = PixelBuffer::from_raw(2, 2, numbered_bytes(16)).expect("exact length");
    let mut dst = copy_img(&src);
    assert_eq!(dst.width(), 2);
    assert_eq!(dst.height(), 2);
    for y in 0..2 {
        for x in 0..2 {
            assert_eq!(dst.get(x, y), src.get(x, y));
        }
    }
    dst.set(0, 0, Color::new(99, 99, 99, 99));
    assert_eq!(src.get(0, 0), Color::new(0, 1, 2, 3));
    src.set(1, 1, Color::new(77, 77, 77, 77));
    assert_eq!(dst.get(1, 1), Color::new(12, 13, 14, 15));
    assert_eq!(dst.get(0, 0), Color::new(99, 99, 99, 99));
}

#[test]
fn layout_is_that_of_an_rgba_image() {
    let mut img = RgbaImage::new(3, 2);
    for y in 0..2u32 {
        for x in 0..3u32 {
            let v = (10 * y + x) as u8;
            img.put_pixel(x, y, Rgba([v, v + 100, v + 200, 255 - v]));
        }
    }
    let buf = PixelBuffer::from_raw(3, 2, img.clone().into_raw()).expect("exact length");
    for y in 0..2u32 {
        for x in 0..3u32 {
            let p = img.get_pixel(x, y);
            assert_eq!(buf.get(x, y), Color::new(p.0[0], p.0[1], p.0[2], p.0[3]));
        }
    }

    let mut changed = buf;
    changed.set(1, 1, Color::new(1, 2, 3, 4));
    changed.set(2, 0, Color::new(5, 6, 7, 8));
    let back = RgbaImage::from_raw(3, 2, changed.into_raw()).expect("exact length");
    img.put_pixel(1, 1, Rgba([1, 2, 3, 4]));
    img.put_pixel(2, 0, Rgba([5, 6, 7, 8]));
    assert_eq!(back, img);
}
