use fractal_raster::buffer::OutputBuffer;
use fractal_raster::geometry::Dimensions;
use fractal_raster::pixel::Color;

fn buffer(width: u32, height: u32) -> OutputBuffer {
    let dims = Dimensions::new(width, height).expect("both sides are positive");
    OutputBuffer::new(dims).expect("a small image can be allocated")
}

const RED: Color = Color { red: 200, green: 10, blue: 20 };
const BLUE: Color = Color { red: 1, green: 2, blue: 250 };

#[test]
fn new_buffer_is_black() {
    let b = buffer(3, 2);
    for row in 0..2 {
        for column in 0..3 {
            assert_eq!(b.get(column, row), Some(Color::black()));
        }
    }
    assert_eq!(b.into_samples(), vec![0u8; 18]);
}

#[test]
fn buffer_keeps_its_dimensions() {
    let dims = Dimensions::new(3, 2).expect("both sides are positive");
    let b = OutputBuffer::new(dims).expect("a small image can be allocated");
    assert_eq!(b.dims(), dims);
}

#[test]
fn put_writes_one_pixel() {
    let mut b = buffer(3, 2);
    assert!(b.put(2, 1, RED));
    assert_eq!(b.get(2, 1), Some(RED));
    for row in 0..2 {
        for column in 0..3 {
            if (column, row) != (2, 1) {
                assert_eq!(b.get(column, row), Some(Color::black()));
            }
        }
    }
}

#[test]
fn put_overwrites() {
    let mut b = buffer(2, 2);
    assert!(b.put(0, 1, RED));
    assert!(b.put(0, 1, BLUE));
    assert_eq!(b.get(0, 1), Some(BLUE));
}

#[test]
fn put_outside_changes_nothing() {
    let mut b = buffer(3, 2);
    assert!(b.put(1, 1, RED));
    assert!(!b.put(3, 0, BLUE));
    assert!(!b.put(0, 2, BLUE));
    assert!(!b.put(u32::MAX, u32::MAX, BLUE));
    let mut expected = vec![0u8; 18];
    expected[12..15].copy_from_slice(&[200, 10, 20]);
    assert_eq!(b.into_samples(), expected);
}

#[test]
fn get_outside_is_none() {
    let b = buffer(3, 2);
    assert_eq!(b.get(3, 0), None);
    assert_eq!(b.get(0, 2), None);
}

#[test]
fn samples_run_row_by_row() {
    let mut b = buffer(2, 2);
    assert!(b.put(1, 0, RED));
    assert!(b.put(0, 1, BLUE));
    assert_eq!(b.into_samples(), vec![0, 0, 0, 200, 10, 20, 1, 2, 250, 0, 0, 0]);
}

#[test]
fn samples_make_an_image_of_the_same_pixels() {
    let mut b = buffer(3, 2);
    assert!(b.put(2, 0, RED));
    assert!(b.put(0, 1, BLUE));
    let img = image::RgbImage::from_raw(3, 2, b.into_samples()).expect("the samples fill the image");
    assert_eq!(img.get_pixel(2, 0).0, [200, 10, 20]);
    assert_eq!(img.get_pixel(0, 1).0, [1, 2, 250]);
    assert_eq!(img.get_pixel(1, 1).0, [0, 0, 0]);
}

#[test]
fn an_image_too_large_for_a_vector_is_refused() {
    let dims = Dimensions::new(u32::MAX, u32::MAX).expect("both sides are positive");
    assert!(OutputBuffer::new(dims).is_none());
}
