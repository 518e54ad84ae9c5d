use fractal_raster::geometry::{Coordinate, Dimensions};

fn dims(width: u32, height: u32) -> Dimensions {
    Dimensions::new(width, height).expect("both sides are positive")
}

#[test]
fn dimensions_reject_a_zero_side() {
    assert!(Dimensions::new(0, 4).is_none());
    assert!(Dimensions::new(4, 0).is_none());
    assert!(Dimensions::new(0, 0).is_none());
    assert!(Dimensions::new(1, 1).is_some());
}

#[test]
fn dimensions_keep_their_sides() {
    let d = dims(640, 480);
    assert_eq!(d.width(), 640);
    assert_eq!(d.height(), 480);
    assert_eq!(d.pixel_count(), 307_200);
}

#[test]
fn pixel_count_of_the_largest_image_fits() {
    let d = dims(u32::MAX, u32::MAX);
    assert_eq!(d.pixel_count(), 18_446_744_065_119_617_025);
}

#[test]
fn locate_on_a_two_by_two_image() {
    let d = dims(2, 2);
    assert_eq!(d.locate(0), Coordinate { column: 0, row: 0 });
    assert_eq!(d.locate(1), Coordinate { column: 0, row: 1 });
    assert_eq!(d.locate(2), Coordinate { column: 1, row: 0 });
    assert_eq!(d.locate(3), Coordinate { column: 1, row: 1 });
}

#[test]
fn locate_divides_by_width_and_reduces_by_height() {
    let d = dims(5, 3);
    for index in 0..d.pixel_count() {
        let at = d.locate(index);
        assert_eq!(u64::from(at.column), index / 5);
        assert_eq!(u64::from(at.row), index % 3);
    }
}

#[test]
fn locate_on_a_wide_image_hits_coordinates_twice() {
    let d = dims(4, 2);
    assert_eq!(d.locate(0), Coordinate { column: 0, row: 0 });
    assert_eq!(d.locate(2), Coordinate { column: 0, row: 0 });
    assert_eq!(d.locate(5), Coordinate { column: 1, row: 1 });
    assert_eq!(d.locate(7), Coordinate { column: 1, row: 1 });
}

#[test]
fn locate_on_a_tall_image_leaves_the_image() {
    let d = dims(2, 4);
    assert_eq!(d.locate(3), Coordinate { column: 1, row: 3 });
    assert_eq!(d.locate(4), Coordinate { column: 2, row: 0 });
    assert_eq!(d.locate(7), Coordinate { column: 3, row: 3 });
    assert!(d.contains(1, 3));
    assert!(!d.contains(2, 0));
    assert!(!d.contains(3, 3));
}

#[test]
fn contains_is_the_half_open_rectangle() {
    let d = dims(3, 2);
    assert!(d.contains(0, 0));
    assert!(d.contains(2, 1));
    assert!(!d.contains(3, 1));
    assert!(!d.contains(2, 2));
    assert!(!d.contains(u32::MAX, u32::MAX));
}

#[test]
fn locate_on_a_square_image_hits_every_pixel_once() {
    for side in 1..=9u32 {
        let d = dims(side, side);
        let mut hits = vec![0u32; (side * side) as usize];
        for index in 0..d.pixel_count() {
            let at = d.locate(index);
            assert!(d.contains(at.column, at.row));
            hits[(at.row * side + at.column) as usize] += 1;
        }
        assert!(hits.iter().all(|&n| n == 1));
    }
}
