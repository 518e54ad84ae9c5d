use fractal_raster::escape::{escape_color, shade, Classification, IterationCount, MAX_ITERATIONS};
use fractal_raster::pixel::Color;

fn count(steps: u32) -> IterationCount {
    IterationCount::new(steps).expect("the count is at most the ceiling")
}

#[test]
fn ceiling_is_five_hundred_and_eleven() {
    assert_eq!(MAX_ITERATIONS, 511);
}

#[test]
fn iteration_count_stays_within_the_ceiling() {
    assert!(IterationCount::new(0).is_some());
    assert!(IterationCount::new(511).is_some());
    assert!(IterationCount::new(512).is_none());
    assert!(IterationCount::new(u32::MAX).is_none());
    assert_eq!(count(300).value(), 300);
}

#[test]
fn iteration_count_advances_to_the_ceiling_and_stops() {
    let mut n = IterationCount::zero();
    assert_eq!(n.value(), 0);
    assert!(!n.at_ceiling());
    let mut steps = 0u32;
    while !n.at_ceiling() {
        n = n.advance();
        steps += 1;
        assert_eq!(n.value(), steps);
    }
    assert_eq!(steps, 511);
    assert_eq!(n.advance().value(), 511);
}

#[test]
fn escape_color_of_known_counts() {
    assert_eq!(escape_color(count(0)), Color { red: 0, green: 0, blue: 0 });
    assert_eq!(escape_color(count(2)), Color { red: 0, green: 0, blue: 2 });
    assert_eq!(escape_color(count(5)), Color { red: 0, green: 1, blue: 5 });
    assert_eq!(escape_color(count(255)), Color { red: 0, green: 63, blue: 255 });
    assert_eq!(escape_color(count(256)), Color { red: 0, green: 64, blue: 0 });
    assert_eq!(escape_color(count(300)), Color { red: 0, green: 75, blue: 44 });
    assert_eq!(escape_color(count(511)), Color { red: 0, green: 127, blue: 255 });
}

#[test]
fn escape_color_follows_the_bit_layout_for_every_count() {
    for steps in 0..=MAX_ITERATIONS {
        let c = escape_color(count(steps));
        assert_eq!(c.red, 0);
        assert_eq!(u32::from(c.green), (steps >> 2) & 0xFF);
        assert_eq!(u32::from(c.blue), steps & 0xFF);
        assert!(c.green <= 127);
    }
}

#[test]
fn shade_of_background_is_white() {
    assert_eq!(shade(Classification::Background), Color { red: 255, green: 255, blue: 255 });
    assert_eq!(shade(Classification::Background), Color::white());
}

#[test]
fn shade_of_an_iterated_point_is_its_escape_color() {
    assert_eq!(
        shade(Classification::Iterated(count(511))),
        Color { red: 0, green: 127, blue: 255 }
    );
    assert_eq!(shade(Classification::Iterated(count(0))), Color::black());
}
