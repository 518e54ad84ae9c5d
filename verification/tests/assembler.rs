use fractal_raster::assembler::{ImageAssembler, Phase};
use fractal_raster::fault::FatalError;
use fractal_raster::geometry::Dimensions;
use fractal_raster::pixel::{Color, PixelResult};

fn assembler(width: u32, height: u32) -> ImageAssembler {
    let dims = Dimensions::new(width, height).expect("both sides are positive");
    ImageAssembler::new(dims).expect("a small image can be allocated")
}

fn result(column: u32, row: u32, shade: u8) -> PixelResult {
    PixelResult { column, row, color: Color { red: shade, green: shade, blue: shade } }
}

fn samples(a: ImageAssembler) -> Vec<u8> {
    match a.finish() {
        Ok(buffer) => buffer.into_samples(),
        Err(_) => panic!("the assembler is not done"),
    }
}

#[test]
fn assembler_starts_receiving_with_nothing_counted() {
    let a = assembler(2, 2);
    assert_eq!(a.phase(), Phase::Receiving);
    assert_eq!(a.received(), 0);
    assert_eq!(a.total(), 4);
}

#[test]
fn assembler_is_done_after_exactly_as_many_results_as_pixels() {
    let mut a = assembler(2, 2);
    let mut transitions = 0;
    for (n, (column, row)) in [(0, 0), (1, 0), (0, 1), (1, 1)].into_iter().enumerate() {
        assert_eq!(a.phase(), Phase::Receiving);
        let receipt = a.receive(result(column, row, 9));
        assert!(receipt.counted);
        assert!(receipt.stored);
        assert_eq!(a.received(), n as u64 + 1);
        if receipt.phase == Phase::Done {
            transitions += 1;
            assert_eq!(n, 3);
        }
    }
    assert_eq!(transitions, 1);
    assert_eq!(a.phase(), Phase::Done);
}

#[test]
fn assembler_with_fewer_results_is_not_done() {
    let mut a = assembler(2, 2);
    for _ in 0..3 {
        assert_eq!(a.receive(result(0, 0, 1)).phase, Phase::Receiving);
    }
    assert_eq!(a.phase(), Phase::Receiving);
    assert!(a.finish().is_err());
}

#[test]
fn unfinished_assembler_comes_back_unchanged() {
    let mut a = assembler(2, 1);
    a.receive(result(1, 0, 5));
    let mut back = match a.finish() {
        Ok(_) => panic!("one of two results cannot complete the image"),
        Err(assembler) => assembler,
    };
    assert_eq!(back.received(), 1);
    assert_eq!(back.receive(result(0, 0, 6)).phase, Phase::Done);
    assert_eq!(samples(back), vec![6, 6, 6, 5, 5, 5]);
}

#[test]
fn the_result_that_completes_the_image_is_written() {
    let mut a = assembler(2, 1);
    a.receive(result(0, 0, 10));
    let last = a.receive(result(1, 0, 20));
    assert!(last.stored);
    assert_eq!(last.phase, Phase::Done);
    assert_eq!(samples(a), vec![10, 10, 10, 20, 20, 20]);
}

#[test]
fn a_result_outside_the_image_is_counted_and_not_written() {
    let mut a = assembler(2, 2);
    a.receive(result(1, 1, 7));
    let receipt = a.receive(result(2, 0, 99));
    assert!(receipt.counted);
    assert!(!receipt.stored);
    assert_eq!(a.received(), 2);
    let receipt = a.receive(result(0, 2, 99));
    assert!(!receipt.stored);
    let receipt = a.receive(result(u32::MAX, u32::MAX, 99));
    assert!(!receipt.stored);
    assert_eq!(receipt.phase, Phase::Done);
    assert_eq!(samples(a), vec![0, 0, 0, 0, 0, 0, 0, 0, 0, 7, 7, 7]);
}

#[test]
fn a_done_assembler_ignores_further_results() {
    let mut a = assembler(1, 1);
    assert_eq!(a.receive(result(0, 0, 3)).phase, Phase::Done);
    let receipt = a.receive(result(0, 0, 200));
    assert!(!receipt.counted);
    assert!(!receipt.stored);
    assert!(receipt.progress.is_none());
    assert_eq!(receipt.phase, Phase::Done);
    assert_eq!(a.received(), 1);
    assert_eq!(samples(a), vec![3, 3, 3]);
}

#[test]
fn results_may_arrive_in_any_order() {
    let arrivals = [(1u32, 1u32, 4u8), (0, 0, 1), (1, 0, 2), (0, 1, 3)];
    let mut a = assembler(2, 2);
    for (column, row, shade) in arrivals {
        a.receive(result(column, row, shade));
    }
    assert_eq!(samples(a), vec![1, 1, 1, 2, 2, 2, 3, 3, 3, 4, 4, 4]);
}

#[test]
fn progress_is_reported_at_every_hundredth() {
    let mut a = assembler(20, 10);
    let mut reports = Vec::new();
    for n in 0..200u32 {
        let receipt = a.receive(result(n % 20, n / 20, 1));
        if let Some(report) = receipt.progress {
            assert_eq!(report.total(), 200);
            reports.push((report.received(), report.percent()));
        }
    }
    let expected: Vec<(u64, u64)> = (1..=100u64).map(|k| (2 * k, k)).collect();
    assert_eq!(reports, expected);
}

#[test]
fn a_small_image_reports_no_progress() {
    let mut a = assembler(2, 2);
    for n in 0..4u32 {
        assert!(a.receive(result(n % 2, n / 2, 1)).progress.is_none());
    }
    assert_eq!(a.phase(), Phase::Done);
}

#[test]
fn an_assembler_needs_an_image_that_can_be_allocated() {
    let dims = Dimensions::new(u32::MAX, u32::MAX).expect("both sides are positive");
    assert!(ImageAssembler::new(dims).is_none());
}

#[test]
fn a_closed_channel_is_fatal_only_while_receiving() {
    let mut a = assembler(2, 1);
    assert_eq!(a.on_channel_closed(), Err(FatalError::ChannelClosed));
    a.receive(result(0, 0, 1));
    assert_eq!(a.on_channel_closed(), Err(FatalError::ChannelClosed));
    a.receive(result(1, 0, 1));
    assert_eq!(a.on_channel_closed(), Ok(()));
}
