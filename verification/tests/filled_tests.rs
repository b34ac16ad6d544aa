use hist::axis::AxisError;
use hist::filled::{Axis, Bin, Fill, Histogram};

// Continuous coordinates are fixed-point ticks, 1000 ticks per
// unit: the edges 0.0, 1.1, 2.4, 3.0 become 0, 1100, 2400, 3000.

#[test]
fn named_axis_from_edges() {
    let axis = Axis::from_edges("variable axis".to_string(), vec![0, 1100, 2400, 3000]);
    assert_eq!(axis.name, "variable axis".to_string());
    assert_eq!(axis.bins.len(), 3);
    assert_eq!(axis.bins[0].bounds, (0, 1100));
    assert_eq!(axis.bins[1].bounds, (1100, 2400));
    assert_eq!(axis.bins[2].bounds, (2400, 3000));
    assert_eq!(axis.bins[0].value, 0);
}

#[test]
fn named_axis_from_uniform() {
    let axis = Axis::from_uniform("uniform axis".to_string(), 0, 3000, 5);
    assert_eq!(axis.bins.len(), 5);
    assert_eq!(axis.bins[0].bounds, (0, 600));
    assert_eq!(axis.bins[4].bounds, (2400, 3000));
}

#[test]
fn named_axis_manual_bins() {
    let axis = Axis::new(
        "manual axis".to_string(),
        vec![Bin::new(0, 1100), Bin::new(1100, 2400), Bin::new(2400, 3000)],
    );
    assert_eq!(axis.bins.len(), 3);
    assert_eq!(axis.bins[1].value, 0);
}

#[test]
fn weighted_fill_accumulates_in_place() {
    let axis = Axis::from_edges("variable axis".to_string(), vec![0, 1100, 2400, 3000]);
    let mut histogram = Histogram::new(axis);

    // weighted_fill(1.5, 1.2) -> 1500 ticks into bin [1100, 2400)
    histogram.weighted_fill(1500, 1200).unwrap();
    // fill(0.7) -> 700 ticks, one unit weight, into bin [0, 1100)
    histogram.fill(700).unwrap();

    assert_eq!(histogram.axis.bins[0].value, 1);
    assert_eq!(histogram.axis.bins[1].value, 1200);
    assert_eq!(histogram.axis.bins[2].value, 0);

    // a second weight lands on top of the first
    histogram.weighted_fill(1500, 100).unwrap();
    assert_eq!(histogram.axis.bins[1].value, 1300);
}

#[test]
fn weighted_fill_rejects_out_of_range() {
    let axis = Axis::from_edges("ax".to_string(), vec![0, 1000, 2000]);
    let mut histogram = Histogram::new(axis);
    assert_eq!(
        histogram.weighted_fill(-1, 5).unwrap_err(),
        AxisError::FailedToFindBinIndex
    );
    assert_eq!(
        histogram.weighted_fill(2000, 5).unwrap_err(),
        AxisError::FailedToFindBinIndex
    );
    // a failed fill changes nothing
    assert_eq!(histogram.axis.bins[0].value, 0);
    assert_eq!(histogram.axis.bins[1].value, 0);
    // boundary fills on either side land in their half-open bins
    histogram.weighted_fill(0, 1).unwrap();
    histogram.weighted_fill(1999, 1).unwrap();
    assert_eq!(histogram.axis.bins[0].value, 1);
    assert_eq!(histogram.axis.bins[1].value, 1);
}
