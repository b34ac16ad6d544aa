use hist::axis::{Axes, AxisError, AxisIndex};
use hist::bin::{Interval, SingleValue};
use hist::category::Category;
use hist::integer::Integer;
use hist::uniform::Uniform;
use hist::variable::Variable;

#[test]
fn category_test_integer_axis() {
    // ungrowable axis
    let axis = Category::new(vec![
        "foo".to_string(),
        "bar".to_string(),
        "baz".to_string(),
    ])
    .unwrap();
    assert_eq!(axis.num_bins(false), 3);
    assert_eq!(axis.num_bins(true), 4);
    assert_eq!(axis.index("foo".to_string()), 1);
    assert_eq!(axis.index("bar".to_string()), 2);
    assert_eq!(axis.index("baz".to_string()), 3);
    // overflow
    assert_eq!(axis.index("__overflow__".to_string()), 0);
}

#[test]
fn integer_test_integer_axis() {
    // ungrowable axis
    let axis = Integer::new(vec![0, 1, 4, 8, 120]).unwrap();
    assert_eq!(axis.num_bins(false), 5);
    assert_eq!(axis.num_bins(true), 6);
    assert_eq!(axis.index(0), 1);
    assert_eq!(axis.index(1), 2);
    assert_eq!(axis.index(4), 3);
    assert_eq!(axis.index(8), 4);
    assert_eq!(axis.index(120), 5);
    // overflow
    assert_eq!(axis.index(123), 0);
}

// Continuous coordinates are fixed-point ticks, 1000 ticks per
// unit: the range 0.0..1.0 becomes 0..1000 and 0.1 becomes 100.
#[test]
fn test_uniform_axis() {
    let axis = Uniform::new(10, 0, 1000).unwrap();
    assert_eq!(axis.num_bins(false), 10);
    assert_eq!(axis.num_bins(true), 12);
    assert_eq!(axis.index(0), 0);
    assert_eq!(axis.index(100), 1);
    assert_eq!(axis.index(900), 9);
}

#[test]
fn test_variable_axis() {
    let edges: Vec<i64> = vec![0, 1000, 2000, 3000];
    let var = Variable::new(edges).unwrap();

    assert_eq!(var.num_bins(false), 3);
    assert_eq!(var.num_bins(true), 5);

    assert_eq!(var.index(0), 0);
    assert_eq!(var.index(500), 0);
    assert_eq!(var.index(1000), 1);
    assert_eq!(var.index(1500), 1);
    assert_eq!(var.index(2000), 2);
    assert_eq!(var.index(2500), 2);
}

#[test]
fn uniform_boundaries_both_ways() {
    // Uniform(num=10, low=0, high=1000): the lower edge is inclusive,
    // the upper edge exclusive.
    let axis = Uniform::new(10, 0, 1000).unwrap();
    assert_eq!(axis.index(0), 0); // index(L) == 0
    assert_eq!(axis.index(999), 9); // index(H - eps) == n - 1
    assert_eq!(axis.index(1000), 11); // index(H) is already overflow
    assert_eq!(axis.index(1500), 11); // index(v > H) == overflow
    assert_eq!(axis.index(-1), 10); // index(v < L) == underflow
    assert_eq!(axis.underflow(), 10);
    assert_eq!(axis.overflow(), 11);
}

#[test]
fn variable_boundaries_both_ways() {
    let var = Variable::new(vec![0, 1000, 2000, 3000]).unwrap();
    // interior edges index to their own bin; the final edge overflows
    assert_eq!(var.index(0), 0);
    assert_eq!(var.index(1000), 1);
    assert_eq!(var.index(2000), 2);
    assert_eq!(var.index(2999), 2);
    assert_eq!(var.index(3000), 4); // overflow (upper edge exclusive)
    assert_eq!(var.index(-1), 3); // underflow
    assert_eq!(var.underflow(), 3);
    assert_eq!(var.overflow(), 4);
}

#[test]
fn construction_errors() {
    assert_eq!(Uniform::new(0, 0, 1000).unwrap_err(), AxisError::InvalidNumberOfBins);
    assert_eq!(Uniform::new(10, 1000, 1000).unwrap_err(), AxisError::InvalidStepSize);
    assert_eq!(Uniform::new(10, 1000, 0).unwrap_err(), AxisError::InvalidStepSize);
    assert_eq!(Variable::new(vec![0]).unwrap_err(), AxisError::InvalidNumberOfBinEdges);
    assert_eq!(Variable::new(vec![]).unwrap_err(), AxisError::InvalidNumberOfBinEdges);
    assert_eq!(
        Variable::new(vec![3000, 2000, 1000]).unwrap_err(),
        AxisError::FailedToSortBins
    );
    assert_eq!(Variable::new(vec![0, 0]).unwrap_err(), AxisError::FailedToSortBins);
    assert_eq!(Integer::new(vec![]).unwrap_err(), AxisError::InvalidNumberOfBins);
    assert_eq!(Integer::new(vec![2, 1]).unwrap_err(), AxisError::FailedToSortBins);
    assert_eq!(Integer::new(vec![5, 5]).unwrap_err(), AxisError::FailedToSortBins);
    assert_eq!(Category::new(vec![]).unwrap_err(), AxisError::InvalidNumberOfBins);
}

#[test]
fn axis_index_dispatch() {
    let uni = Axes::Uniform(Uniform::new(10, 0, 1000).unwrap());
    let int = Axes::Integer(Integer::new(vec![4, 7]).unwrap());
    let cat = Axes::Category(Category::new(vec!["A".to_string()]).unwrap());

    let r: Result<usize, AxisError> = uni.index(100i64);
    assert_eq!(r.unwrap(), 1);
    let r: Result<usize, AxisError> = int.index(7i32);
    assert_eq!(r.unwrap(), 2);
    let r: Result<usize, AxisError> = cat.index("A".to_string());
    assert_eq!(r.unwrap(), 1);

    // a value type that does not fit the axis kind
    let r: Result<usize, AxisError> = int.index(100i64);
    assert_eq!(r.unwrap_err(), AxisError::InvalidValueType);
    let r: Result<usize, AxisError> = uni.index(7i32);
    assert_eq!(r.unwrap_err(), AxisError::InvalidValueType);
    let r: Result<usize, AxisError> = uni.index("A".to_string());
    assert_eq!(r.unwrap_err(), AxisError::InvalidValueType);
}

#[test]
fn category_growth_keeps_indices() {
    let mut axis = Category::new(vec![
        "A".to_string(),
        "B".to_string(),
        "C".to_string(),
    ])
    .unwrap();
    assert_eq!(axis.index("A".to_string()), 1);
    assert_eq!(axis.index("Z".to_string()), 0); // overflow
    axis.grow("D".to_string());
    assert_eq!(axis.index("A".to_string()), 1); // unchanged
    assert_eq!(axis.index("D".to_string()), 4); // appended
    assert_eq!(axis.num_bins(false), 4);
}

#[test]
fn interval_and_single_value() {
    let iv = Interval::new(10, 30);
    assert_eq!(iv.center(), 20);
    assert_eq!(iv.width(), 20);
    let negative = Interval::new(-30, -10);
    assert_eq!(negative.center(), -20);
    assert_eq!(negative.width(), 20);
    let sv: SingleValue<i64> = SingleValue::new(42);
    assert_eq!(sv.value, 42);
}
