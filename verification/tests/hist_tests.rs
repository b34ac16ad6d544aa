use hist::axis::Axes;
use hist::category::Category;
use hist::hashmaphist::HashMapHist;
use hist::hist::{HistError, Histogram};
use hist::sparsehist::SparseHist;
use hist::storage::{Storage, StorageType};
use hist::uniform::Uniform;
use hist::vechist::VecHist;

// Continuous coordinates are fixed-point ticks, 1000 ticks per
// unit: the range 0.0..10.0 becomes 0..10000; weights count in
// whole units.

#[test]
fn test_vechist() {
    let uniform = Uniform::new(10, 0, 10000).unwrap();
    let cat = Category::new(vec![
        "A".to_string(),
        "B".to_string(),
        "C".to_string(),
        "D".to_string(),
        "E".to_string(),
    ])
    .unwrap();

    let axes = vec![Axes::Uniform(uniform), Axes::Category(cat.clone())];
    let mut hist = VecHist::new(axes, StorageType::Double);
    assert_eq!(hist.get_axes().len(), 2);
    assert_eq!(hist.num_bins(false), 50);
    assert_eq!(hist.num_bins(true), 72);

    // Fill the histogram
    let uniform = Uniform::new(10, 0, 10000).unwrap();
    let where2fill = vec![uniform.index(0), cat.index("A".to_string())];
    hist.fill(&where2fill, 1).unwrap();

    assert_eq!(hist.num_bins(false), 50);
    assert_eq!(hist.num_bins(true), 72);
    assert_eq!(hist.get_bin(0), Storage::Double(0));

    // Check the bin
    assert_eq!(
        hist.get_bin(hist.stride_index(&where2fill).unwrap()),
        Storage::Double(1)
    );
}

#[test]
fn test_hashmaphist() {
    let axis1 = Uniform::new(10, 0, 10000).unwrap();
    let axis2 = Uniform::new(10, 0, 10000).unwrap();

    let axes = vec![Axes::Uniform(axis1.clone()), Axes::Uniform(axis2.clone())];
    let mut hist = HashMapHist::new(axes, StorageType::Double);
    assert_eq!(hist.data.len(), 0);

    let where2fill = vec![axis1.index(500), axis2.index(500)];
    hist.fill(&where2fill, 1).unwrap();
    assert_eq!(hist.data.len(), 1);

    assert_eq!(hist.get_bin(0), Storage::Double(1));
    assert_eq!(hist.get_bin(1), Storage::Double(0));
}

#[test]
fn test_sparsehist() {
    let axis1 = Uniform::new(10, 0, 10000).unwrap();
    let axis2 = Uniform::new(10, 0, 10000).unwrap();

    let axes = vec![Axes::Uniform(axis1.clone()), Axes::Uniform(axis2.clone())];

    let mut hist = SparseHist::new(axes, StorageType::Double);
    assert_eq!(hist.data.len(), 0);
    assert_eq!(hist.data_indices.len(), 0);

    let where2fill = vec![axis1.index(500), axis2.index(500)];
    hist.fill(&where2fill, 1).unwrap();
    assert_eq!(hist.data.len(), 1);
    assert_eq!(hist.data_indices.len(), 1);

    assert_eq!(hist.get_bin(hist.data_indices[0]), Storage::Double(1));
}

fn two_uniform_axes() -> Vec<Axes> {
    vec![
        Axes::Uniform(Uniform::new(10, 0, 10000).unwrap()),
        Axes::Uniform(Uniform::new(10, 0, 10000).unwrap()),
    ]
}

#[test]
fn unfilled_bins_read_identity() {
    // every address of a fresh histogram reads the storage kind's zero
    let dense = VecHist::new(two_uniform_axes(), StorageType::Double);
    let map = HashMapHist::new(two_uniform_axes(), StorageType::Int);
    let sparse = SparseHist::new(two_uniform_axes(), StorageType::Weight);
    let total = dense.num_bins(true);
    for i in 0..total {
        assert_eq!(dense.get_bin(i), Storage::Double(0));
        assert_eq!(map.get_bin(i), Storage::Int(0));
        assert_eq!(sparse.get_bin(i), Storage::Weight(0, 0));
    }
    // reads beyond the last bin still yield the identity, never fail
    assert_eq!(dense.get_bin(total + 7), Storage::Double(0));
}

#[test]
fn reads_untouched_by_other_fills() {
    // a fill of one bin leaves every other bin reading zero
    let mut hist = VecHist::new(two_uniform_axes(), StorageType::Double);
    let target = hist.stride_index(&vec![3, 4]).unwrap();
    hist.fill(&vec![3, 4], 5).unwrap();
    for i in 0..hist.num_bins(true) {
        if i != target {
            assert_eq!(hist.get_bin(i), Storage::Double(0));
        } else {
            assert_eq!(hist.get_bin(i), Storage::Double(5));
        }
    }
}

#[test]
fn fill_order_does_not_matter() {
    // distinct bins
    let mut h1 = SparseHist::new(two_uniform_axes(), StorageType::Double);
    let mut h2 = SparseHist::new(two_uniform_axes(), StorageType::Double);
    h1.fill(&vec![1, 2], 10).unwrap();
    h1.fill(&vec![3, 4], 20).unwrap();
    h2.fill(&vec![3, 4], 20).unwrap();
    h2.fill(&vec![1, 2], 10).unwrap();
    for i in 0..h1.num_bins(true) {
        assert_eq!(h1.get_bin(i), h2.get_bin(i));
    }
    // the same bin: the total is the algebraic sum either way
    let mut h3 = HashMapHist::new(two_uniform_axes(), StorageType::Weight);
    let mut h4 = HashMapHist::new(two_uniform_axes(), StorageType::Weight);
    h3.fill(&vec![5, 5], 2).unwrap();
    h3.fill(&vec![5, 5], 3).unwrap();
    h4.fill(&vec![5, 5], 3).unwrap();
    h4.fill(&vec![5, 5], 2).unwrap();
    let flat = h3.stride_index(&vec![5, 5]).unwrap();
    assert_eq!(h3.get_bin(flat), Storage::Weight(5, 13));
    assert_eq!(h4.get_bin(flat), Storage::Weight(5, 13));
}

#[test]
fn backend_equivalence() {
    // the same axes, storage kind and fill sequence give identical
    // reads at every address, whichever backend holds the data
    let mut dense = VecHist::new(two_uniform_axes(), StorageType::Int);
    let mut map = HashMapHist::new(two_uniform_axes(), StorageType::Int);
    let mut sparse = SparseHist::new(two_uniform_axes(), StorageType::Int);
    let fills: Vec<(Vec<usize>, i64)> = vec![
        (vec![0, 0], 1),
        (vec![1, 2], 3),
        (vec![0, 0], 2),
        (vec![11, 11], 7),
        (vec![10, 0], -4),
    ];
    for (indices, w) in fills {
        dense.fill(&indices, w).unwrap();
        map.fill(&indices, w).unwrap();
        sparse.fill(&indices, w).unwrap();
    }
    for i in 0..dense.num_bins(true) {
        assert_eq!(dense.get_bin(i), map.get_bin(i));
        assert_eq!(dense.get_bin(i), sparse.get_bin(i));
    }
}

#[test]
fn stride_bijection_two_axes() {
    // flow-inclusive sizes (12, 12): the 144 index pairs produce 144
    // pairwise distinct flat addresses covering exactly 0..144
    let hist = VecHist::new(two_uniform_axes(), StorageType::Double);
    let m = 12usize;
    let n = 12usize;
    let mut seen = vec![false; m * n];
    for i in 0..m {
        for j in 0..n {
            let flat = hist.stride_index(&vec![i, j]).unwrap();
            assert!(flat < m * n);
            assert!(!seen[flat]);
            seen[flat] = true;
        }
    }
    assert!(seen.iter().all(|&s| s));
}

#[test]
fn two_dim_fill_scenario() {
    // Uniform(10 bins over 0.0..10.0) x Uniform(10 bins over
    // 0.0..10.0), Double storage
    let ax = Uniform::new(10, 0, 10000).unwrap();
    let mut hist = VecHist::new(two_uniform_axes(), StorageType::Double);

    // fill([0.0, 0.0], 1.0)
    let idx = vec![ax.index(0), ax.index(0)];
    hist.fill(&idx, 1).unwrap();
    let origin = hist.stride_index(&vec![0, 0]).unwrap();
    assert_eq!(hist.get_bin(origin), Storage::Double(1));

    // fill([-5.0, 0.0], 1.0) goes to the underflow row, not bin 0
    let idx2 = vec![ax.index(-5000), ax.index(0)];
    assert_eq!(idx2[0], ax.underflow());
    hist.fill(&idx2, 1).unwrap();
    assert_eq!(hist.get_bin(origin), Storage::Double(1)); // unchanged
    let under = hist.stride_index(&vec![ax.underflow(), 0]).unwrap();
    assert_eq!(hist.get_bin(under), Storage::Double(1));
}

#[test]
fn fill_arity_mismatch() {
    let mut hist = VecHist::new(two_uniform_axes(), StorageType::Double);
    let r = hist.fill(&vec![1], 1);
    assert_eq!(
        r.unwrap_err(),
        HistError::AxesValuesMismatch { nvalues: 1, naxes: 2 }
    );
    let r = hist.stride_index(&vec![1, 2, 3]);
    assert_eq!(
        r.unwrap_err(),
        HistError::AxesValuesMismatch { nvalues: 3, naxes: 2 }
    );
    // nothing was accumulated
    for i in 0..hist.num_bins(true) {
        assert_eq!(hist.get_bin(i), Storage::Double(0));
    }
}

#[test]
fn fill_n_applies_all() {
    let mut hist = HashMapHist::new(two_uniform_axes(), StorageType::Double);
    let values = vec![vec![0usize, 0], vec![1, 1], vec![0, 0]];
    let weights = vec![2i64, 3, 4];
    hist.fill_n(&values, &weights).unwrap();
    let a = hist.stride_index(&vec![0, 0]).unwrap();
    let b = hist.stride_index(&vec![1, 1]).unwrap();
    assert_eq!(hist.get_bin(a), Storage::Double(6));
    assert_eq!(hist.get_bin(b), Storage::Double(3));
}

#[test]
fn fill_n_is_fail_fast_best_effort() {
    // the first arity mismatch stops the sequence, keeping what was
    // accumulated before it
    let mut hist = VecHist::new(two_uniform_axes(), StorageType::Int);
    let values = vec![vec![0usize, 0], vec![7usize], vec![1, 1]];
    let weights = vec![5i64, 5, 5];
    let r = hist.fill_n(&values, &weights);
    assert_eq!(
        r.unwrap_err(),
        HistError::AxesValuesMismatch { nvalues: 1, naxes: 2 }
    );
    let a = hist.stride_index(&vec![0, 0]).unwrap();
    let b = hist.stride_index(&vec![1, 1]).unwrap();
    assert_eq!(hist.get_bin(a), Storage::Int(5)); // applied
    assert_eq!(hist.get_bin(b), Storage::Int(0)); // never reached
}

#[test]
fn fill_n_pairs_up_to_shorter() {
    // values and weights pair up to the shorter of the two sequences
    let mut hist = VecHist::new(two_uniform_axes(), StorageType::Int);
    let values = vec![vec![0usize, 0], vec![1, 1], vec![2, 2]];
    let weights = vec![1i64, 1];
    hist.fill_n(&values, &weights).unwrap();
    let c = hist.stride_index(&vec![2, 2]).unwrap();
    assert_eq!(hist.get_bin(c), Storage::Int(0));
}

#[test]
fn storage_accumulation_algebra() {
    assert_eq!(Storage::Double(2).add(Storage::Double(3)), Storage::Double(5));
    assert_eq!(Storage::Int(-2).add(Storage::Int(3)), Storage::Int(1));
    assert_eq!(
        Storage::Weight(2, 4).add(Storage::Weight(3, 9)),
        Storage::Weight(5, 13)
    );
    let mut c = Storage::Weight(1, 1);
    c.add_assign(Storage::Weight(2, 4));
    assert_eq!(c, Storage::Weight(3, 5));
    assert_eq!(StorageType::Double.zero(), Storage::Double(0));
    assert_eq!(StorageType::Int.zero(), Storage::Int(0));
    assert_eq!(StorageType::Weight.zero(), Storage::Weight(0, 0));
    // one observation of weight w contributes (w, w * w) to a
    // weighted cell
    assert_eq!(StorageType::Weight.delta(3), Storage::Weight(3, 9));
}

#[test]
fn weighted_storage_tracks_squares() {
    let mut hist = SparseHist::new(two_uniform_axes(), StorageType::Weight);
    hist.fill(&vec![4, 4], 2).unwrap();
    hist.fill(&vec![4, 4], 5).unwrap();
    let flat = hist.stride_index(&vec![4, 4]).unwrap();
    assert_eq!(hist.get_bin(flat), Storage::Weight(7, 29));
}
