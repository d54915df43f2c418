use bucky::array::extent::Extent;
use bucky::array::threshold::{SturgesThreshold, Threshold};

#[test]
fn sturges() {
    let threshold = SturgesThreshold {};

    {
        let domain = vec![1, 2, 3, 4, 5];
        assert_eq!(threshold.threshold(&domain, 0, 0), 4);
    }

    {
        let domain = vec![1, 2, 3];
        assert_eq!(threshold.threshold(&domain, 0, 0), 3);
    }

    {
        let domain = vec![1, 2, 3, 4, 5, 6, 7, 8, 9, 10, 11, 12];
        assert_eq!(threshold.threshold(&domain, 0, 0), 5);
    }
}

#[test]
fn sturges_counts_distinct_values_only() {
    let threshold = SturgesThreshold {};
    let domain = vec![7, 7, 7, 7, 7, 7, 7, 7];
    assert_eq!(threshold.threshold(&domain, 0, 0), 1);
    let empty: Vec<i64> = vec![];
    assert_eq!(threshold.threshold(&empty, 0, 0), 1);
}

#[test]
fn extents_find_the_bounds() {
    let v: Vec<i64> = vec![1, 3, 2];
    let r = v.extents();
    assert_eq!(r.start, 1);
    assert_eq!(r.end, 3);

    let w: Vec<i64> = vec![-5];
    let rw = w.extents();
    assert_eq!(rw.start, -5);
    assert_eq!(rw.end, -5);
}
