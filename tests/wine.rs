use winequality::dataset::{Dataset, DatasetError};
use winequality::table::Table;
use winequality::wine::{
    binarize, feature_target_split, quality_label, quality_split, wine_feature_names, winequality,
    Quality,
};

fn wine_rows(n: usize) -> Table<u32> {
    let rows: Vec<Vec<u32>> = (0..n as u32)
        .map(|i| (0..12).map(|j| if j == 11 { i % 11 } else { 100 * i + j }).collect())
        .collect();
    Table::from_rows(rows).unwrap()
}

fn classes_dataset(classes: Vec<usize>) -> Dataset<u32, usize> {
    let rows: Vec<Vec<u32>> = (0..classes.len() as u32).map(|i| vec![i; 11]).collect();
    winequality(Table::from_rows_of_width(rows, 11).unwrap(), classes).unwrap()
}

#[test]
fn feature_target_split_shapes() {
    let (features, targets) = feature_target_split(wine_rows(3)).unwrap();
    assert_eq!(features.ncols(), 11);
    assert_eq!(features.nrows(), 3);
    assert_eq!(targets, vec![0, 1, 2]);
    assert_eq!(*features.get(0, 0), 0);
    assert_eq!(*features.get(2, 10), 210);
    assert_eq!(*features.get(1, 4), 104);
}

#[test]
fn feature_target_split_needs_twelve_columns() {
    let t = Table::from_rows(vec![vec![1u8; 11], vec![2u8; 11]]).unwrap();
    assert_eq!(
        feature_target_split(t).err(),
        Some(DatasetError::Columns { expected: 12, actual: 11 })
    );
    let empty: Table<u8> = Table::from_rows(vec![]).unwrap();
    assert!(feature_target_split(empty).is_err());
}

#[test]
fn feature_target_split_of_no_rows() {
    let t = Table::from_rows_of_width(Vec::<Vec<u8>>::new(), 12).unwrap();
    let (features, targets) = feature_target_split(t).unwrap();
    assert_eq!(features.nrows(), 0);
    assert_eq!(features.ncols(), 11);
    assert!(targets.is_empty());
}

#[test]
fn assembly_names_features() {
    let d = classes_dataset(vec![5, 6, 7]);
    assert_eq!(d.nsamples(), 3);
    assert_eq!(d.nfeatures(), 11);
    assert_eq!(d.targets(), &vec![5, 6, 7]);
    let names = d.feature_names();
    assert_eq!(names.len(), 11);
    assert_eq!(names[0], "fixed acidity");
    assert_eq!(names[8], "pH");
    assert_eq!(names[10], "alcohol");
    assert_eq!(wine_feature_names(), *names);
}

#[test]
fn assembly_errors() {
    let features = Table::from_rows_of_width(vec![vec![0u8; 11]; 2], 11).unwrap();
    assert_eq!(
        winequality(features, vec![5]).err(),
        Some(DatasetError::TargetCount { records: 2, targets: 1 })
    );
    let narrow = Table::from_rows_of_width(vec![vec![0u8; 10]; 2], 10).unwrap();
    assert_eq!(
        winequality(narrow, vec![5, 6]).err(),
        Some(DatasetError::FeatureNames { expected: 10, actual: 11 })
    );
}

#[test]
fn with_feature_names_checks_count() {
    let t = Table::from_rows(vec![vec![1u8, 2], vec![3, 4]]).unwrap();
    let d = Dataset::new(t, vec![0usize, 1]).unwrap();
    assert!(d.feature_names().is_empty());
    let r = d.with_feature_names(vec![String::from("x")]);
    assert_eq!(r.err(), Some(DatasetError::FeatureNames { expected: 2, actual: 1 }));
}

#[test]
fn labels_at_the_threshold() {
    for c in 0..=6 {
        assert_eq!(quality_label(c), Quality::Bad);
    }
    for c in 7..=10 {
        assert_eq!(quality_label(c), Quality::Good);
    }
    assert_eq!(quality_label(6), Quality::Bad);
    assert_eq!(quality_label(7), Quality::Good);
    assert_eq!(Quality::Good.as_str(), "good");
    assert_eq!(Quality::Bad.as_str(), "bad");
}

#[test]
fn binarize_keeps_records() {
    let d = binarize(classes_dataset(vec![3, 7, 6, 10]));
    assert_eq!(
        d.targets(),
        &vec![Quality::Bad, Quality::Good, Quality::Bad, Quality::Good]
    );
    assert_eq!(d.nsamples(), 4);
    assert_eq!(d.feature_names().len(), 11);
    assert_eq!(*d.records().get(3, 0), 3);
}

#[test]
fn split_sizes_round_up() {
    let cases: [(usize, u64, u64, usize); 8] = [
        (10, 9, 10, 9),
        (20, 9, 10, 18),
        (1599, 9, 10, 1440),
        (11, 9, 10, 10),
        (1, 9, 10, 1),
        (0, 9, 10, 0),
        (7, 1, 2, 4),
        (5, 0, 3, 0),
    ];
    for (n, numer, denom, k) in cases {
        let d = classes_dataset((0..n).collect());
        let (a, b) = d.split_with_ratio(numer, denom);
        assert_eq!(a.nsamples(), k);
        assert_eq!(b.nsamples(), n - k);
        assert_eq!(a.nsamples() + b.nsamples(), n);
        assert_eq!(*a.targets(), (0..k).collect::<Vec<usize>>());
        assert_eq!(*b.targets(), (k..n).collect::<Vec<usize>>());
    }
}

#[test]
fn split_is_in_order_and_keeps_names() {
    let d = classes_dataset(vec![1, 2, 3, 4, 5]);
    let (a, b) = d.split_with_ratio(3, 5);
    assert_eq!(*a.records().get(2, 0), 2);
    assert_eq!(*b.records().get(0, 0), 3);
    assert_eq!(a.feature_names().len(), 11);
    assert_eq!(b.feature_names().len(), 11);
    assert_eq!(b.nfeatures(), 11);
}

#[test]
fn quality_split_twice_is_the_same() {
    let classes: Vec<usize> = (0..25).map(|i| (i * 7) % 11).collect();
    let (a1, b1) = quality_split(classes_dataset(classes.clone()));
    let (a2, b2) = quality_split(classes_dataset(classes.clone()));
    assert_eq!(a1.targets(), a2.targets());
    assert_eq!(b1.targets(), b2.targets());
    assert_eq!(a1.records().rows(), a2.records().rows());
    assert_eq!(b1.records().rows(), b2.records().rows());
    assert_eq!(a1.nsamples(), 23);
    assert_eq!(b1.nsamples(), 2);
    let expected: Vec<Quality> = classes.iter().map(|c| quality_label(*c)).collect();
    assert_eq!(a1.targets()[..], expected[..23]);
    assert_eq!(b1.targets()[..], expected[23..]);
}
