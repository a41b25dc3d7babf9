use vstd::prelude::*;

use crate::dataset::{is_split, names_of, Dataset, DatasetError, DatasetView};
use crate::table::{all_rows_have_width, rows_of, Table};

verus! {

/// The number of columns of the wine quality table: the features, then the
/// quality score.
pub const WINE_COLUMNS: usize = 12;

/// The number of feature columns, which come first.
pub const WINE_FEATURES: usize = 11;

/// A quality score above this makes a wine good.
pub const GOOD_ABOVE: usize = 6;

/// The share of records, in tenths, that go to training.
pub const TRAIN_TENTHS: u64 = 9;

/// The features of each row: all its cells but the last.
pub open spec fn features_of<T>(rows: Seq<Seq<T>>) -> Seq<Seq<T>> {
    rows.map_values(|r: Seq<T>| r.take(WINE_FEATURES as int))
}

/// The target of each row: its last cell.
pub open spec fn targets_of<T>(rows: Seq<Seq<T>>) -> Seq<T> {
    rows.map_values(|r: Seq<T>| r[WINE_FEATURES as int])
}

/// Splits a table of wine rows into its feature columns and its quality
/// column.
///
/// Fails with `Columns` exactly when the table does not have twelve columns.
pub fn feature_target_split<T>(table: Table<T>) -> (r: Result<(Table<T>, Vec<T>), DatasetError>)
    requires
        table.wf(),
    ensures
        r is Ok <==> table.width_spec() == WINE_COLUMNS,
        r matches Ok((features, targets)) ==> {
            &&& features.wf()
            &&& features.width_spec() == WINE_FEATURES
            &&& features.view().len() == table.view().len()
            &&& targets@.len() == table.view().len()
            &&& features.view() == features_of(table.view())
            &&& targets@ == targets_of(table.view())
        },
        r matches Err(e) ==> e == (DatasetError::Columns {
            expected: WINE_COLUMNS,
            actual: table.width_spec() as usize,
        }),
{
    let width = table.ncols();
    if width != WINE_COLUMNS {
        return Err(DatasetError::Columns { expected: WINE_COLUMNS, actual: width });
    }
    let ghost v = table.view();
    let mut rows = table.into_rows();
    let mut features: Vec<Vec<T>> = Vec::new();
    let mut targets: Vec<T> = Vec::new();
    let ghost n = rows@.len();
    // Rows are taken from the back, so both vectors fill in reverse.
    while rows.len() > 0
        invariant
            rows@.len() + features@.len() == n,
            n == v.len(),
            targets@.len() == features@.len(),
            forall|i: int| 0 <= i < rows@.len() ==> #[trigger] rows@[i]@ == v[i],
            forall|i: int|
                0 <= i < features@.len() ==> #[trigger] features@[i]@ == v[n - 1 - i].take(
                    WINE_FEATURES as int,
                ),
            forall|i: int| 0 <= i < targets@.len() ==> #[trigger] targets@[i] == v[n - 1 - i][WINE_FEATURES as int],
            all_rows_have_width(v, WINE_COLUMNS as nat),
        decreases rows@.len(),
    {
        let ghost k = rows@.len() - 1;
        let mut row = rows.pop().unwrap();
        assert(row@ == v[k]);
        assert(v[k].len() == WINE_COLUMNS);
        let target = row.pop().unwrap();
        assert(row@ =~= v[k].take(WINE_FEATURES as int));
        features.push(row);
        targets.push(target);
    }
    let features = reversed(features);
    let targets = reversed(targets);
    let ghost fv = rows_of(features@);
    assert(fv =~= features_of(v)) by {
        assert forall|i: int| 0 <= i < n implies #[trigger] fv[i] == features_of(v)[i] by {
            assert(fv[i] == features@[i]@);
        }
    }
    assert(targets@ =~= targets_of(v));
    proof {
        assert forall|i: int| 0 <= i < fv.len() implies #[trigger] fv[i].len() == WINE_FEATURES by {
            assert(fv[i] == v[i].take(WINE_FEATURES as int));
        }
    }
    match Table::from_rows_of_width(features, WINE_FEATURES) {
        Some(t) => Ok((t, targets)),
        None => {
            assert(false);
            Err(DatasetError::Columns { expected: WINE_COLUMNS, actual: width })
        },
    }
}

/// The elements of `v` in reverse order.
fn reversed<T>(v: Vec<T>) -> (r: Vec<T>)
    ensures
        r@ == v@.reverse(),
{
    let mut v = v;
    let mut out: Vec<T> = Vec::new();
    let ghost s = v@;
    while v.len() > 0
        invariant
            v@ == s.take(s.len() - out@.len()),
            out@ == s.reverse().take(out@.len() as int),
            out@.len() <= s.len(),
        decreases v@.len(),
    {
        let x = v.pop().unwrap();
        out.push(x);
        assert(out@ =~= s.reverse().take(out@.len() as int));
        assert(v@ =~= s.take(s.len() - out@.len()));
    }
    assert(out@ =~= s.reverse());
    out
}

/// The names of the feature columns, in order.
pub open spec fn wine_feature_name_seq() -> Seq<Seq<char>> {
    seq![
        "fixed acidity"@,
        "volatile acidity"@,
        "citric acid"@,
        "residual sugar"@,
        "chlorides"@,
        "free sulfur dioxide"@,
        "total sulfur dioxide"@,
        "density"@,
        "pH"@,
        "sulphates"@,
        "alcohol"@,
    ]
}

/// The names of the eleven feature columns, in order.
pub fn wine_feature_names() -> (r: Vec<String>)
    ensures
        names_of(r@) == wine_feature_name_seq(),
{
    let r = vec![
        String::from_str("fixed acidity"),
        String::from_str("volatile acidity"),
        String::from_str("citric acid"),
        String::from_str("residual sugar"),
        String::from_str("chlorides"),
        String::from_str("free sulfur dioxide"),
        String::from_str("total sulfur dioxide"),
        String::from_str("density"),
        String::from_str("pH"),
        String::from_str("sulphates"),
        String::from_str("alcohol"),
    ];
    assert(names_of(r@) =~= wine_feature_name_seq());
    r
}

/// Assembles the wine quality dataset from its feature columns and the
/// quality score of each wine, and names the features.
///
/// Fails with `FeatureNames` where the table does not have eleven columns,
/// and with `TargetCount` where there are not as many scores as rows.
pub fn winequality<F>(features: Table<F>, classes: Vec<usize>) -> (r: Result<
    Dataset<F, usize>,
    DatasetError,
>)
    requires
        features.wf(),
    ensures
        r is Ok <==> features.view().len() == classes@.len() && features.width_spec()
            == WINE_FEATURES,
        r matches Ok(d) ==> d.wf() && d@ == (DatasetView {
            records: features.view(),
            targets: classes@,
            feature_names: wine_feature_name_seq(),
            nfeatures: WINE_FEATURES as nat,
        }),
        features.view().len() != classes@.len() ==> r matches Err(DatasetError::TargetCount { .. }),
        features.view().len() == classes@.len() && features.width_spec() != WINE_FEATURES ==> r matches Err(DatasetError::FeatureNames { .. }),
{
    let d = Dataset::new(features, classes)?;
    let names = wine_feature_names();
    assert(names@.len() == names_of(names@).len());
    assert(wine_feature_name_seq().len() == WINE_FEATURES);
    d.with_feature_names(names)
}

/// Whether a wine is good or bad.
#[derive(PartialEq, Eq, Structural, Clone, Copy, Debug)]
pub enum Quality {
    Bad,
    Good,
}

/// The label of a quality score: good above six, else bad.
pub open spec fn quality_of(class: usize) -> Quality {
    if class > GOOD_ABOVE {
        Quality::Good
    } else {
        Quality::Bad
    }
}

impl Quality {
    /// The label as a word.
    pub fn as_str(&self) -> (r: &'static str)
        ensures
            r@ == (if *self == Quality::Good {
                "good"@
            } else {
                "bad"@
            }),
    {
        match self {
            Quality::Good => "good",
            Quality::Bad => "bad",
        }
    }
}

/// The label of a quality score: good above six, else bad.
pub fn quality_label(class: usize) -> (r: Quality)
    ensures
        r == quality_of(class),
        class <= GOOD_ABOVE ==> r == Quality::Bad,
        class > GOOD_ABOVE ==> r == Quality::Good,
{
    if class > GOOD_ABOVE {
        Quality::Good
    } else {
        Quality::Bad
    }
}

/// The labels of a sequence of quality scores.
pub open spec fn qualities_of(classes: Seq<usize>) -> Seq<Quality> {
    classes.map_values(|c: usize| quality_of(c))
}

/// A dataset with each quality score replaced by its label.
pub open spec fn labelled<F>(d: DatasetView<F, usize>) -> DatasetView<F, Quality> {
    DatasetView {
        records: d.records,
        targets: qualities_of(d.targets),
        feature_names: d.feature_names,
        nfeatures: d.nfeatures,
    }
}

/// Replaces each quality score of a dataset by its label; the records and
/// names stay.
pub fn binarize<F>(d: Dataset<F, usize>) -> (r: Dataset<F, Quality>)
    requires
        d.wf(),
    ensures
        r.wf(),
        r@ == labelled(d@),
{
    let classes = d.targets();
    let mut labels: Vec<Quality> = Vec::new();
    let mut i: usize = 0;
    while i < classes.len()
        invariant
            i <= classes@.len(),
            labels@.len() == i,
            forall|j: int| 0 <= j < i ==> #[trigger] labels@[j] == quality_of(classes@[j]),
        decreases classes@.len() - i,
    {
        labels.push(quality_label(classes[i]));
        i = i + 1;
    }
    assert(labels@ =~= qualities_of(d@.targets));
    d.replace_targets(labels)
}

/// Prepares a run on the wine dataset: labels each wine good or bad, then
/// splits the records in order, nine tenths (rounded up) for training and
/// the rest for validation.
pub fn quality_split<F>(d: Dataset<F, usize>) -> (r: (Dataset<F, Quality>, Dataset<F, Quality>))
    requires
        d.wf(),
    ensures
        r.0.wf() && r.1.wf(),
        is_split(labelled(d@), r.0@, r.1@, TRAIN_TENTHS as nat, 10),
{
    binarize(d).split_with_ratio(TRAIN_TENTHS, 10)
}

/// Preparing a run is reproducible: on the same dataset, any two outcomes
/// that `quality_split` allows are the same training and validation sets.
pub proof fn lemma_quality_split_reproducible<F>(
    d: DatasetView<F, usize>,
    train1: DatasetView<F, Quality>,
    valid1: DatasetView<F, Quality>,
    train2: DatasetView<F, Quality>,
    valid2: DatasetView<F, Quality>,
)
    requires
        is_split(labelled(d), train1, valid1, TRAIN_TENTHS as nat, 10),
        is_split(labelled(d), train2, valid2, TRAIN_TENTHS as nat, 10),
    ensures
        train1 == train2,
        valid1 == valid2,
{
}

/// Every record keeps its label through the split: the training labels are
/// those of the first records, the validation labels those of the rest, and
/// a label is good exactly when the score is above six.
pub proof fn lemma_split_labels<F>(
    d: DatasetView<F, usize>,
    train: DatasetView<F, Quality>,
    valid: DatasetView<F, Quality>,
)
    requires
        d.records.len() == d.targets.len(),
        is_split(labelled(d), train, valid, TRAIN_TENTHS as nat, 10),
    ensures
        train.targets.len() + valid.targets.len() == d.targets.len(),
        forall|i: int|
            0 <= i < train.targets.len() ==> (#[trigger] train.targets[i] == Quality::Good
                <==> d.targets[i] > GOOD_ABOVE),
        forall|i: int|
            0 <= i < valid.targets.len() ==> (#[trigger] valid.targets[i] == Quality::Good
                <==> d.targets[train.targets.len() + i] > GOOD_ABOVE),
{
    crate::dataset::lemma_split_partition(labelled(d), train, valid, TRAIN_TENTHS as nat, 10);
}

} // verus!
