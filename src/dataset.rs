use vstd::prelude::*;

use crate::table::{all_rows_have_width, Table};

verus! {

/// What a dataset holds: its records row by row, one target per record, and
/// the names of the record columns (empty where none were given).
pub struct DatasetView<F, L> {
    pub records: Seq<Seq<F>>,
    pub targets: Seq<L>,
    pub feature_names: Seq<Seq<char>>,
    pub nfeatures: nat,
}

/// Records with one target each, and optionally a name for each column of
/// the records.
#[derive(Debug)]
pub struct Dataset<F, L> {
    records: Table<F>,
    targets: Vec<L>,
    feature_names: Vec<String>,
}

/// Why parts do not make a dataset.
#[derive(Debug, Clone, Copy, PartialEq, Eq, Structural)]
pub enum DatasetError {
    /// There are `records` records and `targets` targets.
    TargetCount { records: usize, targets: usize },
    /// There are `expected` record columns and `actual` names for them.
    FeatureNames { expected: usize, actual: usize },
    /// The table has `actual` columns where `expected` are needed.
    Columns { expected: usize, actual: usize },
}

/// The views of a vector of strings.
pub open spec fn names_of(names: Seq<String>) -> Seq<Seq<char>> {
    names.map_values(|s: String| s@)
}

/// The number of records that the first part of a split at ratio
/// `numer / denom` keeps out of `n`: the ratio's share, rounded up.
pub open spec fn train_len(n: nat, numer: nat, denom: nat) -> nat
    recommends
        denom > 0,
{
    ((n * numer + denom - 1) / denom as int) as nat
}

/// Whether `first` and `second` are `d` split in order at ratio
/// `numer / denom`: `first` holds the first `train_len` records with their
/// targets, `second` the rest, and both keep the columns and their names.
pub open spec fn is_split<F, L>(
    d: DatasetView<F, L>,
    first: DatasetView<F, L>,
    second: DatasetView<F, L>,
    numer: nat,
    denom: nat,
) -> bool {
    let k = train_len(d.records.len(), numer, denom) as int;
    &&& first == (DatasetView { records: d.records.take(k), targets: d.targets.take(k), ..d })
    &&& second == (DatasetView { records: d.records.skip(k), targets: d.targets.skip(k), ..d })
}

impl<F, L> View for Dataset<F, L> {
    type V = DatasetView<F, L>;

    closed spec fn view(&self) -> DatasetView<F, L> {
        DatasetView {
            records: self.records.view(),
            targets: self.targets@,
            feature_names: names_of(self.feature_names@),
            nfeatures: self.records.width_spec(),
        }
    }
}

impl<F, L> Dataset<F, L> {
    /// Records and targets agree in number, the table is rectangular, and
    /// names, where there are any, are one per column.
    pub open spec fn wf(&self) -> bool {
        &&& all_rows_have_width(self@.records, self@.nfeatures)
        &&& self@.records.len() == self@.targets.len()
        &&& (self@.feature_names.len() == 0 || self@.feature_names.len() == self@.nfeatures)
    }

    /// Pairs records with their targets, without feature names.
    ///
    /// Fails with `TargetCount` exactly when their numbers differ.
    pub fn new(records: Table<F>, targets: Vec<L>) -> (r: Result<Dataset<F, L>, DatasetError>)
        requires
            records.wf(),
        ensures
            r is Ok <==> records.view().len() == targets@.len(),
            r matches Ok(d) ==> d.wf() && d@.records == records.view() && d@.targets == targets@
                && d@.feature_names.len() == 0 && d@.nfeatures == records.width_spec(),
            r matches Err(e) ==> e == (DatasetError::TargetCount {
                records: records.view().len() as usize,
                targets: targets@.len() as usize,
            }),
    {
        if records.nrows() != targets.len() {
            return Err(DatasetError::TargetCount { records: records.nrows(), targets: targets.len() });
        }
        let d = Dataset { records, targets, feature_names: Vec::new() };
        assert(d@.feature_names =~= Seq::<Seq<char>>::empty());
        Ok(d)
    }

    /// Names the columns of the records.
    ///
    /// Fails with `FeatureNames` exactly when the number of names is not the
    /// number of columns.
    pub fn with_feature_names(self, names: Vec<String>) -> (r: Result<
        Dataset<F, L>,
        DatasetError,
    >)
        requires
            self.wf(),
        ensures
            r is Ok <==> names@.len() == self@.nfeatures,
            r matches Ok(d) ==> d.wf() && d@ == (DatasetView {
                feature_names: names_of(names@),
                ..self@
            }),
            r matches Err(e) ==> e == (DatasetError::FeatureNames {
                expected: self@.nfeatures as usize,
                actual: names@.len() as usize,
            }),
    {
        let width = self.records.ncols();
        if names.len() != width {
            return Err(DatasetError::FeatureNames { expected: width, actual: names.len() });
        }
        let d = Dataset { records: self.records, targets: self.targets, feature_names: names };
        Ok(d)
    }

    /// The number of records.
    pub fn nsamples(&self) -> (r: usize)
        ensures
            r == self@.records.len(),
    {
        self.records.nrows()
    }

    /// The number of columns of the records.
    pub fn nfeatures(&self) -> (r: usize)
        ensures
            r == self@.nfeatures,
    {
        self.records.ncols()
    }

    /// The records.
    pub fn records(&self) -> (r: &Table<F>)
        ensures
            r.view() == self@.records,
            r.width_spec() == self@.nfeatures,
    {
        &self.records
    }

    /// The targets, one per record.
    pub fn targets(&self) -> (r: &Vec<L>)
        ensures
            r@ == self@.targets,
    {
        &self.targets
    }

    /// The names of the record columns.
    pub fn feature_names(&self) -> (r: &Vec<String>)
        ensures
            names_of(r@) == self@.feature_names,
    {
        &self.feature_names
    }

    /// Gives up the dataset for its records, targets and feature names.
    pub fn into_parts(self) -> (r: (Table<F>, Vec<L>, Vec<String>))
        requires
            self.wf(),
        ensures
            r.0.wf(),
            r.0.view() == self@.records,
            r.0.width_spec() == self@.nfeatures,
            r.1@ == self@.targets,
            names_of(r.2@) == self@.feature_names,
    {
        (self.records, self.targets, self.feature_names)
    }

    /// The same records and names, with `targets` as the targets.
    pub fn replace_targets<M>(self, targets: Vec<M>) -> (r: Dataset<F, M>)
        requires
            self.wf(),
            targets@.len() == self@.records.len(),
        ensures
            r.wf(),
            r@ == (DatasetView {
                records: self@.records,
                targets: targets@,
                feature_names: self@.feature_names,
                nfeatures: self@.nfeatures,
            }),
    {
        Dataset { records: self.records, targets, feature_names: self.feature_names }
    }

    /// Splits the dataset in two, in order: the first part holds the first
    /// `numer / denom` share of the records, rounded up, the second the rest.
    /// Both keep the feature names.
    pub fn split_with_ratio(self, numer: u64, denom: u64) -> (r: (Dataset<F, L>, Dataset<F, L>))
        requires
            self.wf(),
            0 < denom,
            numer <= denom,
        ensures
            r.0.wf() && r.1.wf(),
            is_split(self@, r.0@, r.1@, numer as nat, denom as nat),
    {
        let n = self.targets.len();
        assert((n as u128) * (numer as u128) <= 0xffff_ffff_ffff_ffffu128 * 0xffff_ffff_ffff_ffffu128)
            by (nonlinear_arith)
            requires
                n <= 0xffff_ffff_ffff_ffffu128,
                numer <= 0xffff_ffff_ffff_ffffu128,
        ;
        let m: u128 = (n as u128) * (numer as u128) + (denom as u128) - 1;
        let q: u128 = m / (denom as u128);
        proof {
            lemma_train_len_at_most(n as nat, numer as nat, denom as nat);
        }
        assert(q == train_len(n as nat, numer as nat, denom as nat));
        let k = q as usize;
        let (records, mut first_targets, names) = self.into_parts();
        let second_targets = first_targets.split_off(k);
        let (first_records, second_records) = records.split_rows(k);
        let second_names = clone_names(&names);
        let a = Dataset { records: first_records, targets: first_targets, feature_names: names };
        let b = Dataset {
            records: second_records,
            targets: second_targets,
            feature_names: second_names,
        };
        (a, b)
    }
}

/// A copy of a vector of strings.
fn clone_names(names: &Vec<String>) -> (r: Vec<String>)
    ensures
        names_of(r@) == names_of(names@),
{
    let mut out: Vec<String> = Vec::new();
    let mut i: usize = 0;
    while i < names.len()
        invariant
            i <= names@.len(),
            out@.len() == i,
            forall|j: int| 0 <= j < i ==> #[trigger] out@[j]@ == names@[j]@,
        decreases names@.len() - i,
    {
        let s = names[i].clone();
        out.push(s);
        i = i + 1;
    }
    assert(names_of(out@) =~= names_of(names@));
    out
}

/// The first part of a split keeps no more records than there are.
pub proof fn lemma_train_len_at_most(n: nat, numer: nat, denom: nat)
    requires
        0 < denom,
        numer <= denom,
    ensures
        train_len(n, numer, denom) <= n,
{
    assert(n * numer <= n * denom) by (nonlinear_arith)
        requires
            numer <= denom,
    ;
    assert((n * numer + denom - 1) / denom as int <= n) by (nonlinear_arith)
        requires
            n * numer <= n * denom,
            0 < denom,
    ;
}

/// The share kept by the first part of a split is the ratio's share rounded
/// up: it covers `n * numer / denom`, and one record fewer would not.
pub proof fn lemma_train_len_is_ceiling(n: nat, numer: nat, denom: nat)
    requires
        0 < denom,
    ensures
        train_len(n, numer, denom) * denom >= n * numer,
        train_len(n, numer, denom) == 0 || (train_len(n, numer, denom) - 1) * denom < n * numer,
{
    let k = train_len(n, numer, denom);
    let m = n * numer;
    assert(k == (m + denom - 1) / denom as int);
    assert(k * denom >= m) by (nonlinear_arith)
        requires
            k == (m + denom - 1) / denom as int,
            0 < denom,
            m >= 0,
    ;
    assert(k == 0 || (k - 1) * denom < m) by (nonlinear_arith)
        requires
            k == (m + denom - 1) / denom as int,
            0 < denom,
            m >= 0,
    ;
}

/// The two parts of a split partition the records: their sizes add up to
/// the whole, the first is the ratio's share rounded up, and the first
/// followed by the second gives back the records and targets.
pub proof fn lemma_split_partition<F, L>(
    d: DatasetView<F, L>,
    first: DatasetView<F, L>,
    second: DatasetView<F, L>,
    numer: nat,
    denom: nat,
)
    requires
        0 < denom,
        numer <= denom,
        d.records.len() == d.targets.len(),
        is_split(d, first, second, numer, denom),
    ensures
        first.records.len() + second.records.len() == d.records.len(),
        first.records.len() == train_len(d.records.len(), numer, denom),
        first.targets.len() == first.records.len(),
        second.targets.len() == second.records.len(),
        first.records + second.records == d.records,
        first.targets + second.targets == d.targets,
{
    lemma_train_len_at_most(d.records.len(), numer, denom);
    let k = train_len(d.records.len(), numer, denom) as int;
    assert(d.records.take(k) + d.records.skip(k) =~= d.records);
    assert(d.targets.take(k) + d.targets.skip(k) =~= d.targets);
}

} // verus!
