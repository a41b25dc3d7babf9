use vstd::prelude::*;

verus! {

/// A rectangular table of values, stored row by row.
///
/// Every row holds the same number of cells, `width`.
#[derive(Debug)]
pub struct Table<T> {
    rows: Vec<Vec<T>>,
    width: usize,
}

/// The rows of a vector of rows, each as a sequence.
pub open spec fn rows_of<T>(rows: Seq<Vec<T>>) -> Seq<Seq<T>> {
    rows.map_values(|r: Vec<T>| r@)
}

/// Whether every row of `rows` has `width` cells.
pub open spec fn all_rows_have_width<T>(rows: Seq<Seq<T>>, width: nat) -> bool {
    forall|i: int| 0 <= i < rows.len() ==> #[trigger] rows[i].len() == width
}

/// The first row, counted from 0, whose length differs from that of row 0.
pub open spec fn is_first_ragged_row<T>(rows: Seq<Seq<T>>, k: int) -> bool {
    &&& 0 < k < rows.len()
    &&& rows[k].len() != rows[0].len()
    &&& forall|i: int| 0 <= i < k ==> #[trigger] rows[i].len() == rows[0].len()
}

/// Whether all rows have the length of the first one.
pub open spec fn is_rectangular<T>(rows: Seq<Seq<T>>) -> bool {
    rows.len() == 0 || all_rows_have_width(rows, rows[0].len())
}

/// Why a sequence of rows does not make a table: the row at `at_row_index`
/// has `actual` cells where the rows before it have `expected`.
#[derive(Debug, Clone, Copy, PartialEq, Eq, Structural)]
pub struct RaggedRow {
    pub at_row_index: usize,
    pub expected: usize,
    pub actual: usize,
}

impl<T> Table<T> {
    /// The cells, row by row.
    pub closed spec fn view(&self) -> Seq<Seq<T>> {
        rows_of(self.rows@)
    }

    /// The number of cells in each row.
    pub closed spec fn width_spec(&self) -> nat {
        self.width as nat
    }

    /// Every row has `width_spec()` cells.
    pub open spec fn wf(&self) -> bool {
        all_rows_have_width(self.view(), self.width_spec())
    }

    /// Builds a table from its rows.
    ///
    /// Fails at the first row whose length differs from that of the first
    /// row. A table without rows has width 0.
    pub fn from_rows(rows: Vec<Vec<T>>) -> (r: Result<Table<T>, RaggedRow>)
        ensures
            is_rectangular(rows_of(rows@)) <==> r is Ok,
            r matches Ok(t) ==> t.wf() && t.view() == rows_of(rows@) && t.width_spec() == (
            if rows@.len() == 0 {
                0
            } else {
                rows@[0]@.len()
            }),
            r matches Err(e) ==> is_first_ragged_row(rows_of(rows@), e.at_row_index as int)
                && e.expected == rows@[0]@.len() && e.actual == rows@[e.at_row_index as int]@.len(),
    {
        if rows.len() == 0 {
            let t = Table { rows, width: 0 };
            assert(t.view() =~= Seq::<Seq<T>>::empty());
            return Ok(t);
        }
        let width = rows[0].len();
        let mut i: usize = 1;
        while i < rows.len()
            invariant
                1 <= i <= rows@.len(),
                width == rows@[0]@.len(),
                forall|j: int| 0 <= j < i ==> #[trigger] rows@[j]@.len() == width,
            decreases rows@.len() - i,
        {
            if rows[i].len() != width {
                let e = RaggedRow { at_row_index: i, expected: width, actual: rows[i].len() };
                proof {
                    let v = rows_of(rows@);
                    assert(v[0].len() == width);
                    assert(v[i as int].len() != v[0].len());
                    assert(!all_rows_have_width(v, v[0].len()));
                    assert forall|j: int| 0 <= j < i implies #[trigger] v[j].len() == v[0].len() by {
                        assert(rows@[j]@.len() == width);
                    }
                }
                return Err(e);
            }
            i = i + 1;
        }
        let t = Table { rows, width };
        proof {
            let v = rows_of(t.rows@);
            assert forall|j: int| 0 <= j < v.len() implies #[trigger] v[j].len() == width by {
                assert(t.rows@[j]@.len() == width);
            }
        }
        Ok(t)
    }

    /// Builds a table of `width` columns from its rows, or `None` where a
    /// row has another length.
    pub fn from_rows_of_width(rows: Vec<Vec<T>>, width: usize) -> (r: Option<Table<T>>)
        ensures
            r is Some <==> all_rows_have_width(rows_of(rows@), width as nat),
            r matches Some(t) ==> t.wf() && t.view() == rows_of(rows@) && t.width_spec() == width,
    {
        let mut i: usize = 0;
        while i < rows.len()
            invariant
                i <= rows@.len(),
                forall|j: int| 0 <= j < i ==> #[trigger] rows@[j]@.len() == width,
            decreases rows@.len() - i,
        {
            if rows[i].len() != width {
                assert(rows_of(rows@)[i as int].len() != width);
                return None;
            }
            i = i + 1;
        }
        let t = Table { rows, width };
        proof {
            let v = rows_of(t.rows@);
            assert forall|j: int| 0 <= j < v.len() implies #[trigger] v[j].len() == width by {
                assert(t.rows@[j]@.len() == width);
            }
        }
        Some(t)
    }

    /// The number of rows.
    pub fn nrows(&self) -> (r: usize)
        ensures
            r == self.view().len(),
    {
        self.rows.len()
    }

    /// The number of cells in each row.
    pub fn ncols(&self) -> (r: usize)
        ensures
            r == self.width_spec(),
    {
        self.width
    }

    /// The cell at row `i`, column `j`.
    pub fn get(&self, i: usize, j: usize) -> (r: &T)
        requires
            self.wf(),
            i < self.view().len(),
            j < self.width_spec(),
        ensures
            *r == self.view()[i as int][j as int],
    {
        assert(self.view()[i as int] == self.rows@[i as int]@);
        &self.rows[i][j]
    }

    /// The rows of the table, each as a vector.
    pub fn rows(&self) -> (r: &Vec<Vec<T>>)
        ensures
            rows_of(r@) == self.view(),
    {
        &self.rows
    }

    /// Splits the table after its first `at` rows; both parts keep the width.
    pub fn split_rows(self, at: usize) -> (r: (Table<T>, Table<T>))
        requires
            self.wf(),
            at <= self.view().len(),
        ensures
            r.0.wf() && r.1.wf(),
            r.0.view() == self.view().take(at as int),
            r.1.view() == self.view().skip(at as int),
            r.0.width_spec() == self.width_spec() && r.1.width_spec() == self.width_spec(),
    {
        let ghost v = self.view();
        let mut first = self.rows;
        let second = first.split_off(at);
        let a = Table { rows: first, width: self.width };
        let b = Table { rows: second, width: self.width };
        assert(a.view() =~= v.take(at as int));
        assert(b.view() =~= v.skip(at as int));
        (a, b)
    }

    /// Gives up the table for its rows.
    pub fn into_rows(self) -> (r: Vec<Vec<T>>)
        ensures
            rows_of(r@) == self.view(),
    {
        self.rows
    }
}

} // verus!
