//! Two arrays held against each other: the shapes of both, and for each
//! element the difference between what was measured and what was expected.

use vstd::prelude::*;
use vstd::arithmetic::div_mod::{
    lemma_div_pos_is_pos,
    lemma_fundamental_div_mod,
    lemma_fundamental_div_mod_converse,
};
use crate::binary64::{exceeds, is_beyond};
use crate::diagnostic::Mismatch;

verus! {

/// The mathematical content of a [`Comparison`].
pub struct ComparisonView {
    /// Rows and columns of the array that was measured.
    pub actual_shape: (usize, usize),
    /// Rows and columns of the array that was expected.
    pub expected_shape: (usize, usize),
    /// The differences `actual - expected` as binary64 bit patterns, in
    /// row-major order: the element at row `i` and column `j` stands at
    /// index `i * columns + j`.
    pub differences: Seq<u64>,
}

impl ComparisonView {
    /// Whether both arrays have the same number of rows and of columns.
    pub open spec fn shapes_agree(self) -> bool {
        self.actual_shape == self.expected_shape
    }

    /// The number of rows of the measured array.
    pub open spec fn rows(self) -> int {
        self.actual_shape.0 as int
    }

    /// The number of columns of the measured array.
    pub open spec fn columns(self) -> int {
        self.actual_shape.1 as int
    }

    /// Arrays of one shape have one difference for each element. Arrays of
    /// different shapes have no elements in common, and what `differences`
    /// holds then is never read.
    pub open spec fn consistent(self) -> bool {
        self.shapes_agree() ==> self.differences.len() == self.rows() * self.columns()
    }

    /// Whether the difference at index `k` exceeds the tolerance.
    pub open spec fn exceeds_at(self, tolerance: u64, k: int) -> bool {
        0 <= k < self.differences.len() && exceeds(self.differences[k], tolerance)
    }

    /// Whether `k` is the first index at which the difference exceeds the
    /// tolerance.
    pub open spec fn is_first_exceeding(self, tolerance: u64, k: int) -> bool {
        &&& self.exceeds_at(tolerance, k)
        &&& forall|earlier: int| 0 <= earlier < k ==> !self.exceeds_at(tolerance, earlier)
    }

    /// The first index at which the difference exceeds the tolerance, if
    /// there is one.
    pub open spec fn first_exceeding(self, tolerance: u64) -> Option<int> {
        if exists|k: int| self.is_first_exceeding(tolerance, k) {
            Some(choose|k: int| self.is_first_exceeding(tolerance, k))
        } else {
            None
        }
    }

    /// Whether the element at this row and column differs by more than the
    /// tolerance.
    pub open spec fn element_exceeds(self, tolerance: u64, row: int, column: int) -> bool {
        &&& 0 <= row < self.rows()
        &&& 0 <= column < self.columns()
        &&& self.exceeds_at(tolerance, row * self.columns() + column)
    }

    /// Whether one position comes before another when the array is read
    /// row by row, and each row column by column.
    pub open spec fn precedes(row: int, column: int, other_row: int, other_column: int) -> bool {
        row < other_row || (row == other_row && column < other_column)
    }

    /// Whether the element at this row and column is the first, in
    /// row-major order, that differs by more than the tolerance.
    pub open spec fn is_first_exceeding_element(
        self,
        tolerance: u64,
        row: int,
        column: int,
    ) -> bool {
        &&& self.element_exceeds(tolerance, row, column)
        &&& forall|r: int, c: int|
            Self::precedes(r, c, row, column) ==> !#[trigger] self.element_exceeds(tolerance, r, c)
    }

    /// What the bulk check finds: unequal shapes before anything else,
    /// then whether any element at all differs by more than the tolerance.
    pub open spec fn bulk_verdict(self, tolerance: u64) -> Option<Mismatch> {
        if !self.shapes_agree() {
            Some(Mismatch::Shape)
        } else if exists|k: int| self.exceeds_at(tolerance, k) {
            Some(Mismatch::Element)
        } else {
            None
        }
    }

    /// What the element-by-element check finds: unequal shapes before
    /// anything else, then the row and column of the first element, in
    /// row-major order, that differs by more than the tolerance.
    pub open spec fn located_verdict(self, tolerance: u64) -> Option<Mismatch> {
        if !self.shapes_agree() {
            Some(Mismatch::Shape)
        } else {
            match self.first_exceeding(tolerance) {
                Some(k) => Some(
                    Mismatch::ElementAt {
                        row: (k / self.columns()) as usize,
                        column: (k % self.columns()) as usize,
                    },
                ),
                None => None,
            }
        }
    }
}

/// There is at most one first index at which the difference exceeds the
/// tolerance, and [`ComparisonView::first_exceeding`] names it.
pub proof fn lemma_first_exceeding_is(view: ComparisonView, tolerance: u64, k: int)
    requires
        view.is_first_exceeding(tolerance, k),
    ensures
        view.first_exceeding(tolerance) == Some(k),
{
    let chosen = choose|c: int| view.is_first_exceeding(tolerance, c);
    assert(view.is_first_exceeding(tolerance, chosen));
    if chosen < k {
        assert(!view.exceeds_at(tolerance, chosen));
    }
    if k < chosen {
        assert(!view.exceeds_at(tolerance, k));
    }
}

/// Where some difference exceeds the tolerance, one of them is the first.
pub proof fn lemma_some_exceeding_has_first(view: ComparisonView, tolerance: u64, k: int)
    requires
        view.exceeds_at(tolerance, k),
    ensures
        view.first_exceeding(tolerance) is Some,
    decreases k,
{
    if forall|earlier: int| 0 <= earlier < k ==> !view.exceeds_at(tolerance, earlier) {
        assert(view.is_first_exceeding(tolerance, k));
    } else {
        let earlier = choose|earlier: int| 0 <= earlier < k && view.exceeds_at(tolerance, earlier);
        lemma_some_exceeding_has_first(view, tolerance, earlier);
    }
}

/// Where the shapes differ, that is all that either check finds. The
/// differences play no part: two comparisons of the same two shapes get
/// the same verdict, whatever their differences and tolerances are.
pub proof fn lemma_shape_comes_first(
    view: ComparisonView,
    tolerance: u64,
    other: ComparisonView,
    other_tolerance: u64,
)
    requires
        !view.shapes_agree(),
        other.actual_shape == view.actual_shape,
        other.expected_shape == view.expected_shape,
    ensures
        view.bulk_verdict(tolerance) == Some(Mismatch::Shape),
        view.located_verdict(tolerance) == Some(Mismatch::Shape),
        other.bulk_verdict(other_tolerance) == view.bulk_verdict(tolerance),
        other.located_verdict(other_tolerance) == view.located_verdict(tolerance),
{
}

/// The two checks fail on the same comparisons; they differ in what the
/// diagnostic says of an element.
pub proof fn lemma_checks_agree(view: ComparisonView, tolerance: u64)
    ensures
        view.bulk_verdict(tolerance) is Some <==> view.located_verdict(tolerance) is Some,
        view.bulk_verdict(tolerance) == Some(Mismatch::Shape) <==> view.located_verdict(tolerance)
            == Some(Mismatch::Shape),
{
    if view.shapes_agree() {
        if exists|k: int| view.exceeds_at(tolerance, k) {
            let k = choose|k: int| view.exceeds_at(tolerance, k);
            lemma_some_exceeding_has_first(view, tolerance, k);
        }
        if view.first_exceeding(tolerance) is Some {
            let k = view.first_exceeding(tolerance).unwrap();
            assert(view.is_first_exceeding(tolerance, k));
            assert(view.exceeds_at(tolerance, k));
        }
    }
}

/// The element-by-element check names the first element, in row-major
/// order, that differs by more than the tolerance, and only that one; it
/// finds nothing exactly when no element differs by more than the
/// tolerance.
pub proof fn lemma_located_verdict_is_first(
    view: ComparisonView,
    tolerance: u64,
    row: usize,
    column: usize,
)
    requires
        view.consistent(),
        view.shapes_agree(),
    ensures
        view.located_verdict(tolerance) == Some(Mismatch::ElementAt { row, column })
            <==> view.is_first_exceeding_element(tolerance, row as int, column as int),
        view.located_verdict(tolerance) is None <==> forall|r: int, c: int|
            !#[trigger] view.element_exceeds(tolerance, r, c),
        view.located_verdict(tolerance) is Some ==> view.located_verdict(tolerance).unwrap()
            is ElementAt,
{
    let columns = view.columns();
    let rows = view.rows();
    if view.is_first_exceeding_element(tolerance, row as int, column as int) {
        let k = row * columns + column;
        assert forall|earlier: int| 0 <= earlier < k implies !view.exceeds_at(
            tolerance,
            earlier,
        ) by {
            let r = earlier / columns;
            let c = earlier % columns;
            lemma_row_major_split(earlier, rows, columns);
            lemma_row_major_order(r, c, row as int, column as int, columns);
            assert(!view.element_exceeds(tolerance, r, c));
        }
        lemma_first_exceeding_is(view, tolerance, k);
        lemma_fundamental_div_mod_converse(k, columns, row as int, column as int);
    }
    match view.first_exceeding(tolerance) {
        Some(k) => {
            assert(view.is_first_exceeding(tolerance, k));
            let found_row = k / columns;
            let found_column = k % columns;
            lemma_row_major_split(k, rows, columns);
            assert(view.element_exceeds(tolerance, found_row, found_column));
            assert forall|r: int, c: int|
                ComparisonView::precedes(
                    r,
                    c,
                    found_row,
                    found_column,
                ) implies !#[trigger] view.element_exceeds(tolerance, r, c) by {
                if 0 <= r < rows && 0 <= c < columns {
                    lemma_index_in_range(r, c, rows, columns);
                    lemma_row_major_order(r, c, found_row, found_column, columns);
                }
            }
            assert(view.is_first_exceeding_element(tolerance, found_row, found_column));
            if view.is_first_exceeding_element(tolerance, row as int, column as int) {
                assert(found_row == row && found_column == column);
            }
        },
        None => {
            assert forall|r: int, c: int| !#[trigger] view.element_exceeds(tolerance, r, c) by {
                if view.element_exceeds(tolerance, r, c) {
                    lemma_some_exceeding_has_first(view, tolerance, r * columns + c);
                }
            }
        },
    }
}

/// The row-major index of an element lies among the indices of the array.
proof fn lemma_index_in_range(row: int, column: int, rows: int, columns: int)
    requires
        0 <= row < rows,
        0 <= column < columns,
    ensures
        0 <= row * columns + column < rows * columns,
{
    assert(row * columns + column < rows * columns) by (nonlinear_arith)
        requires
            0 <= row < rows,
            0 <= column < columns,
    ;
    assert(0 <= row * columns) by (nonlinear_arith)
        requires
            0 <= row,
            0 <= columns,
    ;
}

/// An index of the array splits into a row and a column of the array.
proof fn lemma_row_major_split(k: int, rows: int, columns: int)
    requires
        0 <= k < rows * columns,
        0 <= rows,
        0 <= columns,
    ensures
        0 < columns,
        0 <= k / columns < rows,
        0 <= k % columns < columns,
        k == (k / columns) * columns + k % columns,
{
    assert(0 < columns) by (nonlinear_arith)
        requires
            0 <= k < rows * columns,
            0 <= rows,
            0 <= columns,
    ;
    lemma_fundamental_div_mod(k, columns);
    lemma_div_pos_is_pos(k, columns);
    assert(k / columns < rows) by (nonlinear_arith)
        requires
            0 <= k < rows * columns,
            0 < columns,
            k == columns * (k / columns) + k % columns,
            0 <= k % columns,
    ;
    assert(columns * (k / columns) == (k / columns) * columns) by (nonlinear_arith);
}

/// Row-major indices grow exactly as positions follow one another.
proof fn lemma_row_major_order(
    row: int,
    column: int,
    other_row: int,
    other_column: int,
    columns: int,
)
    requires
        0 <= column < columns,
        0 <= other_column < columns,
    ensures
        ComparisonView::precedes(row, column, other_row, other_column) <==> row * columns + column
            < other_row * columns + other_column,
{
    if row < other_row {
        assert(row * columns + column < other_row * columns + other_column) by (nonlinear_arith)
            requires
                row < other_row,
                0 <= column < columns,
                0 <= other_column,
        ;
    } else if row > other_row {
        assert(row * columns + column > other_row * columns + other_column) by (nonlinear_arith)
            requires
                row > other_row,
                0 <= other_column < columns,
                0 <= column,
        ;
    }
}

/// Two arrays, compared element by element.
///
/// A comparison is always consistent: where the shapes agree it holds one
/// difference for each element.
pub struct Comparison {
    actual_shape: (usize, usize),
    expected_shape: (usize, usize),
    differences: Vec<u64>,
}

impl View for Comparison {
    type V = ComparisonView;

    closed spec fn view(&self) -> ComparisonView {
        ComparisonView {
            actual_shape: self.actual_shape,
            expected_shape: self.expected_shape,
            differences: self.differences@,
        }
    }
}

impl Comparison {
    #[verifier::type_invariant]
    spec fn well_formed(self) -> bool {
        self@.consistent()
    }

    /// Puts a comparison together from the shapes of the two arrays and
    /// the differences of their elements in row-major order. Where the
    /// shapes are the same, there must be exactly one difference for each
    /// element; where they are not, the differences are kept and never
    /// read.
    pub fn new(
        actual_shape: (usize, usize),
        expected_shape: (usize, usize),
        differences: Vec<u64>,
    ) -> (made: Option<Comparison>)
        ensures
            made is Some <==> (ComparisonView {
                actual_shape,
                expected_shape,
                differences: differences@,
            }).consistent(),
            made matches Some(comparison) ==> comparison@ == (ComparisonView {
                actual_shape,
                expected_shape,
                differences: differences@,
            }),
    {
        if actual_shape.0 == expected_shape.0 && actual_shape.1 == expected_shape.1 {
            assert(actual_shape.0 * actual_shape.1 <= u128::MAX) by (nonlinear_arith)
                requires
                    actual_shape.0 <= u64::MAX,
                    actual_shape.1 <= u64::MAX,
            ;
            let wanted: u128 = (actual_shape.0 as u128) * (actual_shape.1 as u128);
            if differences.len() as u128 != wanted {
                return None;
            }
        }
        Some(Comparison { actual_shape, expected_shape, differences })
    }

    /// Whether both arrays have the same number of rows and of columns.
    pub fn shapes_agree(&self) -> (agree: bool)
        ensures
            agree == self@.shapes_agree(),
            self@.consistent(),
    {
        proof {
            use_type_invariant(self);
        }
        self.actual_shape.0 == self.expected_shape.0 && self.actual_shape.1
            == self.expected_shape.1
    }

    /// The bulk check: looks at the shapes, then through the differences
    /// until one exceeds the tolerance.
    pub fn bulk_verdict(&self, tolerance: u64) -> (verdict: Option<Mismatch>)
        ensures
            verdict == self@.bulk_verdict(tolerance),
    {
        if !self.shapes_agree() {
            return Some(Mismatch::Shape);
        }
        let count: usize = self.differences.len();
        let mut k: usize = 0;
        while k < count
            invariant
                self@.shapes_agree(),
                k <= count,
                count == self.differences@.len(),
                forall|earlier: int| 0 <= earlier < k ==> !self@.exceeds_at(tolerance, earlier),
            decreases count - k,
        {
            if is_beyond(self.differences[k], tolerance) {
                assert(self@.exceeds_at(tolerance, k as int));
                return Some(Mismatch::Element);
            }
            k += 1;
        }
        None
    }

    /// The element-by-element check: looks at the shapes, then goes row by
    /// row, and within each row column by column, and stops at the first
    /// difference that exceeds the tolerance.
    pub fn located_verdict(&self, tolerance: u64) -> (verdict: Option<Mismatch>)
        ensures
            verdict == self@.located_verdict(tolerance),
    {
        if !self.shapes_agree() {
            return Some(Mismatch::Shape);
        }
        let rows: usize = self.actual_shape.0;
        let columns: usize = self.actual_shape.1;
        let count: usize = self.differences.len();
        let mut k: usize = 0;
        let mut row: usize = 0;
        while row < rows
            invariant
                self@.shapes_agree(),
                self@.consistent(),
                rows == self@.rows(),
                columns == self@.columns(),
                count == self@.differences.len(),
                row <= rows,
                k == row * columns,
                forall|earlier: int| 0 <= earlier < k ==> !self@.exceeds_at(tolerance, earlier),
            decreases rows - row,
        {
            let mut column: usize = 0;
            while column < columns
                invariant
                    self@.shapes_agree(),
                    self@.consistent(),
                    rows == self@.rows(),
                    columns == self@.columns(),
                    count == self@.differences.len(),
                    row < rows,
                    column <= columns,
                    k == row * columns + column,
                    forall|earlier: int| 0 <= earlier < k ==> !self@.exceeds_at(tolerance, earlier),
                decreases columns - column,
            {
                proof {
                    lemma_index_in_range(row as int, column as int, rows as int, columns as int);
                }
                if is_beyond(self.differences[k], tolerance) {
                    proof {
                        assert(self@.is_first_exceeding(tolerance, k as int));
                        lemma_first_exceeding_is(self@, tolerance, k as int);
                        lemma_fundamental_div_mod_converse(
                            k as int,
                            columns as int,
                            row as int,
                            column as int,
                        );
                    }
                    return Some(Mismatch::ElementAt { row, column });
                }
                column += 1;
                k += 1;
            }
            row += 1;
            assert(k == row * columns) by (nonlinear_arith)
                requires
                    k == (row - 1) * columns + columns,
            ;
        }
        assert(forall|any: int| !self@.is_first_exceeding(tolerance, any));
        None
    }
}

} // verus!
