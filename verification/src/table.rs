//! Compose and decompose an ordered set of named columns.
//!
//! A table is built from a column list under the rule that the first column
//! defines the height and every remaining column is validated against it;
//! a mismatch is a construction failure, never a silent truncation. Encoding
//! hands the ordered column list back exactly.
use vstd::prelude::*;

use crate::chunk::CellV;
use crate::error::BridgeError;
use crate::error::BridgeErrorV;
use crate::error::res_view;
use crate::series::Series;
use crate::series::SeriesV;
use crate::series::series_logical;

verus! {

broadcast use vstd::std_specs::vec::group_vec_axioms;

/// Mathematical view of a [`Table`].
#[verifier::ext_equal]
pub struct TableV {
    pub columns: Seq<SeriesV>,
}

/// An ordered sequence of named columns of identical logical length.
#[derive(Debug, PartialEq)]
pub struct Table {
    pub columns: Vec<Series>,
}

/// View of a column sequence, elementwise.
pub open spec fn columns_view(s: Seq<Series>) -> Seq<SeriesV> {
    Seq::new(s.len(), |i: int| s[i]@)
}

impl View for Table {
    type V = TableV;

    open spec fn view(&self) -> TableV {
        TableV { columns: columns_view(self.columns@) }
    }
}

/// The logical height of one column.
pub open spec fn height_spec(s: SeriesV) -> int {
    series_logical(s).len() as int
}

/// The first column whose height differs from the first column's, scanning
/// from the left.
pub open spec fn first_height_mismatch_from(cols: Seq<SeriesV>, i: int) -> Option<int>
    decreases cols.len() - i,
{
    if i < 0 || i >= cols.len() {
        None
    } else if height_spec(cols[i]) != height_spec(cols[0]) {
        Some(i)
    } else {
        first_height_mismatch_from(cols, i + 1)
    }
}

/// Whether every column has the height of the first.
pub open spec fn heights_ok(cols: Seq<SeriesV>) -> bool {
    forall|i: int| 0 <= i < cols.len() ==> height_spec(#[trigger] cols[i]) == height_spec(cols[0])
}

/// What building a table from a column list yields: the columns unchanged
/// and in order when their heights agree with the first column's, and a
/// length-mismatch error naming the expected and the offending height at
/// the first disagreement.
pub open spec fn from_columns_spec(cols: Seq<SeriesV>) -> Result<TableV, BridgeErrorV> {
    match first_height_mismatch_from(cols, 0) {
        None => Ok(TableV { columns: cols }),
        Some(j) => Err(
            BridgeErrorV::LengthMismatch(
                height_spec(cols[0]) as usize,
                height_spec(cols[j]) as usize,
            ),
        ),
    }
}

/// The scan finds no mismatch exactly when all heights agree.
pub proof fn lemma_scan_iff_heights_ok(cols: Seq<SeriesV>, i: int)
    requires
        0 <= i,
        forall|k: int| 0 <= k < i && k < cols.len() ==> height_spec(#[trigger] cols[k])
            == height_spec(cols[0]),
    ensures
        first_height_mismatch_from(cols, i) is None <==> (forall|k: int|
            0 <= k < cols.len() ==> height_spec(#[trigger] cols[k]) == height_spec(cols[0])),
    decreases cols.len() - i,
{
    if i < cols.len() {
        if height_spec(cols[i]) == height_spec(cols[0]) {
            lemma_scan_iff_heights_ok(cols, i + 1);
        }
    }
}

/// Total number of cells across a chunk sequence.
pub open spec fn sum_lens(cv: Seq<Seq<CellV>>) -> int
    decreases cv.len(),
{
    if cv.len() == 0 {
        0
    } else {
        cv.first().len() + sum_lens(cv.drop_first())
    }
}

/// A flattened sequence has the summed length of its parts.
pub proof fn lemma_flatten_len_is_sum(cv: Seq<Seq<CellV>>)
    ensures
        cv.flatten().len() == sum_lens(cv),
    decreases cv.len(),
{
    if cv.len() == 0 {
        assert(cv.flatten() =~= Seq::<CellV>::empty());
    } else {
        lemma_flatten_len_is_sum(cv.drop_first());
    }
}

/// The logical height of one column: its chunk lengths summed.
pub fn height(s: &Series) -> (r: u128)
    ensures
        r == height_spec(s@),
{
    let ghost cv = crate::series::chunks_view(s.chunks@);
    let mut acc: u128 = 0;
    let mut i: usize = 0;
    proof {
        assert(cv.take(0) =~= Seq::<Seq<CellV>>::empty());
        lemma_flatten_len_is_sum(cv);
    }
    while i < s.chunks.len()
        invariant
            i <= s.chunks.len(),
            cv == crate::series::chunks_view(s.chunks@),
            acc == sum_lens(cv.take(i as int)),
            acc <= (i as u128) * 0xffff_ffff_ffff_ffffu128,
        decreases s.chunks.len() - i,
    {
        proof {
            crate::chunk::lemma_cells_view_len(s.chunks@[i as int].cells@);
            lemma_sum_lens_push(cv.take(i as int), cv[i as int]);
            assert(cv.take(i + 1) =~= cv.take(i as int).push(cv[i as int]));
            assert(s.chunks@[i as int].cells@.len() == s.chunks@[i as int].cells.len());
        }
        acc = acc + s.chunks[i].cells.len() as u128;
        i = i + 1;
    }
    proof {
        assert(cv.take(cv.len() as int) =~= cv);
    }
    acc
}

/// Appending one more part adds its length to the sum.
proof fn lemma_sum_lens_push(cv: Seq<Seq<CellV>>, part: Seq<CellV>)
    ensures
        sum_lens(cv.push(part)) == sum_lens(cv) + part.len(),
    decreases cv.len(),
{
    if cv.len() == 0 {
        assert(cv.push(part).drop_first() =~= Seq::<Seq<CellV>>::empty());
        assert(cv.push(part).first() == part);
        assert(sum_lens(Seq::<Seq<CellV>>::empty()) == 0);
        assert(sum_lens(cv) == 0);
    } else {
        assert(cv.push(part).drop_first() =~= cv.drop_first().push(part));
        assert(cv.push(part).first() == cv.first());
        lemma_sum_lens_push(cv.drop_first(), part);
    }
}

/// Build a table from an ordered column list: the first column defines the
/// height and every other column is validated against it. On the first
/// disagreement the construction fails with a length-mismatch error carrying
/// the expected and the offending height; nothing is truncated or padded.
#[verifier::loop_isolation(false)]
pub fn table_from_columns(columns: Vec<Series>) -> (r: Result<Table, BridgeError>)
    ensures
        res_view(r) == from_columns_spec(columns_view(columns@)),
        r matches Ok(t) ==> t@.columns == columns_view(columns@),
{
    let ghost cols = columns_view(columns@);
    if columns.len() == 0 {
        return Ok(Table { columns });
    }
    let expected = height(&columns[0]);
    let mut i: usize = 1;
    proof {
        assert(first_height_mismatch_from(cols, 1) == first_height_mismatch_from(cols, 0));
    }
    while i < columns.len()
        invariant
            1 <= i <= columns.len(),
            expected == height_spec(cols[0]),
            first_height_mismatch_from(cols, i as int) == first_height_mismatch_from(cols, 0),
            forall|k: int| 0 <= k < i ==> height_spec(#[trigger] cols[k]) == height_spec(cols[0]),
        decreases columns.len() - i,
    {
        let found = height(&columns[i]);
        if found != expected {
            return Err(
                BridgeError::LengthMismatch {
                    expected: expected as usize,
                    found: found as usize,
                },
            );
        }
        i = i + 1;
    }
    Ok(Table { columns })
}

/// Decompose a table into its ordered column list, exactly as built:
/// order, names and values are preserved.
pub fn table_columns(t: Table) -> (r: Vec<Series>)
    ensures
        columns_view(r@) == t@.columns,
{
    t.columns
}

/// Building a table from agreeing columns and taking its columns back is
/// the identity: column order, names and per-column values are preserved.
/// With any disagreeing height the construction fails with a
/// length-mismatch error before any table exists.
pub proof fn lemma_table_round_trip(cols: Seq<SeriesV>)
    ensures
        heights_ok(cols) ==> from_columns_spec(cols) == Ok::<TableV, BridgeErrorV>(
            TableV { columns: cols },
        ),
        !heights_ok(cols) ==> (from_columns_spec(cols) matches Err(e) && e is LengthMismatch),
{
    lemma_scan_iff_heights_ok(cols, 0);
}

} // verus!
