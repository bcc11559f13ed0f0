//! The hunk/line flattener: one file's hunks projected into a single
//! ordered, integer-addressable sequence of rows for cursor and scroll.

use vstd::prelude::*;

use crate::diff::Hunk;
use crate::diff::HunkView;
use crate::diff::hunks_view;

verus! {

/// The rows of one hunk: its header followed by one row per stored line,
/// in stored order.  A row is `(hunk index, None)` for the header and
/// `(hunk index, Some(line index))` for a line.
pub open spec fn hunk_rows(h: HunkView, idx: usize) -> Seq<(usize, Option<usize>)> {
    seq![(idx, None::<usize>)] + Seq::new(
        h.lines.len(),
        |j: int| (idx, Some(j as usize)),
    )
}

/// The rows of the hunks `hunks[i..]`, in order.
pub open spec fn rows_from(hunks: Seq<HunkView>, i: int) -> Seq<(usize, Option<usize>)>
    decreases hunks.len() - i,
    when 0 <= i <= hunks.len() && hunks.len() <= usize::MAX
{
    if i == hunks.len() {
        Seq::empty()
    } else {
        hunk_rows(hunks[i], i as usize) + rows_from(hunks, i + 1)
    }
}

/// The whole flattened row sequence of a file's hunks.
pub open spec fn flat_rows(hunks: Seq<HunkView>) -> Seq<(usize, Option<usize>)> {
    rows_from(hunks, 0)
}

/// Every row addresses a hunk, and line rows address a line in it.
pub open spec fn rows_wf(rows: Seq<(usize, Option<usize>)>, hunks: Seq<HunkView>) -> bool {
    forall|r: int|
        0 <= r < rows.len() ==> {
            let (hi, lj) = #[trigger] rows[r];
            &&& hi < hunks.len()
            &&& (lj matches Some(j) ==> j < hunks[hi as int].lines.len())
        }
}

proof fn lemma_rows_from_wf(hunks: Seq<HunkView>, i: int)
    requires
        0 <= i <= hunks.len(),
        hunks.len() <= usize::MAX,
    ensures
        rows_wf(rows_from(hunks, i), hunks),
    decreases hunks.len() - i,
{
    if i < hunks.len() {
        lemma_rows_from_wf(hunks, i + 1);
    }
}

/// The flattened rows are well formed: every offset resolves to either
/// the header of a stored hunk or a stored line of one.
pub proof fn lemma_flat_rows_wf(hunks: Seq<HunkView>)
    requires
        hunks.len() <= usize::MAX,
    ensures
        rows_wf(flat_rows(hunks), hunks),
{
    lemma_rows_from_wf(hunks, 0);
}

/// Flattens hunks into `(hunk index, optional line index)` rows: for each
/// hunk in order, one header row followed by one row per line in stored
/// order.  No filtering, reordering or merging occurs.
pub fn flatten_hunk_info(hunks: &Vec<Hunk>) -> (r: Vec<(usize, Option<usize>)>)
    ensures
        r@ == flat_rows(hunks_view(hunks@)),
{
    let mut result: Vec<(usize, Option<usize>)> = Vec::new();
    let n = hunks.len();
    let mut i: usize = n;
    let ghost whole = hunks_view(hunks@);
    while i > 0
        invariant
            i <= n,
            n == hunks@.len(),
            whole == hunks_view(hunks@),
            result@ == rows_from(whole, i as int),
        decreases i,
    {
        i = i - 1;
        let mut tail = result;
        let mut head: Vec<(usize, Option<usize>)> = Vec::new();
        head.push((i, None));
        let m = hunks[i].lines.len();
        let mut j: usize = 0;
        while j < m
            invariant
                j <= m,
                i < n,
                n == hunks@.len(),
                m == whole[i as int].lines.len(),
                head@ == seq![(i, None::<usize>)] + Seq::new(
                    j as nat,
                    |q: int| (i, Some(q as usize)),
                ),
            decreases m - j,
        {
            let ghost head_before = head@;
            head.push((i, Some(j)));
            proof {
                assert(head@ =~= seq![(i, None::<usize>)] + Seq::new(
                    (j + 1) as nat,
                    |q: int| (i, Some(q as usize)),
                ));
            }
            j = j + 1;
        }
        head.append(&mut tail);
        result = head;
        proof {
            assert(result@ =~= hunk_rows(whole[i as int], i) + rows_from(whole, i + 1));
            assert(result@ =~= rows_from(whole, i as int));
        }
    }
    result
}

/// The total number of flattened rows: one per hunk plus one per line.
pub open spec fn total_rows(hunks: Seq<HunkView>) -> nat
    decreases hunks,
{
    if hunks.len() == 0 {
        0
    } else {
        1 + hunks[0].lines.len() + total_rows(hunks.skip(1))
    }
}

proof fn lemma_rows_from_len(hunks: Seq<HunkView>, i: int)
    requires
        0 <= i <= hunks.len(),
        hunks.len() <= usize::MAX,
    ensures
        rows_from(hunks, i).len() == total_rows(hunks.skip(i)),
    decreases hunks.len() - i,
{
    if i == hunks.len() {
        assert(hunks.skip(i) =~= Seq::<HunkView>::empty());
    } else {
        lemma_rows_from_len(hunks, i + 1);
        assert(hunks.skip(i)[0] == hunks[i]);
        assert(hunks.skip(i).skip(1) =~= hunks.skip(i + 1));
    }
}

/// Row totals of hunk prefixes grow one hunk at a time.
pub proof fn lemma_total_rows_snoc(hunks: Seq<HunkView>, i: int)
    requires
        0 <= i < hunks.len(),
    ensures
        total_rows(hunks.take(i + 1)) == total_rows(hunks.take(i)) + 1 + hunks[i].lines.len(),
    decreases i + 1,
{
    let a = hunks.take(i + 1);
    if i == 0 {
        assert(a.skip(1) =~= hunks.take(0));
    } else {
        lemma_total_rows_snoc(hunks.skip(1), i - 1);
        assert(a.skip(1) =~= hunks.skip(1).take(i));
        assert(hunks.take(i).skip(1) =~= hunks.skip(1).take(i - 1));
        assert(a[0] == hunks[0]);
        assert(hunks.take(i)[0] == hunks[0]);
        assert(hunks.skip(1)[i - 1] == hunks[i]);
    }
}

/// A prefix never has more rows than the whole sequence.
pub proof fn lemma_total_rows_take_le(hunks: Seq<HunkView>, q: int)
    requires
        0 <= q <= hunks.len(),
    ensures
        total_rows(hunks.take(q)) <= total_rows(hunks),
    decreases hunks.len() - q,
{
    if q == hunks.len() {
        assert(hunks.take(q) =~= hunks);
    } else {
        lemma_total_rows_snoc(hunks, q);
        lemma_total_rows_take_le(hunks, q + 1);
    }
}

/// Replacing one hunk changes the row total by the difference in line
/// counts.
pub proof fn lemma_total_rows_update(hunks: Seq<HunkView>, h: int, hk: HunkView)
    requires
        0 <= h < hunks.len(),
    ensures
        total_rows(hunks.update(h, hk)) + hunks[h].lines.len() == total_rows(hunks)
            + hk.lines.len(),
    decreases hunks,
{
    if hunks.len() > 0 {
        if h == 0 {
            assert(hunks.update(0, hk)[0] == hk);
            assert(hunks.update(0, hk).skip(1) =~= hunks.skip(1));
        } else {
            assert(hunks.update(h, hk)[0] == hunks[0]);
            assert(hunks.update(h, hk).skip(1) =~= hunks.skip(1).update(h - 1, hk));
            lemma_total_rows_update(hunks.skip(1), h - 1, hk);
        }
    }
}

/// A hunk with `n` lines contributes `n + 1` rows; the whole sequence
/// has one row per hunk header and one per line.
pub proof fn lemma_flat_rows_len(hunks: Seq<HunkView>)
    requires
        hunks.len() <= usize::MAX,
    ensures
        flat_rows(hunks).len() == total_rows(hunks),
{
    lemma_rows_from_len(hunks, 0);
    assert(hunks.skip(0) =~= hunks);
}

} // verus!
