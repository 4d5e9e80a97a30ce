//! Laws of the streaming core, proved from the contracts of the public
//! functions.

use vstd::prelude::*;

use crate::cell::CellView;
use crate::session::{absorbed, chunk_rows, fresh_session, SessionView};
use crate::store::results_spec;
use crate::table::{distinct_names, row_lookup, spec_materialize, table_view_wf, TableView};

verus! {

proof fn lemma_zip_lookup(names: Seq<Seq<char>>, cells: Seq<CellView>, j: int)
    requires
        names.len() == cells.len(),
        0 <= j < names.len(),
        distinct_names(names),
    ensures
        row_lookup(Seq::new(names.len(), |k: int| (names[k], cells[k])), names[j]) == cells[j],
    decreases j,
{
    let r = Seq::new(names.len(), |k: int| (names[k], cells[k]));
    if j == 0 {
        assert(r[0].0 == names[0]);
    } else {
        assert(r[0].0 == names[0]);
        assert(names[0] != names[j]);
        let names1 = names.drop_first();
        let cells1 = cells.drop_first();
        assert(distinct_names(names1)) by {
            assert(forall|a: int, b: int|
                0 <= a < b < names1.len() ==> names1[a] == names[a + 1] && names1[b] == names[b
                    + 1]);
        }
        assert(r.drop_first() =~= Seq::new(names1.len(), |k: int| (names1[k], cells1[k])));
        lemma_zip_lookup(names1, cells1, j - 1);
        assert(names1[j - 1] == names[j]);
        assert(cells1[j - 1] == cells[j]);
    }
}

/// Round-trip law: a chunk absorbed into a fresh session re-materializes as
/// itself. The schema captured from the chunk fixes the column order, every
/// accumulated row carries exactly the chunk's names, so a pass-through
/// finalization reproduces the chunk's cells — every cell kind alike, with
/// nothing widened or coerced.
pub proof fn lemma_noop_round_trip(label: Seq<char>, tv: TableView, descriptor: Seq<char>)
    requires
        table_view_wf(tv),
        distinct_names(tv.names),
        tv.rows.len() > 0,
        crate::descriptor::spec_parse_descriptor(descriptor) is Pass,
    ensures
        results_spec(absorbed(fresh_session(label), tv), descriptor) == Some(tv),
{
    let sess = absorbed(fresh_session(label), tv);
    assert(sess.rows =~= chunk_rows(tv));
    assert(sess.schema == Some(tv.names));
    let mat = spec_materialize(sess.schema, sess.rows);
    assert(mat.names == tv.names);
    assert forall|i: int| 0 <= i < mat.rows.len() implies #[trigger] mat.rows[i] =~= tv.rows[i] by {
        assert forall|j: int| 0 <= j < tv.names.len() implies mat.rows[i][j] == tv.rows[i][j] by {
            assert(sess.rows[i] =~= Seq::new(
                tv.names.len(),
                |k: int| (tv.names[k], tv.rows[i][k]),
            ));
            lemma_zip_lookup(tv.names, tv.rows[i], j);
        }
    }
    assert(mat.rows =~~= tv.rows);
}

/// A session after absorbing a whole sequence of decoded chunks, in order.
pub open spec fn absorbed_all(s: SessionView, chunks: Seq<TableView>) -> SessionView
    decreases chunks.len(),
{
    if chunks.len() == 0 {
        s
    } else {
        absorbed(absorbed_all(s, chunks.drop_last()), chunks.last())
    }
}

/// The rows the chunks of a sequence carry, in total.
pub open spec fn total_rows(chunks: Seq<TableView>) -> int
    decreases chunks.len(),
{
    if chunks.len() == 0 {
        0
    } else {
        total_rows(chunks.drop_last()) + chunks.last().rows.len()
    }
}

/// Accumulation law: absorbing a chunk never shrinks a session, so the
/// accumulated totals that successive submissions report are non-decreasing.
pub proof fn lemma_absorb_monotonic(s: SessionView, chunk: TableView)
    ensures
        absorbed(s, chunk).rows.len() == s.rows.len() + chunk.rows.len(),
        absorbed(s, chunk).rows.len() >= s.rows.len(),
{
}

/// Accumulation law: after any sequence of successful submissions into a
/// fresh session, the accumulated total equals the sum of the rows each
/// chunk carried — exactly the sum of the reported decoded counts.
pub proof fn lemma_accumulation_total(label: Seq<char>, chunks: Seq<TableView>)
    ensures
        absorbed_all(fresh_session(label), chunks).rows.len() == total_rows(chunks),
    decreases chunks.len(),
{
    if chunks.len() > 0 {
        lemma_accumulation_total(label, chunks.drop_last());
    }
}

/// Idempotence law: finalization is read-only (it borrows the store
/// immutably), so with no intervening submission two calls see the same
/// session; wherever the result is pinned — an empty session, a
/// pass-through descriptor, or a filter over a table the engine stores
/// exactly — the two results are the same table.
pub proof fn lemma_get_results_idempotent(
    sess: SessionView,
    descriptor: Seq<char>,
    t1: TableView,
    t2: TableView,
)
    requires
        results_spec(sess, descriptor) == Some(t1),
        results_spec(sess, descriptor) == Some(t2),
    ensures
        t1 == t2,
{
}

} // verus!
