//! The session store: the process-wide registry of streaming sessions,
//! keyed by monotonically assigned numeric handles.
//!
//! The store is an explicit object; the embedding program constructs one at
//! start-up and serializes access to it (every operation takes the whole
//! store, so one exclusive lock around it reproduces the intended
//! store-wide mutual exclusion).

use vstd::prelude::*;

use crate::descriptor::{parse_descriptor, spec_parse_descriptor, Operation, OperationView};
use crate::engine;
use crate::errors::StreamError;
use crate::frame::{filter_post, group_post, run_operation};
use crate::session::{absorbed, fresh_session, SessionView, StreamSession};
use crate::table::{materialize, spec_materialize, Table, TableView};

verus! {

/// What one successful chunk submission reports: the rows just decoded and
/// the session's new accumulated total.
pub struct ChunkReceipt {
    pub processed_rows: usize,
    pub total_accumulated: usize,
}

/// The registry of live sessions.
pub struct SessionStore {
    /// The next handle to assign; handles start at 1 and are never reused.
    pub next_handle: u64,
    /// The live sessions, each under its handle.
    pub sessions: Vec<(u64, StreamSession)>,
}

/// The mapping a session list denotes.
pub open spec fn store_map(s: Seq<(u64, StreamSession)>) -> Map<u64, SessionView>
    decreases s.len(),
{
    if s.len() == 0 {
        Map::empty()
    } else {
        store_map(s.drop_last()).insert(s.last().0, s.last().1@)
    }
}

impl View for SessionStore {
    type V = Map<u64, SessionView>;

    open spec fn view(&self) -> Map<u64, SessionView> {
        store_map(self.sessions@)
    }
}

proof fn lemma_store_map_absent(s: Seq<(u64, StreamSession)>, h: u64)
    requires
        forall|i: int| 0 <= i < s.len() ==> (#[trigger] s[i]).0 != h,
    ensures
        !store_map(s).dom().contains(h),
    decreases s.len(),
{
    if s.len() > 0 {
        lemma_store_map_absent(s.drop_last(), h);
    }
}

proof fn lemma_store_map_get(s: Seq<(u64, StreamSession)>, i: int)
    requires
        0 <= i < s.len(),
        forall|a: int, b: int| 0 <= a < b < s.len() ==> (#[trigger] s[a]).0 != (#[trigger] s[b]).0,
    ensures
        store_map(s).dom().contains(s[i].0),
        store_map(s)[s[i].0] == s[i].1@,
    decreases s.len(),
{
    if i < s.len() - 1 {
        lemma_store_map_get(s.drop_last(), i);
    }
}

proof fn lemma_store_map_update(s: Seq<(u64, StreamSession)>, i: int, p: (u64, StreamSession))
    requires
        0 <= i < s.len(),
        forall|a: int, b: int| 0 <= a < b < s.len() ==> (#[trigger] s[a]).0 != (#[trigger] s[b]).0,
        p.0 == s[i].0,
    ensures
        store_map(s.update(i, p)) == store_map(s).insert(p.0, p.1@),
    decreases s.len(),
{
    let u = s.update(i, p);
    if i == s.len() - 1 {
        assert(u.drop_last() =~= s.drop_last());
        assert(store_map(u) =~= store_map(s).insert(p.0, p.1@));
    } else {
        lemma_store_map_update(s.drop_last(), i, p);
        assert(u.drop_last() =~= s.drop_last().update(i, p));
        assert(u.last() == s.last());
        assert(store_map(u) =~= store_map(s).insert(p.0, p.1@));
    }
}

proof fn lemma_store_map_remove(s: Seq<(u64, StreamSession)>, i: int)
    requires
        0 <= i < s.len(),
        forall|a: int, b: int| 0 <= a < b < s.len() ==> (#[trigger] s[a]).0 != (#[trigger] s[b]).0,
    ensures
        store_map(s.remove(i)) == store_map(s).remove(s[i].0),
    decreases s.len(),
{
    if i == s.len() - 1 {
        assert(s.remove(i) =~= s.drop_last());
        assert(forall|a: int|
            0 <= a < s.drop_last().len() ==> (#[trigger] s.drop_last()[a]).0 != s[i].0);
        lemma_store_map_absent(s.drop_last(), s[i].0);
        assert(store_map(s.remove(i)) =~= store_map(s).remove(s[i].0));
    } else {
        lemma_store_map_remove(s.drop_last(), i);
        assert(s.remove(i).drop_last() =~= s.drop_last().remove(i));
        assert(s.remove(i).last() == s.last());
        assert(store_map(s.remove(i)) =~= store_map(s).remove(s[i].0));
    }
}

/// The table a finalization returns, where the engine boundary leaves it
/// fully determined: an empty session reads as the empty table; a
/// pass-through descriptor reads as the re-materialized table itself; a
/// filter reads as the passing rows when the engine stores the table
/// exactly. A group-and-sum result carries engine-computed sums in an
/// engine-chosen order, so it is not pinned here.
pub open spec fn results_spec(sess: SessionView, descriptor: Seq<char>) -> Option<TableView> {
    if sess.rows.len() == 0 {
        Option::Some(TableView { names: Seq::empty(), rows: Seq::empty() })
    } else {
        let mat = spec_materialize(sess.schema, sess.rows);
        match spec_parse_descriptor(descriptor) {
            OperationView::Pass => Option::Some(mat),
            OperationView::Filter { column, threshold } => if engine::table_engine_exact(mat)
                && mat.names.len() > 0 {
                Option::Some(
                    TableView {
                        names: mat.names,
                        rows: engine::spec_filter_rows(mat.names, mat.rows, column, threshold),
                    },
                )
            } else {
                Option::None
            },
            OperationView::GroupBySum { .. } => Option::None,
        }
    }
}

impl SessionStore {
    /// Handles are pairwise distinct, start at 1, and stay below the next
    /// handle to assign — so a handle is never reused, even after a close.
    pub open spec fn wf(&self) -> bool {
        &&& 1 <= self.next_handle
        &&& forall|a: int, b: int|
            0 <= a < b < self.sessions@.len() ==> (#[trigger] self.sessions@[a]).0
                != (#[trigger] self.sessions@[b]).0
        &&& forall|a: int|
            0 <= a < self.sessions@.len() ==> (#[trigger] self.sessions@[a]).0 < self.next_handle
    }

    /// An empty store; the first session will get handle 1.
    pub fn new() -> (s: SessionStore)
        ensures
            s.wf(),
            s@ == Map::<u64, SessionView>::empty(),
            s.next_handle == 1,
    {
        SessionStore { next_handle: 1, sessions: Vec::new() }
    }

    /// Position of a handle's session, if the handle is live.
    fn find_index(&self, handle: u64) -> (r: Option<usize>)
        requires
            self.wf(),
        ensures
            match r {
                Option::Some(i) => i < self.sessions@.len() && self.sessions@[i as int].0 == handle
                    && self@.dom().contains(handle) && self@[handle] == self.sessions@[
                    i as int
                ].1@,
                Option::None => !self@.dom().contains(handle),
            },
    {
        let n = self.sessions.len();
        let mut i: usize = 0;
        while i < n
            invariant
                0 <= i <= n,
                n == self.sessions@.len(),
                self.wf(),
                forall|a: int| 0 <= a < i ==> (#[trigger] self.sessions@[a]).0 != handle,
            decreases n - i,
        {
            if self.sessions[i].0 == handle {
                proof {
                    lemma_store_map_get(self.sessions@, i as int);
                }
                return Option::Some(i);
            }
            i = i + 1;
        }
        proof {
            lemma_store_map_absent(self.sessions@, handle);
        }
        Option::None
    }

    /// Open a fresh session under an operation label and hand out its
    /// handle: the next unassigned number, starting at 1, never reused.
    /// `None` only when the handle space is exhausted.
    pub fn init_stream(&mut self, operation_label: String) -> (h: Option<u64>)
        requires
            old(self).wf(),
        ensures
            final(self).wf(),
            old(self).next_handle < u64::MAX ==> h is Some,
            match h {
                Option::Some(id) => id == old(self).next_handle && !old(self)@.dom().contains(id)
                    && final(self)@ == old(self)@.insert(id, fresh_session(operation_label@))
                    && final(self).next_handle == old(self).next_handle + 1,
                Option::None => old(self).next_handle == u64::MAX && *final(self) == *old(self),
            },
    {
        if self.next_handle == u64::MAX {
            return Option::None;
        }
        let id = self.next_handle;
        self.next_handle = self.next_handle + 1;
        let sess = StreamSession::new(operation_label);
        proof {
            lemma_store_map_absent(self.sessions@, id);
        }
        self.sessions.push((id, sess));
        proof {
            assert(self.sessions@.drop_last() =~= old(self).sessions@);
        }
        Option::Some(id)
    }

    /// Submit one chunk of delimited-text bytes to a session: the bytes are
    /// decoded on their own (a chunk carries its own header line), the
    /// session's schema is captured from the first successful chunk, and the
    /// decoded rows are appended. A failure leaves every session untouched;
    /// a success reports the rows just decoded and the new total, which
    /// grows by exactly the rows decoded — so successive totals never
    /// decrease and always equal the sum of all prior decoded counts.
    pub fn submit_chunk(&mut self, handle: u64, chunk: Vec<u8>) -> (r: Result<
        ChunkReceipt,
        StreamError,
    >)
        requires
            old(self).wf(),
        ensures
            final(self).wf(),
            final(self).next_handle == old(self).next_handle,
            !old(self)@.dom().contains(handle) ==> (r matches Err(e) && e
                == StreamError::SessionNotFound) && final(self)@ == old(self)@,
            old(self)@.dom().contains(handle) ==> match engine::utf8_chars(chunk@) {
                Option::None => (r matches Err(e) && e matches StreamError::EncodingError(_))
                    && final(self)@ == old(self)@,
                Option::Some(text) => match engine::csv_table(text) {
                    Option::None => (r matches Err(e) && e matches StreamError::DecodeError(_))
                        && final(self)@ == old(self)@,
                    Option::Some(tv) => (r matches Ok(rc) && rc.processed_rows == tv.rows.len()
                        && rc.total_accumulated == old(self)@[handle].rows.len() + tv.rows.len()
                        && rc.total_accumulated >= old(self)@[handle].rows.len())
                        && final(self)@ == old(self)@.insert(
                        handle,
                        absorbed(old(self)@[handle], tv),
                    ),
                },
            },
    {
        let idx = match self.find_index(handle) {
            Option::Some(i) => i,
            Option::None => {
                return Err(StreamError::SessionNotFound);
            },
        };
        let text = match engine::decode_utf8(chunk) {
            Ok(t) => t,
            Err(m) => {
                return Err(StreamError::EncodingError(m));
            },
        };
        let df = match engine::parse_csv_text(text.as_str()) {
            Ok(df) => df,
            Err(m) => {
                return Err(StreamError::DecodeError(m));
            },
        };
        let chunk_table = crate::frame::extract_table(&df);
        let (id, mut sess) = self.sessions.remove(idx);
        let ghost pre_list = old(self).sessions@;
        let counts = sess.absorb_chunk(&chunk_table);
        self.sessions.insert(idx, (id, sess));
        proof {
            assert(self.sessions@ =~= pre_list.update(
                idx as int,
                (id, sess),
            ));
            lemma_store_map_update(pre_list, idx as int, (id, sess));
        }
        Ok(ChunkReceipt { processed_rows: counts.0, total_accumulated: counts.1 })
    }

    /// Read the session's accumulated table with the descriptor's operation
    /// applied. Read-only and repeatable: the same store, handle and
    /// descriptor describe the same result wherever `results_spec` pins it.
    /// An unknown handle is refused; an empty session yields the empty
    /// table whatever the descriptor; a pass-through descriptor yields the
    /// re-materialized table itself; filter and group-and-sum run through
    /// the engine, whose failures surface as `EngineComputeError`.
    pub fn get_stream_results(&self, handle: u64, descriptor: &str) -> (r: Result<
        Table,
        StreamError,
    >)
        requires
            self.wf(),
        ensures
            !self@.dom().contains(handle) ==> (r matches Err(e) && e
                == StreamError::SessionNotFound),
            self@.dom().contains(handle) ==> {
                let sess = self@[handle];
                let mat = spec_materialize(sess.schema, sess.rows);
                let op = spec_parse_descriptor(descriptor@);
                &&& (r matches Ok(t) ==> t.wf())
                &&& (sess.rows.len() == 0 ==> (r matches Ok(t) && t@ == (TableView {
                    names: Seq::empty(),
                    rows: Seq::empty(),
                })))
                &&& (sess.rows.len() > 0 ==> {
                    &&& (op is Pass ==> (r matches Ok(t) && t@ == mat))
                    &&& (op matches OperationView::Filter { column, threshold } ==> match r {
                        Ok(t) => filter_post(mat, column, threshold, t@),
                        Err(e) => e matches StreamError::EngineComputeError(_),
                    })
                    &&& (op matches OperationView::GroupBySum { group_column, sum_column }
                        ==> match r {
                        Ok(t) => group_post(mat, group_column, sum_column, t@),
                        Err(e) => e matches StreamError::EngineComputeError(_),
                    })
                })
                &&& (r matches Ok(t) ==> (results_spec(sess, descriptor@) is Some ==> t@
                    == results_spec(sess, descriptor@)->0))
            },
    {
        let idx = match self.find_index(handle) {
            Option::Some(i) => i,
            Option::None => {
                return Err(StreamError::SessionNotFound);
            },
        };
        let sess = &self.sessions[idx].1;
        if sess.rows.len() == 0 {
            let t = Table::empty();
            proof {
                assert(t@.names =~= Seq::<Seq<char>>::empty());
                assert(t@.rows =~~= Seq::<Seq<crate::cell::CellView>>::empty());
            }
            return Ok(t);
        }
        let mat = materialize(&sess.schema, &sess.rows);
        let op = parse_descriptor(descriptor);
        match op {
            Operation::Pass => Ok(mat),
            _ => {
                match run_operation(&mat, &op) {
                    Ok(out) => Ok(out),
                    Err(m) => Err(StreamError::EngineComputeError(m)),
                }
            },
        }
    }

    /// Drop a session and release its memory. Closing an unknown handle is
    /// a no-op, not an error; the handle counter never moves backwards, so
    /// the closed handle is never assigned again.
    pub fn close_stream(&mut self, handle: u64)
        requires
            old(self).wf(),
        ensures
            final(self).wf(),
            final(self).next_handle == old(self).next_handle,
            final(self)@ == old(self)@.remove(handle),
    {
        match self.find_index(handle) {
            Option::Some(i) => {
                let ghost pre_list = self.sessions@;
                self.sessions.remove(i);
                proof {
                    lemma_store_map_remove(pre_list, i as int);
                }
            },
            Option::None => {
                proof {
                    assert(final(self)@ =~= old(self)@.remove(handle));
                }
            },
        }
    }
}

} // verus!
