use vstd::prelude::*;

verus! {

/// Mathematical model of a deferred operation.
pub enum OperationView {
    /// Descriptor not recognized: hand the materialized table back unchanged.
    Pass,
    /// Keep the rows whose `column` value passes the engine's `>=` test
    /// against the threshold text, read as a floating-point literal.
    Filter { column: Seq<char>, threshold: Seq<char> },
    /// One row per distinct `group_column` value, with the sum of
    /// `sum_column` over the group.
    GroupBySum { group_column: Seq<char>, sum_column: Seq<char> },
}

/// A parsed operation descriptor.
pub enum Operation {
    Pass,
    Filter { column: String, threshold: String },
    GroupBySum { group_column: String, sum_column: String },
}

impl View for Operation {
    type V = OperationView;

    open spec fn view(&self) -> OperationView {
        match self {
            Operation::Pass => OperationView::Pass,
            Operation::Filter { column, threshold } => OperationView::Filter {
                column: column@,
                threshold: threshold@,
            },
            Operation::GroupBySum { group_column, sum_column } => OperationView::GroupBySum {
                group_column: group_column@,
                sum_column: sum_column@,
            },
        }
    }
}

/// Position of the first colon at or after `i`, or the length when there is none.
pub open spec fn colon_from(s: Seq<char>, i: int) -> int
    decreases s.len() - i
{
    if i >= s.len() {
        s.len() as int
    } else if s[i] == ':' {
        i
    } else {
        colon_from(s, i + 1)
    }
}

proof fn lemma_colon_from_pin(s: Seq<char>, from: int, i: int)
    requires
        0 <= from <= i <= s.len(),
        forall|j: int| from <= j < i ==> s[j] != ':',
        i == s.len() || s[i] == ':',
    ensures
        colon_from(s, from) == i,
    decreases i - from,
{
    if from < i {
        lemma_colon_from_pin(s, from + 1, i);
    }
}

proof fn lemma_colon_from_bounds(s: Seq<char>, from: int)
    requires
        0 <= from <= s.len(),
    ensures
        from <= colon_from(s, from) <= s.len(),
    decreases s.len() - from,
{
    if from < s.len() && s[from] != ':' {
        lemma_colon_from_bounds(s, from + 1);
    }
}

/// The operation a descriptor denotes. The descriptor is colon-delimited; a
/// recognized head (`filter` or `groupby`) with at least two further parts
/// selects the operation, with the second and third parts as its arguments.
/// Anything else — including a recognized head with too few parts — denotes
/// the pass-through operation.
pub open spec fn spec_parse_descriptor(s: Seq<char>) -> OperationView {
    let c1 = colon_from(s, 0);
    let c2 = colon_from(s, c1 + 1);
    let c3 = colon_from(s, c2 + 1);
    if c2 < s.len() {
        let head = s.take(c1);
        let p1 = s.subrange(c1 + 1, c2);
        let p2 = s.subrange(c2 + 1, c3);
        if head == "filter"@ {
            OperationView::Filter { column: p1, threshold: p2 }
        } else if head == "groupby"@ {
            OperationView::GroupBySum { group_column: p1, sum_column: p2 }
        } else {
            OperationView::Pass
        }
    } else {
        OperationView::Pass
    }
}

/// Find the first colon at or after `from`, returning the character length
/// when there is none.
fn find_colon(s: &str, from: usize) -> (r: usize)
    requires
        from <= s@.len(),
    ensures
        r == colon_from(s@, from as int),
        from <= r <= s@.len(),
{
    let n = s.unicode_len();
    let mut i: usize = from;
    while i < n
        invariant
            from <= i <= n,
            n == s@.len(),
            forall|j: int| from <= j < i ==> s@[j] != ':',
        decreases n - i,
    {
        if s.get_char(i) == ':' {
            proof {
                lemma_colon_from_pin(s@, from as int, i as int);
            }
            return i;
        }
        i = i + 1;
    }
    proof {
        lemma_colon_from_pin(s@, from as int, n as int);
    }
    n
}

/// Character-wise string equality.
pub fn str_equal(a: &str, b: &str) -> (r: bool)
    ensures
        r == (a@ == b@),
{
    let na = a.unicode_len();
    let nb = b.unicode_len();
    if na != nb {
        return false;
    }
    let mut i: usize = 0;
    while i < na
        invariant
            0 <= i <= na,
            na == a@.len(),
            na == b@.len(),
            forall|j: int| 0 <= j < i ==> a@[j] == b@[j],
        decreases na - i,
    {
        if a.get_char(i) != b.get_char(i) {
            return false;
        }
        i = i + 1;
    }
    proof {
        assert(a@ =~= b@);
    }
    true
}

/// Parse an operation descriptor, as the executor understands it.
pub fn parse_descriptor(s: &str) -> (op: Operation)
    ensures
        op@ == spec_parse_descriptor(s@),
{
    let n = s.unicode_len();
    let c1 = find_colon(s, 0);
    if c1 == n {
        proof {
            lemma_colon_from_bounds(s@, c1 as int);
        }
        return Operation::Pass;
    }
    let c2 = find_colon(s, c1 + 1);
    if c2 == n {
        return Operation::Pass;
    }
    let c3 = find_colon(s, c2 + 1);
    let head = s.substring_char(0, c1);
    let p1 = s.substring_char(c1 + 1, c2);
    let p2 = s.substring_char(c2 + 1, c3);
    if str_equal(head, "filter") {
        Operation::Filter { column: p1.to_owned(), threshold: p2.to_owned() }
    } else if str_equal(head, "groupby") {
        Operation::GroupBySum { group_column: p1.to_owned(), sum_column: p2.to_owned() }
    } else {
        Operation::Pass
    }
}

} // verus!
