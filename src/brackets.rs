use vstd::prelude::*;

use crate::error::BfError;
use crate::opcode::{CLOSE, OPEN};

verus! {

/// How one instruction byte changes the nesting depth.
pub open spec fn depth_delta(b: u8) -> int {
    if b == OPEN {
        1
    } else if b == CLOSE {
        -1
    } else {
        0
    }
}

/// Opened minus closed brackets among the first `k` bytes of `p`.
pub open spec fn depth(p: Seq<u8>, k: int) -> int
    decreases k,
{
    if k <= 0 || k > p.len() {
        0
    } else {
        depth(p, k - 1) + depth_delta(p[k - 1])
    }
}

/// No prefix of `p` closes more brackets than it opens.
pub open spec fn never_negative(p: Seq<u8>) -> bool {
    forall|k: int| 0 <= k <= p.len() ==> depth(p, k) >= 0
}

/// The brackets of `p` nest properly and every `[` is closed.
pub open spec fn balanced(p: Seq<u8>) -> bool {
    never_negative(p) && depth(p, p.len() as int) == 0
}

/// The `]` at `pos` is the first byte at which more brackets are closed than opened.
pub open spec fn first_excess_close(p: Seq<u8>, pos: int) -> bool {
    0 <= pos < p.len() && p[pos] == CLOSE && depth(p, pos + 1) < 0 && forall|k: int|
        0 <= k <= pos ==> depth(p, k) >= 0
}

/// The `[` at `i` and the `]` at `j` enclose one loop: `j` is where the depth
/// first falls back to its level before `i`.
pub open spec fn is_pair(p: Seq<u8>, i: int, j: int) -> bool {
    &&& 0 <= i < j < p.len()
    &&& p[i] == OPEN
    &&& p[j] == CLOSE
    &&& depth(p, j + 1) == depth(p, i)
    &&& forall|k: int| i < k <= j ==> #[trigger] depth(p, k) > depth(p, i)
}

/// `t` is the jump table of `p`: each bracket maps to its partner, every other
/// position to zero.
pub open spec fn resolves(p: Seq<u8>, t: Seq<usize>) -> bool {
    &&& t.len() == p.len()
    &&& forall|i: int|
        0 <= i < p.len() ==> {
            &&& p[i] == OPEN ==> is_pair(p, i, #[trigger] t[i] as int)
            &&& p[i] == CLOSE ==> is_pair(p, t[i] as int, i)
            &&& (p[i] != OPEN && p[i] != CLOSE) ==> t[i] == 0
        }
}

/// What resolving `p` must give: the jump table when the brackets balance, and
/// otherwise the error that names the first fault.
pub open spec fn resolution_result(p: Seq<u8>, r: Result<Vec<usize>, BfError>) -> bool {
    match r {
        Ok(t) => balanced(p) && resolves(p, t@),
        Err(BfError::MismatchedClose { position }) => first_excess_close(p, position as int),
        Err(BfError::UnmatchedOpen) => never_negative(p) && depth(p, p.len() as int) > 0,
        Err(_) => false,
    }
}

/// The two resolution outcomes `r1` and `r2` are the same: the same error, or
/// tables with the same entries.
pub open spec fn same_resolution(r1: Result<Vec<usize>, BfError>, r2: Result<Vec<usize>, BfError>) -> bool {
    match (r1, r2) {
        (Ok(t1), Ok(t2)) => t1@ == t2@,
        (Err(e1), Err(e2)) => e1 == e2,
        _ => false,
    }
}

/// A bracket has exactly one partner: a `[` does not close at two places, and a
/// `]` does not close two different `[`.
pub proof fn lemma_pair_unique(p: Seq<u8>, i: int, j: int, i2: int, j2: int)
    ensures
        is_pair(p, i, j) && is_pair(p, i, j2) ==> j == j2,
        is_pair(p, i, j) && is_pair(p, i2, j) ==> i == i2,
{
    if is_pair(p, i, j) && is_pair(p, i, j2) && j != j2 {
        if j < j2 {
            assert(depth(p, j + 1) > depth(p, i));
        } else {
            assert(depth(p, j2 + 1) > depth(p, i));
        }
    }
    if is_pair(p, i, j) && is_pair(p, i2, j) && i != i2 {
        if i < i2 {
            assert(depth(p, i2) > depth(p, i));
        } else {
            assert(depth(p, i) > depth(p, i2));
        }
    }
}

/// The jump table is a bijection on the bracket positions: following it twice
/// from any bracket comes back to that bracket.
pub proof fn lemma_table_involution(p: Seq<u8>, t: Seq<usize>)
    requires
        resolves(p, t),
    ensures
        forall|i: int|
            0 <= i < p.len() && (p[i] == OPEN || p[i] == CLOSE) ==> #[trigger] t[t[i] as int] == i,
{
    assert forall|i: int|
        0 <= i < p.len() && (p[i] == OPEN || p[i] == CLOSE) implies #[trigger] t[t[i] as int]
        == i by {
        let j = t[i] as int;
        if p[i] == OPEN {
            assert(is_pair(p, i, j));
            assert(is_pair(p, t[j] as int, j));
            lemma_pair_unique(p, i, j, t[j] as int, j);
        } else {
            assert(is_pair(p, j, i));
            assert(is_pair(p, j, t[j] as int));
            lemma_pair_unique(p, j, i, j, t[j] as int);
        }
    }
}

/// A program has at most one jump table.
pub proof fn lemma_table_unique(p: Seq<u8>, t1: Seq<usize>, t2: Seq<usize>)
    requires
        resolves(p, t1),
        resolves(p, t2),
    ensures
        t1 == t2,
{
    assert forall|i: int| 0 <= i < p.len() implies t1[i] == t2[i] by {
        if p[i] == OPEN {
            lemma_pair_unique(p, i, t1[i] as int, i, t2[i] as int);
        } else if p[i] == CLOSE {
            lemma_pair_unique(p, t1[i] as int, i, t2[i] as int, i);
        }
    }
    assert(t1 =~= t2);
}

/// The jump table of `p`, where it has one.
pub open spec fn jump_table(p: Seq<u8>) -> Seq<usize> {
    choose|t: Seq<usize>| resolves(p, t)
}

/// Any table that resolves `p` is its jump table.
pub proof fn lemma_jump_table(p: Seq<u8>, t: Seq<usize>)
    requires
        resolves(p, t),
    ensures
        jump_table(p) == t,
{
    lemma_table_unique(p, jump_table(p), t);
}

/// Resolution depends on the program alone: two resolutions of the same
/// program give the same table, or fail with the same error.
pub proof fn lemma_resolution_deterministic(
    p: Seq<u8>,
    r1: Result<Vec<usize>, BfError>,
    r2: Result<Vec<usize>, BfError>,
)
    requires
        resolution_result(p, r1),
        resolution_result(p, r2),
    ensures
        same_resolution(r1, r2),
{
    match (r1, r2) {
        (Ok(t1), Ok(t2)) => {
            lemma_table_unique(p, t1@, t2@);
        },
        (Ok(t1), Err(e)) => {
            lemma_no_outcome_overlap(p);
        },
        (Err(e), Ok(t2)) => {
            lemma_no_outcome_overlap(p);
        },
        (Err(e1), Err(e2)) => {
            lemma_no_outcome_overlap(p);
            if let (
                BfError::MismatchedClose { position: a },
                BfError::MismatchedClose { position: b },
            ) = (e1, e2) {
                if a < b {
                    assert(depth(p, a + 1) >= 0);
                } else if b < a {
                    assert(depth(p, b + 1) >= 0);
                }
            }
        },
    }
}

proof fn lemma_no_outcome_overlap(p: Seq<u8>)
    ensures
        forall|pos: int| first_excess_close(p, pos) ==> !never_negative(p),
{
    assert forall|pos: int| first_excess_close(p, pos) implies !never_negative(p) by {
        assert(depth(p, pos + 1) < 0);
    }
}

/// A program made only of `]` fails on its very first byte, with no table to
/// run against.
pub proof fn lemma_lone_closers_fail(p: Seq<u8>, r: Result<Vec<usize>, BfError>)
    requires
        p.len() > 0,
        forall|i: int| 0 <= i < p.len() ==> p[i] == CLOSE,
        resolution_result(p, r),
    ensures
        r == Err::<Vec<usize>, BfError>(BfError::MismatchedClose { position: 0 }),
{
    assert(depth(p, 1) == -1) by {
        lemma_depth_step(p, 0);
    }
    assert(first_excess_close(p, 0));
    let expected = Err::<Vec<usize>, BfError>(BfError::MismatchedClose { position: 0 });
    lemma_resolution_deterministic(p, r, expected);
}

proof fn lemma_depth_step(p: Seq<u8>, k: int)
    requires
        0 <= k < p.len(),
    ensures
        depth(p, k + 1) == depth(p, k) + depth_delta(p[k]),
{
}

/// Builds the jump table of `bytecode` in one left-to-right scan, or reports
/// the first bracket that does not match.
pub fn gather_matching_brackets(bytecode: &Vec<u8>) -> (r: Result<Vec<usize>, BfError>)
    ensures
        resolution_result(bytecode@, r),
{
    let ghost p = bytecode@;
    let n = bytecode.len();
    let mut pending: Vec<usize> = Vec::with_capacity(n / 2);
    let mut table: Vec<usize> = vec![0usize; n];
    let mut idx: usize = 0;
    while idx < n
        invariant
            p == bytecode@,
            n == p.len(),
            0 <= idx <= n,
            table@.len() == n,
            forall|k: int| 0 <= k <= idx ==> depth(p, k) >= 0,
            pending@.len() == depth(p, idx as int),
            forall|m: int|
                0 <= m < pending@.len() ==> {
                    &&& (#[trigger] pending@[m]) < idx
                    &&& p[pending@[m] as int] == OPEN
                    &&& depth(p, pending@[m] as int) == m
                    &&& forall|k: int| pending@[m] < k <= idx ==> #[trigger] depth(p, k) > m
                },
            forall|i: int|
                0 <= i < idx ==> {
                    &&& p[i] == OPEN ==> (is_pair(p, i, #[trigger] table@[i] as int) || exists|
                        m: int,
                    |
                        0 <= m < pending@.len() && pending@[m] == i)
                    &&& p[i] == CLOSE ==> is_pair(p, table@[i] as int, i)
                },
            forall|i: int|
                0 <= i < n && p[i] != OPEN && p[i] != CLOSE ==> #[trigger] table@[i] == 0,
        decreases n - idx,
    {
        proof {
            lemma_depth_step(p, idx as int);
        }
        let ghost before = pending@;
        let op = bytecode[idx];
        if op == OPEN {
            pending.push(idx);
            assert forall|i: int| 0 <= i < idx + 1 && p[i] == OPEN implies is_pair(
                p,
                i,
                #[trigger] table@[i] as int,
            ) || exists|m: int| 0 <= m < pending@.len() && pending@[m] == i by {
                if i == idx {
                    assert(pending@[before.len() as int] == i);
                } else if !is_pair(p, i, table@[i] as int) {
                    let m = choose|m: int| 0 <= m < before.len() && before[m] == i;
                    assert(pending@[m] == i);
                }
            }
        } else if op == CLOSE {
            match pending.pop() {
                None => {
                    return Err(BfError::MismatchedClose { position: idx });
                },
                Some(open) => {
                    let ghost top = before.len() - 1;
                    assert(before[top] == open);
                    table.set(open, idx);
                    table.set(idx, open);
                    assert(is_pair(p, open as int, idx as int));
                    assert forall|i: int| 0 <= i < idx + 1 && p[i] == OPEN implies is_pair(
                        p,
                        i,
                        #[trigger] table@[i] as int,
                    ) || exists|m: int| 0 <= m < pending@.len() && pending@[m] == i by {
                        if i != open && !is_pair(p, i, table@[i] as int) {
                            let m = choose|m: int| 0 <= m < before.len() && before[m] == i;
                            assert(m != top);
                            assert(pending@[m] == i);
                        }
                    }
                },
            }
        }
        idx = idx + 1;
    }
    if pending.len() > 0 {
        return Err(BfError::UnmatchedOpen);
    }
    Ok(table)
}

} // verus!
