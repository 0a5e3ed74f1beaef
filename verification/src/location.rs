//! Where in a program's text a parse error lies: the line that holds an
//! offset, and the column in that line.
use vstd::prelude::*;

verus! {

/// The offset at which line `i` starts, each line being followed by one
/// newline character.
pub open spec fn line_start(lens: Seq<usize>, i: nat) -> nat
    decreases i,
{
    if i == 0 || i > lens.len() {
        0
    } else {
        line_start(lens, (i - 1) as nat) + lens[i - 1] as nat + 1
    }
}

/// Line `i` holds offset `loc`: it ends at or after `loc`.
pub open spec fn reaches(lens: Seq<usize>, i: nat, loc: nat) -> bool {
    line_start(lens, i) + lens[i as int] >= loc
}

/// The first line (counted from 0) that reaches offset `loc`, and the
/// column of `loc` in it; `None` when no line reaches it.
pub fn locate(lens: &Vec<usize>, loc: usize) -> (res: Option<(usize, usize)>)
    requires
        line_start(lens@, lens@.len()) <= usize::MAX,
    ensures
        match res {
            Some((i, col)) => {
                &&& i < lens@.len()
                &&& reaches(lens@, i as nat, loc as nat)
                &&& col == loc - line_start(lens@, i as nat)
                &&& forall|j: nat| j < i ==> !#[trigger] reaches(lens@, j, loc as nat)
            },
            None => forall|j: nat| j < lens@.len() ==> !#[trigger] reaches(lens@, j, loc as nat),
        },
{
    let mut n: usize = 0;
    let mut i: usize = 0;
    while i < lens.len()
        invariant
            i <= lens@.len(),
            n == line_start(lens@, i as nat),
            n <= loc,
            line_start(lens@, lens@.len()) <= usize::MAX,
            forall|j: nat| j < i ==> !#[trigger] reaches(lens@, j, loc as nat),
        decreases lens.len() - i,
    {
        proof {
            lemma_line_start_grows(lens@, (i + 1) as nat, lens@.len());
        }
        if n as u128 + lens[i] as u128 >= loc as u128 {
            return Some((i, loc - n));
        }
        n = n + lens[i] + 1;
        i = i + 1;
    }
    None
}

/// Later lines start later.
proof fn lemma_line_start_grows(lens: Seq<usize>, i: nat, k: nat)
    requires
        i <= k <= lens.len(),
    ensures
        line_start(lens, i) <= line_start(lens, k),
    decreases k - i,
{
    if i < k {
        lemma_line_start_grows(lens, i, (k - 1) as nat);
    }
}

} // verus!
