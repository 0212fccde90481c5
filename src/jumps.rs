use vstd::prelude::*;
use crate::opcodes::Opcodes;

verus! {

/// How an opcode changes the loop nesting depth.
pub open spec fn depth_delta(op: Opcodes) -> int {
    match op {
        Opcodes::LoopStart => 1,
        Opcodes::LoopEnd => -1,
        _ => 0,
    }
}

/// Loop starts minus loop ends among the first `k` opcodes of `p`.
pub open spec fn depth(p: Seq<Opcodes>, k: int) -> int
    decreases k,
{
    if k <= 0 {
        0
    } else {
        depth(p, k - 1) + depth_delta(p[k - 1])
    }
}

pub open spec fn is_bracket(op: Opcodes) -> bool {
    op == Opcodes::LoopStart || op == Opcodes::LoopEnd
}

/// No prefix of `p` closes more loops than it opens.
pub open spec fn never_underflows(p: Seq<Opcodes>) -> bool {
    forall|k: int| 0 <= k <= p.len() ==> depth(p, k) >= 0
}

/// Loop brackets nest like matched parentheses.
pub open spec fn balanced(p: Seq<Opcodes>) -> bool {
    never_underflows(p) && depth(p, p.len() as int) == 0
}

/// The loop start at `s` is closed by the loop end at `e`: `e` is the first
/// instruction after `s` that brings the depth back to where it was at `s`.
pub open spec fn matched(p: Seq<Opcodes>, s: int, e: int) -> bool {
    &&& 0 <= s < e < p.len()
    &&& p[s] == Opcodes::LoopStart
    &&& p[e] == Opcodes::LoopEnd
    &&& depth(p, e + 1) == depth(p, s)
    &&& forall|k: int| s < k <= e ==> depth(p, k) > depth(p, s)
}

/// `jumps` pairs every bracket of `p` with its partner, both ways, and holds
/// nothing else.
pub open spec fn jumps_resolved(p: Seq<Opcodes>, jumps: Map<usize, usize>) -> bool {
    &&& forall|i: usize| #[trigger]
        jumps.contains_key(i) <==> (i < p.len() && is_bracket(p[i as int]))
    &&& forall|i: usize| #[trigger]
        jumps.contains_key(i) ==> {
            &&& p[i as int] == Opcodes::LoopStart ==> matched(p, i as int, jumps[i] as int)
            &&& p[i as int] == Opcodes::LoopEnd ==> matched(p, jumps[i] as int, i as int)
            &&& jumps.contains_key(jumps[i])
            &&& jumps[jumps[i]] == i
        }
}

/// The loop end at `e` is the first one without a loop start to close.
pub open spec fn first_unmatched_end(p: Seq<Opcodes>, e: int) -> bool {
    &&& 0 <= e < p.len()
    &&& depth(p, e + 1) < 0
    &&& forall|k: int| 0 <= k <= e ==> depth(p, k) >= 0
}

/// The loop start at `s` is the innermost one left open at the end of `p`.
pub open spec fn innermost_unclosed_start(p: Seq<Opcodes>, s: int) -> bool {
    &&& 0 <= s < p.len()
    &&& p[s] == Opcodes::LoopStart
    &&& depth(p, s) == depth(p, p.len() as int) - 1
    &&& forall|k: int| s < k <= p.len() ==> depth(p, k) > depth(p, s)
}

/// Each bracket has a single partner, so a program determines its jump table.
pub proof fn lemma_partner_unique(p: Seq<Opcodes>, s1: int, e1: int, s2: int, e2: int)
    requires
        matched(p, s1, e1),
        matched(p, s2, e2),
        s1 == s2 || e1 == e2,
    ensures
        s1 == s2 && e1 == e2,
{
    if s1 == s2 && e1 < e2 {
        assert(depth(p, e1 + 1) > depth(p, s2));
    } else if s1 == s2 && e2 < e1 {
        assert(depth(p, e2 + 1) > depth(p, s1));
    } else if s1 < s2 {
        assert(depth(p, s2) > depth(p, s1));
    } else if s2 < s1 {
        assert(depth(p, s1) > depth(p, s2));
    }
}

/// A malformed program names one offending bracket only: the first loop end
/// with nothing to close, or else the innermost loop start left open.
pub proof fn lemma_unmatched_position_unique(p: Seq<Opcodes>, a: int, b: int)
    requires
        (first_unmatched_end(p, a) && first_unmatched_end(p, b)) || (
        innermost_unclosed_start(p, a) && innermost_unclosed_start(p, b)),
    ensures
        a == b,
{
    if first_unmatched_end(p, a) && first_unmatched_end(p, b) {
        if a < b {
            assert(depth(p, a + 1) >= 0);
        } else if b < a {
            assert(depth(p, b + 1) >= 0);
        }
    } else {
        if a < b {
            assert(depth(p, b) > depth(p, a));
        } else if b < a {
            assert(depth(p, a) > depth(p, b));
        }
    }
}

} // verus!
