use vstd::prelude::*;
use crate::opcodes::{decode, is_instruction, opcode_of, Opcodes};

verus! {

/// The largest number of instructions that a program may hold.
pub const MAX_PROGRAM_OPS: usize = 54000;

/// Why a program could not be loaded.
#[derive(Clone, Copy, Debug, PartialEq, Eq, Structural)]
pub enum LoadError {
    /// The source holds more instructions than `MAX_PROGRAM_OPS`.
    TooManyOps,
    /// The loop end at this instruction index has no loop start before it.
    UnmatchedLoopEnd { position: usize },
    /// The loop start at this instruction index is never closed.
    UnmatchedLoopStart { position: usize },
}

/// The opcodes of a source text, in order, with every other character dropped.
pub open spec fn ops_of(s: Seq<char>) -> Seq<Opcodes>
    decreases s.len(),
{
    if s.len() == 0 {
        Seq::empty()
    } else {
        let rest = ops_of(s.drop_last());
        match opcode_of(s.last()) {
            Some(op) => rest.push(op),
            None => rest,
        }
    }
}

proof fn lemma_ops_of_prefix_len(s: Seq<char>, i: int, j: int)
    requires
        0 <= i <= j <= s.len(),
    ensures
        ops_of(s.take(i)).len() <= ops_of(s.take(j)).len(),
    decreases j - i,
{
    if i < j {
        lemma_ops_of_prefix_len(s, i, j - 1);
        assert(s.take(j).drop_last() =~= s.take(j - 1));
    }
}

/// Characters that are not instructions leave the opcode sequence untouched:
/// a source yields exactly as many opcodes as it holds instruction symbols.
pub proof fn lemma_opcode_count(s: Seq<char>)
    ensures
        ops_of(s).len() == s.filter(|c: char| is_instruction(c)).len(),
    decreases s.len(),
{
    reveal(Seq::filter);
    if s.len() > 0 {
        lemma_opcode_count(s.drop_last());
    }
}

/// Reads source text into its opcode sequence. Fails when the source holds
/// more than `MAX_PROGRAM_OPS` instructions.
pub fn tokenize(source: &str) -> (r: Result<Vec<Opcodes>, LoadError>)
    ensures
        r is Ok <==> ops_of(source@).len() <= MAX_PROGRAM_OPS,
        r matches Ok(ops) ==> ops@ == ops_of(source@),
        r matches Err(e) ==> e == LoadError::TooManyOps,
{
    broadcast use vstd::string::axiom_spec_iter;
    let mut ops: Vec<Opcodes> = Vec::new();
    for c in it: source.chars()
        invariant
            it.seq() == source@,
            ops@ == ops_of(source@.take(it.index() as int)),
            ops@.len() <= MAX_PROGRAM_OPS,
    {
        let ghost i = it.index() as int;
        assert(source@.take(i + 1).drop_last() =~= source@.take(i));
        match decode(c) {
            Some(op) => {
                if ops.len() == MAX_PROGRAM_OPS {
                    proof {
                        lemma_ops_of_prefix_len(source@, i + 1, source@.len() as int);
                        assert(source@.take(source@.len() as int) =~= source@);
                    }
                    return Err(LoadError::TooManyOps);
                }
                ops.push(op);
            },
            None => {},
        }
    }
    assert(source@.take(source@.len() as int) =~= source@);
    Ok(ops)
}

} // verus!
