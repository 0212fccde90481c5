use vstd::prelude::*;
use std::collections::HashMap;
use crate::jumps::{
    balanced, depth, first_unmatched_end, innermost_unclosed_start, is_bracket,
    jumps_resolved, matched, never_underflows,
};
use crate::loader::{ops_of, tokenize, LoadError, MAX_PROGRAM_OPS};
use crate::opcodes::Opcodes;
use vstd::arithmetic::div_mod::{lemma_add_mod_noop, lemma_mod_add_multiples_vanish, lemma_small_mod};

verus! {

broadcast use vstd::std_specs::hash::group_hash_axioms;

/// Number of cells on the tape.
pub const TAPE_LEN: usize = 65536;

/// The pointer after one move forward: the tape is circular.
pub open spec fn next_ptr(p: int) -> int {
    (p + 1) % (TAPE_LEN as int)
}

/// The pointer after one move backward: the tape is circular.
pub open spec fn prev_ptr(p: int) -> int {
    (p - 1 + TAPE_LEN) % (TAPE_LEN as int)
}

/// A cell after one increment, wrapping at 256.
pub open spec fn inc_cell(c: u8) -> u8 {
    ((c + 1) % 256) as u8
}

/// A cell after one decrement, wrapping at 0.
pub open spec fn dec_cell(c: u8) -> u8 {
    ((c + 255) % 256) as u8
}

/// The pointer after `n` moves forward from `p`.
pub open spec fn forward_moves(p: int, n: nat) -> int
    decreases n,
{
    if n == 0 {
        p
    } else {
        next_ptr(forward_moves(p, (n - 1) as nat))
    }
}

/// A cell after `n` increments from `c`.
pub open spec fn increments(c: u8, n: nat) -> u8
    decreases n,
{
    if n == 0 {
        c
    } else {
        inc_cell(increments(c, (n - 1) as nat))
    }
}

proof fn lemma_forward_moves_mod(p: int, n: nat)
    requires
        0 <= p < TAPE_LEN,
    ensures
        forward_moves(p, n) == (p + n) % (TAPE_LEN as int),
    decreases n,
{
    if n > 0 {
        lemma_forward_moves_mod(p, (n - 1) as nat);
        lemma_add_mod_noop(p + n - 1, 1, TAPE_LEN as int);
    } else {
        lemma_small_mod(p as nat, TAPE_LEN as nat);
    }
}

proof fn lemma_increments_mod(c: u8, n: nat)
    ensures
        increments(c, n) == (c + n) % 256,
    decreases n,
{
    if n > 0 {
        lemma_increments_mod(c, (n - 1) as nat);
        lemma_add_mod_noop(c + n - 1, 1, 256);
    } else {
        lemma_small_mod(c as nat, 256);
    }
}

/// The tape is circular: one move backward then one move forward returns the
/// pointer to where it was, and so does a full turn of `TAPE_LEN` forward
/// moves.
pub proof fn lemma_pointer_wraparound(p: int)
    requires
        0 <= p < TAPE_LEN,
    ensures
        next_ptr(prev_ptr(p)) == p,
        forward_moves(p, TAPE_LEN as nat) == p,
{
    lemma_forward_moves_mod(p, TAPE_LEN as nat);
    lemma_mod_add_multiples_vanish(p, TAPE_LEN as int);
    lemma_small_mod(p as nat, TAPE_LEN as nat);
}

/// Running a backward move and then a forward move leaves the pointer where
/// it was.
pub proof fn lemma_back_and_forth(m: MachineState)
    requires
        m.wf(),
        m.pc + 1 < m.program.len(),
        m.program[m.pc] == Opcodes::DecPtr,
        m.program[m.pc + 1] == Opcodes::IncPtr,
    ensures
        m.advance().advance().ptr == m.ptr,
        m.advance().advance().pc == m.pc + 2,
        m.advance().advance().tape == m.tape,
{
    lemma_pointer_wraparound(m.ptr);
}

/// Cells wrap at eight bits: 256 increments give back the starting value, and
/// a decrement of 0 gives 255.
pub proof fn lemma_cell_wraparound(c: u8)
    ensures
        increments(c, 256) == c,
        dec_cell(0) == 255,
{
    lemma_increments_mod(c, 256);
    lemma_mod_add_multiples_vanish(c as int, 256);
    lemma_small_mod(c as nat, 256);
}

/// What a single step reports to whoever drives the interpreter.
#[derive(Clone, Copy, Debug, PartialEq, Eq, Structural)]
pub enum StepOutcome {
    /// The program counter is past the last instruction.
    Halted,
    /// An instruction without input or output ran.
    Executed,
    /// An output instruction ran and this byte is to be written.
    Output(u8),
    /// The current instruction reads a byte; nothing ran. Hand it over with
    /// `feed`.
    NeedsInput,
}

/// The abstract state of an interpreter.
pub struct MachineState {
    pub program: Seq<Opcodes>,
    pub jumps: Map<usize, usize>,
    pub tape: Seq<u8>,
    pub ptr: int,
    pub pc: int,
}

impl MachineState {
    /// The tape has its fixed length, the pointer and the program counter are
    /// in range, and the jump table pairs the program's brackets.
    pub open spec fn wf(self) -> bool {
        &&& self.tape.len() == TAPE_LEN
        &&& 0 <= self.ptr < TAPE_LEN
        &&& 0 <= self.pc <= self.program.len()
        &&& balanced(self.program)
        &&& jumps_resolved(self.program, self.jumps)
    }

    pub open spec fn halted(self) -> bool {
        self.pc >= self.program.len()
    }

    pub open spec fn current(self) -> Opcodes {
        self.program[self.pc]
    }

    pub open spec fn cell(self) -> u8 {
        self.tape[self.ptr]
    }

    pub open spec fn awaiting_input(self) -> bool {
        !self.halted() && self.current() == Opcodes::ReadByte
    }

    /// The state after the current instruction runs, for every instruction but
    /// input. A taken jump lands on the partner bracket, and the counter then
    /// moves past it.
    pub open spec fn advance(self) -> MachineState {
        let next = MachineState { pc: self.pc + 1, ..self };
        match self.current() {
            Opcodes::IncPtr => MachineState { ptr: next_ptr(self.ptr), ..next },
            Opcodes::DecPtr => MachineState { ptr: prev_ptr(self.ptr), ..next },
            Opcodes::IncByte => MachineState {
                tape: self.tape.update(self.ptr, inc_cell(self.cell())),
                ..next
            },
            Opcodes::DecByte => MachineState {
                tape: self.tape.update(self.ptr, dec_cell(self.cell())),
                ..next
            },
            Opcodes::LoopStart => if self.cell() == 0 {
                MachineState { pc: self.jumps[self.pc as usize] + 1, ..self }
            } else {
                next
            },
            Opcodes::LoopEnd => if self.cell() != 0 {
                MachineState { pc: self.jumps[self.pc as usize] + 1, ..self }
            } else {
                next
            },
            _ => next,
        }
    }

    /// The state after the current input instruction stores `byte`.
    pub open spec fn with_input(self, byte: u8) -> MachineState {
        MachineState { tape: self.tape.update(self.ptr, byte), pc: self.pc + 1, ..self }
    }
}

/// A program together with the machine that runs it: the tape, the data
/// pointer and the program counter.
pub struct Interpreter {
    ram: Vec<u8>,
    program: Vec<Opcodes>,
    jump_map: HashMap<usize, usize>,
    ptr: usize,
    pc: usize,
}

impl View for Interpreter {
    type V = MachineState;

    closed spec fn view(&self) -> MachineState {
        MachineState {
            program: self.program@,
            jumps: self.jump_map@,
            tape: self.ram@,
            ptr: self.ptr as int,
            pc: self.pc as int,
        }
    }
}

impl Interpreter {
    /// An interpreter with a zeroed tape, the pointer at cell 0 and an empty
    /// program.
    pub fn new() -> (r: Interpreter)
        ensures
            r@.wf(),
            r@.program.len() == 0,
            r@.jumps.dom().is_empty(),
            r@.tape == Seq::new(TAPE_LEN as nat, |i: int| 0u8),
            r@.ptr == 0,
            r@.pc == 0,
    {
        let ram: Vec<u8> = vec![0u8; TAPE_LEN];
        let r = Interpreter {
            ram,
            program: Vec::new(),
            jump_map: HashMap::new(),
            ptr: 0,
            pc: 0,
        };
        assert(r@.tape =~= Seq::new(TAPE_LEN as nat, |i: int| 0u8));
        r
    }
    /// Pairs every loop start of the program with its matching loop end, in
    /// both directions, by one scan with a stack of open loop starts. Fails on
    /// the first loop end with nothing to close, or else on the innermost loop
    /// start left open at the end.
    pub fn precompute_jumps(&mut self) -> (r: Result<(), LoadError>)
        ensures
            final(self)@.program == old(self)@.program,
            final(self)@.tape == old(self)@.tape,
            final(self)@.ptr == old(self)@.ptr,
            final(self)@.pc == old(self)@.pc,
            r is Ok <==> balanced(old(self)@.program),
            match r {
                Ok(_) => jumps_resolved(old(self)@.program, final(self)@.jumps),
                Err(LoadError::UnmatchedLoopEnd { position }) => first_unmatched_end(
                    old(self)@.program,
                    position as int,
                ),
                Err(LoadError::UnmatchedLoopStart { position }) => never_underflows(
                    old(self)@.program,
                ) && innermost_unclosed_start(old(self)@.program, position as int),
                Err(LoadError::TooManyOps) => false,
            },
    {
        let ghost p = self.program@;
        let mut stack: Vec<usize> = Vec::new();
        let mut jumps: HashMap<usize, usize> = HashMap::new();
        let mut pc: usize = 0;
        while pc < self.program.len()
            invariant
                self.program@ == p,
                0 <= pc <= p.len(),
                stack@.len() == depth(p, pc as int),
                forall|k: int| 0 <= k <= pc ==> depth(p, k) >= 0,
                forall|j: int|
                    0 <= j < stack@.len() ==> {
                        &&& #[trigger] stack@[j] < pc
                        &&& p[stack@[j] as int] == Opcodes::LoopStart
                        &&& depth(p, stack@[j] as int) == j
                        &&& forall|k: int| stack@[j] < k <= pc ==> depth(p, k) > j
                    },
                forall|i: usize| #[trigger]
                    jumps@.contains_key(i) <==> (i < pc && is_bracket(p[i as int])
                        && !stack@.contains(i)),
                forall|i: usize| #[trigger]
                    jumps@.contains_key(i) ==> {
                        &&& p[i as int] == Opcodes::LoopStart ==> matched(
                            p,
                            i as int,
                            jumps@[i] as int,
                        )
                        &&& p[i as int] == Opcodes::LoopEnd ==> matched(
                            p,
                            jumps@[i] as int,
                            i as int,
                        )
                        &&& jumps@.contains_key(jumps@[i])
                        &&& jumps@[jumps@[i]] == i
                    },
            decreases p.len() - pc,
        {
            let ghost old_stack = stack@;
            let ghost old_jumps = jumps@;
            match self.program[pc] {
                Opcodes::LoopStart => {
                    stack.push(pc);
                    assert forall|i: usize| #[trigger] stack@.contains(i) implies old_stack.contains(i) || i == pc by {
                        let j = choose|j: int| 0 <= j < stack@.len() && stack@[j] == i;
                        if j < old_stack.len() {
                            assert(old_stack[j] == i);
                        }
                    }
                    assert forall|i: usize| old_stack.contains(i) implies #[trigger] stack@.contains(i) by {
                        let j = choose|j: int| 0 <= j < old_stack.len() && old_stack[j] == i;
                        assert(stack@[j] == i);
                    }
                    assert(stack@[stack@.len() - 1] == pc);
                },
                Opcodes::LoopEnd => {
                    if stack.len() == 0 {
                        assert(depth(p, pc + 1) < 0);
                        return Err(LoadError::UnmatchedLoopEnd { position: pc });
                    }
                    let start = stack.pop().unwrap();
                    let ghost d = old_stack.len() as int;
                    assert(start == old_stack[d - 1]);
                    assert(matched(p, start as int, pc as int));
                    assert forall|i: usize| #[trigger] stack@.contains(i) <==> (old_stack.contains(i) && i != start) by {
                        if stack@.contains(i) {
                            let j = choose|j: int| 0 <= j < stack@.len() && stack@[j] == i;
                            assert(old_stack[j] == i);
                            assert(depth(p, old_stack[j] as int) == j);
                        }
                        if old_stack.contains(i) && i != start {
                            let j = choose|j: int| 0 <= j < old_stack.len() && old_stack[j] == i;
                            assert(stack@[j] == i);
                        }
                    }
                    jumps.insert(start, pc);
                    jumps.insert(pc, start);
                },
                _ => {},
            }
            pc = pc + 1;
        }
        if stack.len() > 0 {
            let top = stack.len() - 1;
            assert(depth(p, p.len() as int) > 0);
            return Err(LoadError::UnmatchedLoopStart { position: stack[top] });
        }
        self.jump_map = jumps;
        Ok(())
    }
    /// Reads source text into the program and pairs its loop brackets. The
    /// program counter goes back to the first instruction; the tape and the
    /// pointer are kept. On failure the interpreter holds an empty program.
    pub fn load_program(&mut self, source: &str) -> (r: Result<(), LoadError>)
        requires
            old(self)@.wf(),
        ensures
            final(self)@.wf(),
            final(self)@.tape == old(self)@.tape,
            final(self)@.ptr == old(self)@.ptr,
            final(self)@.pc == 0,
            r is Ok <==> ops_of(source@).len() <= MAX_PROGRAM_OPS && balanced(ops_of(source@)),
            r is Ok ==> final(self)@.program == ops_of(source@),
            r is Err ==> final(self)@.program.len() == 0,
            match r {
                Ok(_) => true,
                Err(LoadError::TooManyOps) => ops_of(source@).len() > MAX_PROGRAM_OPS,
                Err(LoadError::UnmatchedLoopEnd { position }) => ops_of(source@).len()
                    <= MAX_PROGRAM_OPS && first_unmatched_end(ops_of(source@), position as int),
                Err(LoadError::UnmatchedLoopStart { position }) => ops_of(source@).len()
                    <= MAX_PROGRAM_OPS && never_underflows(ops_of(source@))
                    && innermost_unclosed_start(ops_of(source@), position as int),
            },
    {
        self.pc = 0;
        let ops = match tokenize(source) {
            Ok(ops) => ops,
            Err(e) => {
                self.program = Vec::new();
                self.jump_map = HashMap::new();
                return Err(e);
            },
        };
        self.program = ops;
        match self.precompute_jumps() {
            Ok(()) => Ok(()),
            Err(e) => {
                self.program = Vec::new();
                self.jump_map = HashMap::new();
                Err(e)
            },
        }
    }

    /// Runs the current instruction unless it reads input. Output is handed
    /// back to the caller, who writes it; an input instruction is left for
    /// `feed`.
    pub fn step(&mut self) -> (r: StepOutcome)
        requires
            old(self)@.wf(),
        ensures
            final(self)@.wf(),
            old(self)@.halted() ==> r == StepOutcome::Halted && final(self)@ == old(self)@,
            old(self)@.awaiting_input() ==> r == StepOutcome::NeedsInput && final(self)@ == old(
                self,
            )@,
            !old(self)@.halted() && old(self)@.current() == Opcodes::WriteByte ==> r
                == StepOutcome::Output(old(self)@.cell()) && final(self)@ == old(self)@.advance(),
            !old(self)@.halted() && old(self)@.current() != Opcodes::WriteByte && old(
                self,
            )@.current() != Opcodes::ReadByte ==> r == StepOutcome::Executed && final(self)@
                == old(self)@.advance(),
    {
        if self.pc >= self.program.len() {
            return StepOutcome::Halted;
        }
        let ptr = self.ptr;
        match self.program[self.pc] {
            Opcodes::IncPtr => {
                self.ptr = if ptr == TAPE_LEN - 1 {
                    0
                } else {
                    ptr + 1
                };
            },
            Opcodes::DecPtr => {
                self.ptr = if ptr == 0 {
                    TAPE_LEN - 1
                } else {
                    ptr - 1
                };
            },
            Opcodes::IncByte => {
                let value = self.ram[ptr];
                self.ram[ptr] = value.wrapping_add(1);
            },
            Opcodes::DecByte => {
                let value = self.ram[ptr];
                self.ram[ptr] = value.wrapping_sub(1);
            },
            Opcodes::WriteByte => {
                let value = self.ram[ptr];
                self.pc = self.pc + 1;
                return StepOutcome::Output(value);
            },
            Opcodes::ReadByte => {
                return StepOutcome::NeedsInput;
            },
            Opcodes::LoopStart => {
                if self.ram[ptr] == 0 {
                    self.pc = *self.jump_map.get(&self.pc).unwrap();
                }
            },
            Opcodes::LoopEnd => {
                if self.ram[ptr] != 0 {
                    self.pc = *self.jump_map.get(&self.pc).unwrap();
                }
            },
        }
        self.pc = self.pc + 1;
        StepOutcome::Executed
    }

    /// Stores `byte` in the current cell when the current instruction reads
    /// input, and moves past it. Otherwise nothing changes and the byte is
    /// refused.
    pub fn feed(&mut self, byte: u8) -> (accepted: bool)
        requires
            old(self)@.wf(),
        ensures
            final(self)@.wf(),
            accepted == old(self)@.awaiting_input(),
            accepted ==> final(self)@ == old(self)@.with_input(byte),
            !accepted ==> final(self)@ == old(self)@,
    {
        if self.pc >= self.program.len() {
            return false;
        }
        match self.program[self.pc] {
            Opcodes::ReadByte => {
                let ptr = self.ptr;
                self.ram[ptr] = byte;
                self.pc = self.pc + 1;
                true
            },
            _ => false,
        }
    }
    /// Number of instructions in the program.
    pub fn program_len(&self) -> (r: usize)
        ensures
            r == self@.program.len(),
    {
        self.program.len()
    }

    /// The instruction at `index`, if there is one.
    pub fn opcode_at(&self, index: usize) -> (r: Option<Opcodes>)
        ensures
            index < self@.program.len() ==> r == Some(self@.program[index as int]),
            index >= self@.program.len() ==> r is None,
    {
        if index < self.program.len() {
            Some(self.program[index])
        } else {
            None
        }
    }

    /// Number of entries in the jump table.
    pub fn jump_count(&self) -> (r: usize)
        ensures
            r == self@.jumps.len(),
    {
        self.jump_map.len()
    }

    /// The partner of the bracket at `index`, if the jump table holds one.
    pub fn jump_target(&self, index: usize) -> (r: Option<usize>)
        ensures
            self@.jumps.contains_key(index) ==> r == Some(self@.jumps[index]),
            !self@.jumps.contains_key(index) ==> r is None,
    {
        match self.jump_map.get(&index) {
            Some(target) => Some(*target),
            None => None,
        }
    }

    /// The data pointer.
    pub fn pointer(&self) -> (r: usize)
        ensures
            r == self@.ptr,
    {
        self.ptr
    }

    /// The program counter.
    pub fn counter(&self) -> (r: usize)
        ensures
            r == self@.pc,
    {
        self.pc
    }

    /// The cell at `index`, if it is on the tape.
    pub fn cell_at(&self, index: usize) -> (r: Option<u8>)
        ensures
            index < self@.tape.len() ==> r == Some(self@.tape[index as int]),
            index >= self@.tape.len() ==> r is None,
    {
        if index < self.ram.len() {
            Some(self.ram[index])
        } else {
            None
        }
    }

    /// Whether the program counter has run off the end of the program.
    pub fn is_halted(&self) -> (r: bool)
        ensures
            r == self@.halted(),
    {
        self.pc >= self.program.len()
    }
}

} // verus!
