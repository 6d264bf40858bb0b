use vstd::prelude::*;

use crate::brackets::{
    balanced, gather_matching_brackets, is_pair, lemma_pair_unique, resolution_result, resolves,
};
use crate::error::BfError;
use crate::opcode::{is_command, CLOSE, DEC, INC, INPUT, LEFT, OPEN, OUTPUT, RIGHT};

verus! {

/// The part of an interpreter that a step changes.
pub struct MachineState {
    /// Index of the next instruction.
    pub ip: int,
    /// Index of the current cell.
    pub cursor: int,
    /// The cells, in order.
    pub tape: Seq<u8>,
}

/// Where the cursor stands after `op`, on a ring of `size` cells.
pub open spec fn cursor_after(op: u8, cursor: int, size: int) -> int {
    if op == RIGHT {
        (cursor + 1) % size
    } else if op == LEFT {
        (cursor - 1) % size
    } else {
        cursor
    }
}

/// The current cell after `op`, where `input` is the byte that a `,` reads.
pub open spec fn cell_after(op: u8, cell: u8, input: Option<u8>) -> u8 {
    if op == INC {
        ((cell as int + 1) % 256) as u8
    } else if op == DEC {
        ((cell as int - 1) % 256) as u8
    } else if op == INPUT && input is Some {
        input->0
    } else {
        cell
    }
}

/// The next instruction after the one at `ip`, given the current cell: a loop
/// bracket whose test succeeds jumps just past its partner.
pub open spec fn ip_after(p: Seq<u8>, t: Seq<usize>, ip: int, cell: u8) -> int {
    if (p[ip] == OPEN && cell == 0) || (p[ip] == CLOSE && cell != 0) {
        t[ip] + 1
    } else {
        ip + 1
    }
}

/// The byte that the instruction at `s.ip` emits, if it is a `.`.
pub open spec fn output_of(p: Seq<u8>, s: MachineState) -> Option<u8> {
    if p[s.ip] == OUTPUT {
        Some(s.tape[s.cursor])
    } else {
        None
    }
}

/// One step of program `p` with jump table `t` from state `s`.
pub open spec fn step(p: Seq<u8>, t: Seq<usize>, s: MachineState, input: Option<u8>) -> MachineState {
    let op = p[s.ip];
    let cell = s.tape[s.cursor];
    MachineState {
        ip: ip_after(p, t, s.ip, cell),
        cursor: cursor_after(op, s.cursor, s.tape.len() as int),
        tape: s.tape.update(s.cursor, cell_after(op, cell, input)),
    }
}

/// The state after `k` steps that read no input, stopping once the program ends.
pub open spec fn run_for(p: Seq<u8>, t: Seq<usize>, s: MachineState, k: nat) -> MachineState
    decreases k,
{
    if k == 0 || !(0 <= s.ip < p.len()) {
        s
    } else {
        run_for(p, t, step(p, t, s, None), (k - 1) as nat)
    }
}

proof fn lemma_ring_step(c: int, size: int)
    requires
        0 <= c < size,
    ensures
        (c + 1) % size == (if c + 1 == size {
            0
        } else {
            c + 1
        }),
        (c - 1) % size == (if c == 0 {
            size - 1
        } else {
            c - 1
        }),
{
    assert((c + 1) % size == (if c + 1 == size { 0 } else { c + 1 })) by (nonlinear_arith)
        requires
            0 <= c < size,
    ;
    assert((c - 1) % size == (if c == 0 { size - 1 } else { c - 1 })) by (nonlinear_arith)
        requires
            0 <= c < size,
    ;
}

/// The tape is a ring: moving left from the first cell lands on the last, and
/// moving right from the last cell lands on the first.
pub proof fn lemma_cursor_ring(size: int)
    requires
        size > 0,
    ensures
        cursor_after(LEFT, 0, size) == size - 1,
        cursor_after(RIGHT, size - 1, size) == 0,
{
    lemma_ring_step(0, size);
    lemma_ring_step(size - 1, size);
}

/// Cells wrap modulo 256: incrementing 255 gives 0 and decrementing 0 gives 255.
pub proof fn lemma_cell_wraps(input: Option<u8>)
    ensures
        cell_after(INC, 255, input) == 0,
        cell_after(DEC, 0, input) == 255,
{
}

/// The machine is inside the loop from `i` to `j` over a non-zero cell.
pub open spec fn spinning(p: Seq<u8>, t: Seq<usize>, i: int, j: int, s: MachineState) -> bool {
    &&& resolves(p, t)
    &&& is_pair(p, i, j)
    &&& forall|m: int| i < m < j ==> !is_command(#[trigger] p[m])
    &&& 0 <= s.cursor < s.tape.len()
    &&& s.tape[s.cursor] != 0
    &&& i < s.ip <= j
}

proof fn lemma_spin_step(p: Seq<u8>, t: Seq<usize>, i: int, j: int, s: MachineState)
    requires
        spinning(p, t, i, j, s),
    ensures
        spinning(p, t, i, j, step(p, t, s, None)),
        step(p, t, s, None).cursor == s.cursor,
        step(p, t, s, None).tape == s.tape,
{
    let n = step(p, t, s, None);
    assert(n.tape =~= s.tape);
    if s.ip == j {
        assert(is_pair(p, t[j] as int, j));
        lemma_pair_unique(p, i, j, t[j] as int, j);
    } else {
        assert(!is_command(p[s.ip]));
    }
}

/// A loop whose body holds no instruction, entered over a non-zero cell, never
/// ends: however many steps are taken, the machine is still inside it, short
/// of the program's end.
pub proof fn lemma_empty_loop_spins(
    p: Seq<u8>,
    t: Seq<usize>,
    i: int,
    j: int,
    s: MachineState,
    k: nat,
)
    requires
        spinning(p, t, i, j, s),
    ensures
        spinning(p, t, i, j, run_for(p, t, s, k)),
        run_for(p, t, s, k).ip < p.len(),
    decreases k,
{
    if k > 0 {
        lemma_spin_step(p, t, i, j, s);
        lemma_empty_loop_spins(p, t, i, j, step(p, t, s, None), (k - 1) as nat);
    }
}

/// An interpreter for one program over a ring tape of byte cells.
pub struct Interpreter<'a> {
    bytecode: &'a Vec<u8>,
    ip: usize,
    memory: Vec<u8>,
    ptr: usize,
    matching_brackets: Vec<usize>,
    instructions_executed: u64,
}

impl<'a> View for Interpreter<'a> {
    type V = MachineState;

    closed spec fn view(&self) -> MachineState {
        MachineState { ip: self.ip as int, cursor: self.ptr as int, tape: self.memory@ }
    }
}

impl<'a> Interpreter<'a> {
    /// The program being run.
    pub closed spec fn program(&self) -> Seq<u8> {
        self.bytecode@
    }

    /// The program's jump table.
    pub closed spec fn table(&self) -> Seq<usize> {
        self.matching_brackets@
    }

    /// How many instructions have been executed.
    pub closed spec fn executed(&self) -> nat {
        self.instructions_executed as nat
    }

    /// The tape is a non-empty ring holding the cursor, the table belongs to
    /// the program, and the next instruction is in the program or just past it.
    pub open spec fn wf(&self) -> bool {
        &&& self@.tape.len() > 0
        &&& 0 <= self@.cursor < self@.tape.len()
        &&& balanced(self.program())
        &&& resolves(self.program(), self.table())
        &&& 0 <= self@.ip <= self.program().len()
    }

    /// The program has run to its end.
    pub open spec fn is_done(&self) -> bool {
        self@.ip >= self.program().len()
    }

    /// Index of the next instruction.
    pub fn ip(&self) -> (r: usize)
        ensures
            r == self@.ip,
    {
        self.ip
    }

    /// Index of the current cell.
    pub fn cursor(&self) -> (r: usize)
        ensures
            r == self@.cursor,
    {
        self.ptr
    }

    /// The cells of the tape.
    pub fn memory(&self) -> (r: &Vec<u8>)
        ensures
            r@ == self@.tape,
    {
        &self.memory
    }

    /// How many instructions have been executed.
    pub fn instructions_executed(&self) -> (r: u64)
        ensures
            r == self.executed(),
    {
        self.instructions_executed
    }

    /// Whether the program has run to its end.
    pub fn finished(&self) -> (r: bool)
        ensures
            r == self.is_done(),
    {
        self.ip >= self.bytecode.len()
    }

    /// Whether the next instruction is a `,`, which needs an input byte.
    pub fn wants_input(&self) -> (r: bool)
        ensures
            r == (!self.is_done() && self.program()[self@.ip] == INPUT),
    {
        self.ip < self.bytecode.len() && self.bytecode[self.ip] == INPUT
    }

    /// Resolves the brackets of `bytecode` and sets up `memory_size` zero
    /// cells with the cursor and the instruction pointer at zero.
    pub fn new(bytecode: &'a Vec<u8>, memory_size: usize) -> (r: Result<Self, BfError>)
        requires
            memory_size > 0,
        ensures
            match r {
                Ok(i) => {
                    &&& i.wf()
                    &&& i.program() == bytecode@
                    &&& i@ == (MachineState {
                        ip: 0,
                        cursor: 0,
                        tape: Seq::new(memory_size as nat, |k: int| 0u8),
                    })
                    &&& i.executed() == 0
                },
                Err(e) => resolution_result(bytecode@, Err(e)),
            },
    {
        let matching_brackets = match gather_matching_brackets(bytecode) {
            Ok(t) => t,
            Err(e) => {
                return Err(e);
            },
        };
        let memory = vec![0u8; memory_size];
        let r = Interpreter {
            bytecode,
            ip: 0,
            memory,
            ptr: 0,
            matching_brackets,
            instructions_executed: 0,
        };
        assert(r@.tape =~= Seq::new(memory_size as nat, |k: int| 0u8));
        Ok(r)
    }

    /// Executes the instruction at the instruction pointer. `input` is the
    /// byte that a `,` reads; a `,` with no byte fails and changes nothing.
    /// Returns the byte that a `.` emits.
    pub fn run_one(&mut self, input: Option<u8>) -> (r: Result<Option<u8>, BfError>)
        requires
            old(self).wf(),
            !old(self).is_done(),
            old(self).executed() < u64::MAX,
        ensures
            r is Err <==> (old(self).program()[old(self)@.ip] == INPUT && input is None),
            match r {
                Err(e) => e == BfError::InputExhausted && *final(self) == *old(self),
                Ok(out) => {
                    &&& final(self).wf()
                    &&& final(self).program() == old(self).program()
                    &&& final(self).table() == old(self).table()
                    &&& final(self)@ == step(old(self).program(), old(self).table(), old(self)@, input)
                    &&& final(self).executed() == old(self).executed() + 1
                    &&& out == output_of(old(self).program(), old(self)@)
                },
            },
    {
        let n = self.bytecode.len();
        let opcode = self.bytecode[self.ip];
        let ghost p = self.bytecode@;
        let ghost t = self.matching_brackets@;
        let ghost s0 = self@;
        let mut out: Option<u8> = None;
        let mut next = self.ip + 1;
        let len = self.memory.len();
        if opcode == RIGHT {
            proof {
                lemma_ring_step(self.ptr as int, len as int);
            }
            self.ptr = (self.ptr + 1) % len;
        } else if opcode == LEFT {
            proof {
                lemma_ring_step(self.ptr as int, len as int);
            }
            self.ptr = if self.ptr == 0 {
                len - 1
            } else {
                self.ptr - 1
            };
        } else if opcode == INC {
            let v = self.memory[self.ptr].wrapping_add(1);
            self.memory.set(self.ptr, v);
        } else if opcode == DEC {
            let v = self.memory[self.ptr].wrapping_sub(1);
            self.memory.set(self.ptr, v);
        } else if opcode == OUTPUT {
            out = Some(self.memory[self.ptr]);
        } else if opcode == INPUT {
            match input {
                Some(b) => {
                    self.memory.set(self.ptr, b);
                },
                None => {
                    return Err(BfError::InputExhausted);
                },
            }
        } else if opcode == OPEN {
            if self.memory[self.ptr] == 0 {
                next = self.matching_brackets[self.ip] + 1;
            }
        } else if opcode == CLOSE {
            if self.memory[self.ptr] != 0 {
                next = self.matching_brackets[self.ip] + 1;
            }
        }
        self.ip = next;
        assert(self@.tape =~= step(p, t, s0, input).tape);
        self.instructions_executed = self.instructions_executed + 1;
        Ok(out)
    }
}

} // verus!
