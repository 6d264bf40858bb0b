use vstd::prelude::*;
use vstd::string::StringSliceAdditionalSpecFns;

use crate::brackets::{
    balanced, gather_matching_brackets, jump_table, lemma_jump_table, resolution_result, resolves,
};
use crate::error::BfError;
use crate::opcode::{CLOSE, DEC, INC, INPUT, LEFT, OPEN, OUTPUT, RIGHT};

verus! {

/// Entry code: save the registers the program uses and keep the tape address,
/// passed as the single argument, in `rsi`.
pub const PREAMBLE: &'static str = "[BITS 64]\nstart:\npush rdi\npush rsi\npush rdx\nmov rsi, rdi\n";

/// Exit code: return zero with the saved registers restored.
pub const TRAILER: &'static str = "xor eax, eax\npop rdx\npop rsi\npop rdi\nret\n";

/// Start of a label name.
pub const LABEL: &'static str = "label_";

/// End of a label definition.
pub const LABEL_END: &'static str = ":\n";

/// End of a line.
pub const NEWLINE: &'static str = "\n";

/// Code for `>`.
pub const RIGHT_CODE: &'static str = "inc rsi\n";

/// Code for `<`.
pub const LEFT_CODE: &'static str = "dec rsi\n";

/// Code for `+`.
pub const INC_CODE: &'static str = "inc BYTE [rsi]\n";

/// Code for `-`.
pub const DEC_CODE: &'static str = "dec BYTE [rsi]\n";

/// Code for `.`: the `write` system call on standard output, one byte at `rsi`.
pub const OUTPUT_CODE: &'static str = "\nxor eax, eax\ninc eax\nxor edi, edi\ninc edi\nxor edx, edx\ninc edx\nsyscall\n";

/// Code for `,`: the `read` system call on standard input, one byte into `rsi`.
pub const INPUT_CODE: &'static str = "\nxor eax, eax\nxor edi, edi\nxor edx, edx\ninc edx\nsyscall\n";

/// Code for `[`, up to the number of the label to jump to.
pub const OPEN_CODE: &'static str = "\nmov dl, BYTE [rsi]\ntest dl, dl\nje label_";

/// Code for `]`, up to the number of the label to jump to.
pub const CLOSE_CODE: &'static str = "\nmov dl, BYTE [rsi]\ntest dl, dl\njne label_";

/// The byte of the `ret` instruction, used to fill the code region.
pub const RET: u8 = 0xc3;

/// How many code bytes are reserved for each instruction of the program.
pub const CODE_BYTES_PER_INSTRUCTION: usize = 32;

/// The lower-case hexadecimal digit for `d`.
pub open spec fn hex_digit(d: nat) -> u8 {
    if d < 10 {
        (0x30 + d) as u8
    } else {
        (0x61 + d - 10) as u8
    }
}

/// `n` in lower-case hexadecimal, without leading zeros.
pub open spec fn hex(n: nat) -> Seq<u8>
    decreases n,
{
    if n < 16 {
        seq![hex_digit(n)]
    } else {
        hex(n / 16).push(hex_digit(n % 16))
    }
}

/// The definition of the label numbered `n`.
pub open spec fn label(n: nat) -> Seq<u8> {
    LABEL.spec_bytes() + hex(n) + LABEL_END.spec_bytes()
}

/// The code for instruction `op`; `target` numbers the label that a bracket
/// jumps to.
pub open spec fn block(op: u8, target: nat) -> Seq<u8> {
    if op == RIGHT {
        RIGHT_CODE.spec_bytes()
    } else if op == LEFT {
        LEFT_CODE.spec_bytes()
    } else if op == INC {
        INC_CODE.spec_bytes()
    } else if op == DEC {
        DEC_CODE.spec_bytes()
    } else if op == OUTPUT {
        OUTPUT_CODE.spec_bytes()
    } else if op == INPUT {
        INPUT_CODE.spec_bytes()
    } else if op == OPEN {
        OPEN_CODE.spec_bytes() + hex(target) + NEWLINE.spec_bytes()
    } else if op == CLOSE {
        CLOSE_CODE.spec_bytes() + hex(target) + NEWLINE.spec_bytes()
    } else {
        Seq::empty()
    }
}

/// The labelled blocks of the first `k` instructions of `p`, each bracket
/// jumping to the label just after its partner.
pub open spec fn blocks(p: Seq<u8>, t: Seq<usize>, k: nat) -> Seq<u8>
    decreases k,
{
    if k == 0 {
        Seq::empty()
    } else {
        let i = (k - 1) as nat;
        blocks(p, t, i) + label(i) + block(p[i as int], (t[i as int] + 1) as nat)
    }
}

/// The assembly program for `p` with jump table `t`.
pub open spec fn assembly(p: Seq<u8>, t: Seq<usize>) -> Seq<u8> {
    PREAMBLE.spec_bytes() + blocks(p, t, p.len()) + label(p.len()) + TRAILER.spec_bytes()
}

fn append(out: &mut Vec<u8>, s: &str)
    ensures
        final(out)@ == old(out)@ + s.spec_bytes(),
{
    let b = s.as_bytes();
    let mut i: usize = 0;
    while i < b.len()
        invariant
            b@ == s.spec_bytes(),
            0 <= i <= b@.len(),
            out@ == old(out)@ + b@.subrange(0, i as int),
        decreases b@.len() - i,
    {
        out.push(b[i]);
        i = i + 1;
        assert(out@ =~= old(out)@ + b@.subrange(0, i as int));
    }
    assert(b@.subrange(0, b@.len() as int) =~= b@);
}

fn push_hex(out: &mut Vec<u8>, n: usize)
    ensures
        final(out)@ == old(out)@ + hex(n as nat),
    decreases n,
{
    if n >= 16 {
        push_hex(out, n / 16);
    }
    let d = n % 16;
    let digit: u8 = if d < 10 {
        0x30u8 + d as u8
    } else {
        0x61u8 + (d as u8 - 10)
    };
    out.push(digit);
    assert(out@ =~= old(out)@ + hex(n as nat));
}

fn push_label(out: &mut Vec<u8>, n: usize)
    ensures
        final(out)@ == old(out)@ + label(n as nat),
{
    append(out, LABEL);
    push_hex(out, n);
    append(out, LABEL_END);
    assert(out@ =~= old(out)@ + label(n as nat));
}

/// Writes the assembly program for `bytecode` with its jump table `table`:
/// the entry code, one labelled block per instruction, a final label and the
/// exit code.
pub fn emit_assembly(bytecode: &Vec<u8>, table: &Vec<usize>) -> (text: Vec<u8>)
    requires
        resolves(bytecode@, table@),
    ensures
        text@ == assembly(bytecode@, table@),
{
    let ghost p = bytecode@;
    let ghost t = table@;
    let n = bytecode.len();
    let mut out: Vec<u8> = Vec::new();
    append(&mut out, PREAMBLE);
    let mut idx: usize = 0;
    while idx < n
        invariant
            p == bytecode@,
            t == table@,
            n == p.len(),
            resolves(p, t),
            0 <= idx <= n,
            out@ == PREAMBLE.spec_bytes() + blocks(p, t, idx as nat),
        decreases n - idx,
    {
        let ghost before = out@;
        push_label(&mut out, idx);
        let op = bytecode[idx];
        if op == RIGHT {
            append(&mut out, RIGHT_CODE);
        } else if op == LEFT {
            append(&mut out, LEFT_CODE);
        } else if op == INC {
            append(&mut out, INC_CODE);
        } else if op == DEC {
            append(&mut out, DEC_CODE);
        } else if op == OUTPUT {
            append(&mut out, OUTPUT_CODE);
        } else if op == INPUT {
            append(&mut out, INPUT_CODE);
        } else if op == OPEN || op == CLOSE {
            if op == OPEN {
                append(&mut out, OPEN_CODE);
            } else {
                append(&mut out, CLOSE_CODE);
            }
            push_hex(&mut out, table[idx] + 1);
            append(&mut out, NEWLINE);
        }
        assert(out@ =~= before + label(idx as nat) + block(op, (t[idx as int] + 1) as nat));
        idx = idx + 1;
    }
    push_label(&mut out, n);
    append(&mut out, TRAILER);
    out
}

/// Resolves the brackets of `bytecode` and writes its assembly program, or
/// reports the bracket fault before any code is written.
pub fn compile_to_assembly(bytecode: &Vec<u8>) -> (r: Result<Vec<u8>, BfError>)
    ensures
        match r {
            Ok(text) => balanced(bytecode@) && text@ == assembly(bytecode@, jump_table(bytecode@)),
            Err(e) => resolution_result(bytecode@, Err(e)),
        },
{
    match gather_matching_brackets(bytecode) {
        Ok(table) => {
            proof {
                lemma_jump_table(bytecode@, table@);
            }
            Ok(emit_assembly(bytecode, &table))
        },
        Err(e) => Err(e),
    }
}

/// The size of the code region for a program of `program_len` instructions,
/// if it fits in a `usize`.
pub fn code_region_len(program_len: usize) -> (r: Option<usize>)
    ensures
        r == (if program_len * CODE_BYTES_PER_INSTRUCTION <= usize::MAX {
            Some((program_len * CODE_BYTES_PER_INSTRUCTION) as usize)
        } else {
            None
        }),
{
    if program_len <= usize::MAX / CODE_BYTES_PER_INSTRUCTION {
        Some(program_len * CODE_BYTES_PER_INSTRUCTION)
    } else {
        None
    }
}

/// The contents of a code region of `region_len` bytes: the machine code
/// `bin`, then `ret` instructions up to the end, so that a jump past the code
/// returns.
pub fn code_image(bin: &Vec<u8>, region_len: usize) -> (image: Vec<u8>)
    requires
        bin@.len() <= region_len,
    ensures
        image@ == bin@ + Seq::new((region_len - bin@.len()) as nat, |k: int| RET),
{
    let mut image: Vec<u8> = Vec::with_capacity(region_len);
    let mut i: usize = 0;
    while i < bin.len()
        invariant
            0 <= i <= bin@.len(),
            image@ == bin@.subrange(0, i as int),
        decreases bin@.len() - i,
    {
        image.push(bin[i]);
        i = i + 1;
        assert(image@ =~= bin@.subrange(0, i as int));
    }
    while i < region_len
        invariant
            bin@.len() <= i <= region_len,
            image@ == bin@ + Seq::new((i - bin@.len()) as nat, |k: int| RET),
        decreases region_len - i,
    {
        image.push(RET);
        i = i + 1;
        assert(image@ =~= bin@ + Seq::new((i - bin@.len()) as nat, |k: int| RET));
    }
    image
}

} // verus!
