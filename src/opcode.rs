use vstd::prelude::*;

verus! {

/// `>`: move the cursor one cell right.
pub const RIGHT: u8 = 0x3e;

/// `<`: move the cursor one cell left.
pub const LEFT: u8 = 0x3c;

/// `+`: increment the current cell.
pub const INC: u8 = 0x2b;

/// `-`: decrement the current cell.
pub const DEC: u8 = 0x2d;

/// `.`: emit the current cell.
pub const OUTPUT: u8 = 0x2e;

/// `,`: read one byte into the current cell.
pub const INPUT: u8 = 0x2c;

/// `[`: open a loop.
pub const OPEN: u8 = 0x5b;

/// `]`: close a loop.
pub const CLOSE: u8 = 0x5d;

/// `b` is one of the eight instructions; every other byte is a no-op.
pub open spec fn is_command(b: u8) -> bool {
    b == RIGHT || b == LEFT || b == INC || b == DEC || b == OUTPUT || b == INPUT || b == OPEN
        || b == CLOSE
}

} // verus!
