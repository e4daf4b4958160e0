use vstd::prelude::*;

verus! {

/// Console output mode flag: the console handles control characters itself.
pub const ENABLE_PROCESSED_OUTPUT: u32 = 0x1;

/// Console output mode flag: the console interprets colour escape sequences.
pub const ENABLE_VIRTUAL_TERMINAL_PROCESSING: u32 = 0x4;

/// The output mode to give a Windows console so that coloured text shows: processed
/// output with escape sequences interpreted.
pub fn fix_conhost() -> (r: u32)
    ensures
        r == ENABLE_PROCESSED_OUTPUT | ENABLE_VIRTUAL_TERMINAL_PROCESSING,
        r & ENABLE_VIRTUAL_TERMINAL_PROCESSING != 0,
        r & ENABLE_PROCESSED_OUTPUT != 0,
{
    let r = ENABLE_PROCESSED_OUTPUT | ENABLE_VIRTUAL_TERMINAL_PROCESSING;
    assert(r == 5) by (bit_vector)
        requires
            r == 1u32 | 4u32,
    ;
    assert(r & 4 != 0 && r & 1 != 0) by (bit_vector)
        requires
            r == 5u32,
    ;
    r
}

} // verus!
