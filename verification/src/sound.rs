//! Sound register state: a pure holder for the control, bias and FIFO words;
//! no active behavior is required of it here.

use vstd::prelude::*;

verus! {

pub struct Sound {
    /// Master control words: low, high, extended.
    pub io_soundcnt: Vec<u32>,
    /// Channel 1 control words: low, high, extended.
    pub io_soundcnt_1: Vec<u32>,
    /// Channel 2 control words: low, high.
    pub io_soundcnt_2: Vec<u32>,
    /// Channel 3 control words: low, high, extended.
    pub io_soundcnt_3: Vec<u32>,
    /// Channel 4 control words: low, high.
    pub io_soundcnt_4: Vec<u32>,
    pub io_bias: u16,
    pub io_fifo_a: u32,
    pub io_fifo_b: u32,
}

} // verus!
