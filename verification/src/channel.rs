//! Channel map: pure addressing between a (multiplex line, multiplex
//! channel) pair and the flat key index used by the key table.

use vstd::prelude::*;

use crate::keystate::NUM_KEYS;

verus! {

/// Number of ADC input lines, one multiplexer on each.
pub const NUM_MUX_LINES: usize = 5;

/// Number of selectable channels per multiplexer.
pub const NUM_MUX_CHANNELS: usize = 16;

/// Flat key index of a physical position: line-major, sixteen channels per
/// line.
pub fn key_index(mux_line: usize, mux_channel: usize) -> (idx: usize)
    requires
        mux_line < NUM_MUX_LINES,
        mux_channel < NUM_MUX_CHANNELS,
    ensures
        idx == mux_line * NUM_MUX_CHANNELS + mux_channel,
        idx < NUM_KEYS,
{
    mux_line * NUM_MUX_CHANNELS + mux_channel
}

/// Multiplex line a flat key index belongs to.
pub fn mux_line_of(idx: usize) -> (line: usize)
    requires
        idx < NUM_KEYS,
    ensures
        line == idx as int / NUM_MUX_CHANNELS as int,
        line < NUM_MUX_LINES,
{
    idx / NUM_MUX_CHANNELS
}

/// Multiplexer channel a flat key index selects.
pub fn mux_channel_of(idx: usize) -> (ch: usize)
    requires
        idx < NUM_KEYS,
    ensures
        ch == idx as int % (NUM_MUX_CHANNELS as int),
        ch < NUM_MUX_CHANNELS,
{
    idx % NUM_MUX_CHANNELS
}

/// The two directions of the channel map invert each other: splitting a
/// flat index into its line and channel and recombining them gives the
/// index back.
pub proof fn lemma_channel_roundtrip(idx: int)
    requires
        0 <= idx < NUM_KEYS,
    ensures
        (idx / NUM_MUX_CHANNELS as int) * NUM_MUX_CHANNELS + idx % NUM_MUX_CHANNELS as int
            == idx,
{
}

} // verus!
