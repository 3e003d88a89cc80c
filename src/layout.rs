//! The fixed memory layout shared by the host and the consumer process.

use vstd::prelude::*;

verus! {

/// One LED colour: three bytes, no alpha.
pub type Rgb = [u8; 3];

/// Sentinel that marks a segment as fully zero-initialised ("CHNI", little endian).
pub const MAGIC: u32 = 0x494E_4843;

/// A colour with every channel off.
pub open spec fn is_black(c: Rgb) -> bool {
    c[0] == 0 && c[1] == 0 && c[2] == 0
}

/// Every cell of a colour buffer is off.
pub open spec fn all_black(cells: Seq<Rgb>) -> bool {
    forall|k: int| 0 <= k < cells.len() ==> #[trigger] is_black(cells[k])
}

/// Merged input, written by the aggregation engine once per tick.
#[derive(Clone, Copy)]
pub struct InputState {
    pub slider_pressure: [u8; 32],
    /// Coin insertions seen so far, wrapping at 65536.
    pub coin_count: u16,
    /// IR beams, bit k for beam k + 1.
    pub ir_sensors: u8,
    /// Function buttons, bit 0 for FN1, bit 1 for FN2.
    pub fn_buttons: u8,
}

/// LED colours requested by the consumer.
#[derive(Clone, Copy)]
pub struct OutputState {
    pub board_1_billboard: [Rgb; 60],
    pub board_0_billboard: [Rgb; 50],
    pub board_0_air_tower: [Rgb; 3],
    pub board_1_air_tower: [Rgb; 3],
    pub slider: [Rgb; 31],
}

/// The whole shared record: readiness marker, input, output. Both processes
/// map it from this one definition. Rust's default layout does not promise
/// field offsets, so the fields of each record are declared in the order
/// the compiler places them, and the program that maps the record checks the
/// offsets it relies on when it is compiled.
#[derive(Clone, Copy)]
pub struct SharedState {
    pub m: u32,
    pub i: InputState,
    pub o: OutputState,
}

impl InputState {
    pub open spec fn is_zeroed(&self) -> bool {
        &&& self.ir_sensors == 0
        &&& self.fn_buttons == 0
        &&& self.coin_count == 0
        &&& forall|k: int| 0 <= k < 32 ==> #[trigger] self.slider_pressure[k] == 0
    }

    /// An input record with every field zero.
    pub fn zeroed() -> (r: InputState)
        ensures
            r.is_zeroed(),
    {
        InputState { slider_pressure: [0u8; 32], coin_count: 0, ir_sensors: 0, fn_buttons: 0 }
    }
}

impl OutputState {
    pub open spec fn is_zeroed(&self) -> bool {
        &&& all_black(self.board_0_billboard@)
        &&& all_black(self.board_0_air_tower@)
        &&& all_black(self.board_1_billboard@)
        &&& all_black(self.board_1_air_tower@)
        &&& all_black(self.slider@)
    }

    /// An output record with every LED off.
    pub fn zeroed() -> (r: OutputState)
        ensures
            r.is_zeroed(),
    {
        let off: Rgb = [0u8; 3];
        OutputState {
            board_0_billboard: [off; 50],
            board_0_air_tower: [off; 3],
            board_1_billboard: [off; 60],
            board_1_air_tower: [off; 3],
            slider: [off; 31],
        }
    }
}

impl SharedState {
    /// Input and output are all zero; says nothing of the marker.
    pub open spec fn body_zeroed(&self) -> bool {
        self.i.is_zeroed() && self.o.is_zeroed()
    }

    /// A record with every byte zero, the marker included.
    pub fn new_zeroed() -> (r: SharedState)
        ensures
            r.m == 0,
            r.body_zeroed(),
    {
        SharedState { m: 0, i: InputState::zeroed(), o: OutputState::zeroed() }
    }
}

} // verus!
