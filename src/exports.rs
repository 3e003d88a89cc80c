//! What the game's calls do to the shared record. Every operation takes the
//! record as `None` until it is published, and then does nothing.

use vstd::prelude::*;
use crate::device::{is_device_tick, DeviceCall, DeviceUpdate};
use crate::layout::{OutputState, Rgb, SharedState};

verus! {

/// Version of the call surface offered to the game.
pub const API_VERSION: u16 = 0x0102;

/// Colour cells the game hands over for board 0 (billboard, then air tower).
pub const BOARD_0_CELLS: usize = 53;

/// Colour cells the game hands over for board 1 (billboard, then air tower).
pub const BOARD_1_CELLS: usize = 63;

pub fn chuni_io_get_api_version() -> (r: u16)
    ensures
        r == API_VERSION,
{
    API_VERSION
}

/// Copies the function buttons and the IR beams into the caller's buffers.
pub fn chuni_io_jvs_poll(state: Option<&SharedState>, opbtn: &mut u8, beams: &mut u8)
    ensures
        state is None ==> *final(opbtn) == *old(opbtn) && *final(beams) == *old(beams),
        state matches Some(s) ==> *final(opbtn) == s.i.fn_buttons && *final(beams) == s.i.ir_sensors,
{
    if let Some(s) = state {
        *opbtn = s.i.fn_buttons;
        *beams = s.i.ir_sensors;
    }
}

/// Copies the coin counter into the caller's buffer.
pub fn chuni_io_jvs_read_coin_counter(state: Option<&SharedState>, total: &mut u16)
    ensures
        state is None ==> *final(total) == *old(total),
        state matches Some(s) ==> *final(total) == s.i.coin_count,
{
    if let Some(s) = state {
        *total = s.i.coin_count;
    }
}

/// The data the slider callback gets this round: the live pressure once the
/// record is published, nothing before.
pub fn slider_sample(state: Option<&SharedState>) -> (r: Option<[u8; 32]>)
    ensures
        state is None ==> r is None,
        state matches Some(s) ==> r == Some(s.i.slider_pressure),
{
    match state {
        Some(s) => Some(s.i.slider_pressure),
        None => None,
    }
}

/// How many colour cells the game passes for `board`; `None` for a board
/// that does not exist.
pub fn board_cells(board: u8) -> (r: Option<usize>)
    ensures
        board == 0 ==> r == Some(BOARD_0_CELLS),
        board == 1 ==> r == Some(BOARD_1_CELLS),
        board > 1 ==> r is None,
{
    if board == 0 {
        Some(BOARD_0_CELLS)
    } else if board == 1 {
        Some(BOARD_1_CELLS)
    } else {
        None
    }
}

/// `after` is `before` with the colours `rgb` of `board` written: the
/// billboard cells first, then the three air-tower cells. Nothing else changes.
pub open spec fn colors_set(before: OutputState, after: OutputState, board: u8, rgb: Seq<Rgb>) -> bool {
    if board == 0 {
        &&& after.board_0_billboard@ == rgb.subrange(0, 50)
        &&& after.board_0_air_tower@ == rgb.subrange(50, 53)
        &&& after.board_1_billboard == before.board_1_billboard
        &&& after.board_1_air_tower == before.board_1_air_tower
        &&& after.slider == before.slider
    } else {
        &&& after.board_1_billboard@ == rgb.subrange(0, 60)
        &&& after.board_1_air_tower@ == rgb.subrange(60, 63)
        &&& after.board_0_billboard == before.board_0_billboard
        &&& after.board_0_air_tower == before.board_0_air_tower
        &&& after.slider == before.slider
    }
}

/// Copies `src[offset..offset + N]` into `dst`.
fn copy_cells<const N: usize>(dst: &mut [Rgb; N], src: &[Rgb], offset: usize)
    requires
        offset + N <= src@.len(),
    ensures
        final(dst)@ == src@.subrange(offset as int, offset + N),
{
    let len = src.len();
    let mut k: usize = 0;
    while k < N
        invariant
            k <= N,
            len == src@.len(),
            offset + N <= src@.len(),
            forall|j: int| 0 <= j < k ==> #[trigger] dst@[j] == src@[offset + j],
        decreases N - k,
    {
        dst[k] = src[offset + k];
        k += 1;
    }
    assert(dst@ =~= src@.subrange(offset as int, offset + N));
}

/// Writes the colours of one board: 50 billboard and 3 air-tower cells for
/// board 0, 60 and 3 for board 1. A board that does not exist, a buffer
/// shorter than the board needs, or an unpublished record change nothing.
/// Returns whether the colours were written.
pub fn chuni_io_led_set_colors(state: Option<&mut SharedState>, board: u8, rgb: &[Rgb]) -> (r: bool)
    ensures
        r == (state is Some && (board == 0 && rgb@.len() >= BOARD_0_CELLS || board == 1
            && rgb@.len() >= BOARD_1_CELLS)),
        state matches Some(s) ==> {
            let s1 = *final(s);
            &&& s1.m == s.m
            &&& s1.i == s.i
            &&& r ==> colors_set(s.o, s1.o, board, rgb@)
            &&& !r ==> s1.o == s.o
        },
{
    match state {
        Some(s) => {
            if board == 0 && rgb.len() >= BOARD_0_CELLS {
                copy_cells(&mut s.o.board_0_billboard, rgb, 0);
                copy_cells(&mut s.o.board_0_air_tower, rgb, 50);
                true
            } else if board == 1 && rgb.len() >= BOARD_1_CELLS {
                copy_cells(&mut s.o.board_1_billboard, rgb, 0);
                copy_cells(&mut s.o.board_1_air_tower, rgb, 60);
                true
            } else {
                false
            }
        },
        None => false,
    }
}

/// Writes the 31 slider colours.
pub fn chuni_io_slider_set_leds(state: Option<&mut SharedState>, rgb: &[Rgb; 31])
    ensures
        state matches Some(s) ==> {
            let s1 = *final(s);
            &&& s1.m == s.m
            &&& s1.i == s.i
            &&& s1.o.slider == *rgb
            &&& s1.o.board_0_billboard == s.o.board_0_billboard
            &&& s1.o.board_0_air_tower == s.o.board_0_air_tower
            &&& s1.o.board_1_billboard == s.o.board_1_billboard
            &&& s1.o.board_1_air_tower == s.o.board_1_air_tower
        },
{
    if let Some(s) = state {
        s.o.slider = *rgb;
    }
}

/// Round trip of board 0: the 50 billboard cells followed by the 3 air-tower
/// cells read back from the record are the first 53 cells written, in order.
pub proof fn lemma_board_0_round_trip(before: OutputState, after: OutputState, rgb: Seq<Rgb>)
    requires
        rgb.len() >= BOARD_0_CELLS,
        colors_set(before, after, 0, rgb),
    ensures
        after.board_0_billboard@ + after.board_0_air_tower@ == rgb.take(53),
{
    assert(after.board_0_billboard@ + after.board_0_air_tower@ =~= rgb.take(53));
}

/// Forwarding half of the board 0 round trip: a device tick over the record
/// just written hands the device, as its left air tower, the three tower
/// cells written, in order.
pub proof fn lemma_board_0_tower_forwarded(
    before: OutputState,
    after: OutputState,
    rgb: Seq<Rgb>,
    made: Seq<DeviceCall>,
    out: Option<DeviceUpdate>,
)
    requires
        rgb.len() >= BOARD_0_CELLS,
        colors_set(before, after, 0, rgb),
        is_device_tick(after, made, out),
    ensures
        made[0] matches DeviceCall::SetLeds { tower_l, .. } && tower_l@ == rgb.subrange(50, 53),
{
    assert(crate::device::tick_call_matches(after, 0, made[0]));
}

} // verus!
