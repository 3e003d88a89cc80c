//! Wire format of the TASOLLER PLUS controller: the 36-byte input report
//! and the 114-byte LED frame.

use vstd::prelude::*;
use crate::layout::Rgb;

verus! {

/// Bytes in one input report.
pub const INPUT_REPORT_LEN: usize = 36;

/// Bytes in one LED frame.
pub const LED_FRAME_LEN: usize = 114;

/// Header of an LED frame: two marker bytes and the protocol version.
pub const LED_FRAME_MAGIC_0: u8 = 0x44;
pub const LED_FRAME_MAGIC_1: u8 = 0x4C;
pub const LED_PROTOCOL_VERSION: u8 = 0x02;

/// Bit `k` of `x`.
pub open spec fn bit(x: u8, k: u8) -> bool {
    (x >> k) & 1 == 1
}

/// The last input report as the device sent it.
#[derive(Clone, Copy)]
pub struct TasollerPlusInput {
    pub magic: [u8; 3],
    /// From the high bit down: FN1, FN2, then IR beams 1 to 6.
    pub ir_buttons: u8,
    pub slider_pressure: [u8; 32],
}

impl TasollerPlusInput {
    /// The report's bytes in wire order.
    pub open spec fn bytes(&self) -> Seq<u8> {
        self.magic@ + seq![self.ir_buttons] + self.slider_pressure@
    }

    /// A report with every byte zero.
    pub fn new_zeroed() -> (r: TasollerPlusInput)
        ensures
            forall|k: int| 0 <= k < INPUT_REPORT_LEN ==> #[trigger] r.bytes()[k] == 0,
    {
        TasollerPlusInput { magic: [0u8; 3], ir_buttons: 0, slider_pressure: [0u8; 32] }
    }

    /// Overwrites the report with the bytes received: byte k of `data` goes
    /// to byte k of the report, for the first 36 bytes; where fewer came,
    /// the rest of the report keeps its bytes.
    pub fn apply_report(&mut self, data: &[u8])
        ensures
            final(self).bytes().len() == INPUT_REPORT_LEN,
            forall|k: int|
                0 <= k < INPUT_REPORT_LEN ==> #[trigger] final(self).bytes()[k] == if k < data@.len() {
                    data@[k]
                } else {
                    old(self).bytes()[k]
                },
    {
        let len = data.len();
        let mut k: usize = 0;
        while k < 3 && k < len
            invariant
                len == data@.len(),
                k <= 3,
                k <= len,
                forall|j: int| 0 <= j < k ==> #[trigger] self.magic@[j] == data@[j],
                forall|j: int| k <= j < 3 ==> #[trigger] self.magic@[j] == old(self).magic@[j],
                self.ir_buttons == old(self).ir_buttons,
                self.slider_pressure == old(self).slider_pressure,
            decreases 3 - k,
        {
            self.magic[k] = data[k];
            k += 1;
        }
        if 3 < len {
            self.ir_buttons = data[3];
        }
        let mut k: usize = 0;
        while k < 32 && 4 + k < len
            invariant
                len == data@.len(),
                k <= 32,
                k == 0 || 4 + k <= len,
                forall|j: int| 0 <= j < k ==> #[trigger] self.slider_pressure@[j] == data@[4 + j],
                forall|j: int| k <= j < 32 ==> #[trigger] self.slider_pressure@[j] == old(self).slider_pressure@[j],
                forall|j: int| 0 <= j < 3 ==> #[trigger] self.magic@[j] == if j < len {
                    data@[j]
                } else {
                    old(self).magic@[j]
                },
                self.ir_buttons == if 3 < len { data@[3] } else { old(self).ir_buttons },
            decreases 32 - k,
        {
            self.slider_pressure[k] = data[4 + k];
            k += 1;
        }
        assert forall|k: int| 0 <= k < INPUT_REPORT_LEN implies #[trigger] self.bytes()[k] == if k
            < data@.len() {
            data@[k]
        } else {
            old(self).bytes()[k]
        } by {
            if k < 3 {
                assert(self.bytes()[k] == self.magic@[k]);
                assert(old(self).bytes()[k] == old(self).magic@[k]);
            } else if k == 3 {
                assert(self.bytes()[k] == self.ir_buttons);
                assert(old(self).bytes()[k] == old(self).ir_buttons);
            } else {
                assert(self.bytes()[k] == self.slider_pressure@[k - 4]);
                assert(old(self).bytes()[k] == old(self).slider_pressure@[k - 4]);
            }
        }
    }

    /// Function buttons and IR beams, in that order. Bit k of the function
    /// buttons is bit 7 - k of the report byte; bit k of the IR beams is
    /// bit 5 - k.
    pub fn buttons(&self) -> (r: (u8, u8))
        ensures
            r.0 < 4,
            r.1 < 64,
            forall|k: u8| k < 2 ==> bit(r.0, k) == bit(self.ir_buttons, (7 - k) as u8),
            forall|k: u8| k < 6 ==> bit(r.1, k) == bit(self.ir_buttons, (5 - k) as u8),
    {
        let b = self.ir_buttons;
        let fn_bits: u8 = ((b >> 7u8) & 1) | ((b >> 5u8) & 2);
        let ir_bits: u8 = ((b >> 5u8) & 1) | ((b >> 3u8) & 2) | ((b >> 1u8) & 4) | ((b << 1u8) & 8) | ((b
            << 3u8) & 16) | ((b << 5u8) & 32);
        assert(fn_bits < 4 && forall|k: u8| k < 2 ==> (fn_bits >> k) & 1 == (b >> ((7 - k) as u8)) & 1)
            by (bit_vector)
            requires
                fn_bits == ((b >> 7u8) & 1) | ((b >> 5u8) & 2),
        ;
        assert(ir_bits < 64 && forall|k: u8| k < 6 ==> (ir_bits >> k) & 1 == (b >> ((5 - k) as u8)) & 1)
            by (bit_vector)
            requires
                ir_bits == ((b >> 5u8) & 1) | ((b >> 3u8) & 2) | ((b >> 1u8) & 4) | ((b << 1u8) & 8) | ((b
                    << 3u8) & 16) | ((b << 5u8) & 32),
        ;
        (fn_bits, ir_bits)
    }
}

/// Bytes of colour cells that the game gives in blue, red, green order,
/// sent in red, green, blue order.
pub open spec fn slider_bytes(cells: Seq<Rgb>) -> Seq<u8>
    decreases cells.len(),
{
    if cells.len() == 0 {
        Seq::empty()
    } else {
        let c = cells.last();
        slider_bytes(cells.drop_last()) + seq![c[1], c[2], c[0]]
    }
}

/// Bytes of colour cells sent in the order given.
pub open spec fn cell_bytes(cells: Seq<Rgb>) -> Seq<u8>
    decreases cells.len(),
{
    if cells.len() == 0 {
        Seq::empty()
    } else {
        let c = cells.last();
        cell_bytes(cells.drop_last()) + seq![c[0], c[1], c[2]]
    }
}

/// The LED frame for the given colours.
pub open spec fn led_frame(slider: Seq<Rgb>, tower_l: Seq<Rgb>, tower_r: Seq<Rgb>) -> Seq<u8> {
    seq![LED_FRAME_MAGIC_0, LED_FRAME_MAGIC_1, LED_PROTOCOL_VERSION] + slider_bytes(slider) + cell_bytes(
        tower_l,
    ) + cell_bytes(tower_r)
}

proof fn lemma_cell_bytes_len(cells: Seq<Rgb>)
    ensures
        cell_bytes(cells).len() == 3 * cells.len(),
        slider_bytes(cells).len() == 3 * cells.len(),
    decreases cells.len(),
{
    if cells.len() > 0 {
        lemma_cell_bytes_len(cells.drop_last());
    }
}

/// Appends the bytes of `cells` to `out`, reordered as the slider needs
/// when `slider` holds.
fn push_cells<const N: usize>(out: &mut Vec<u8>, cells: &[Rgb; N], slider: bool)
    requires
        old(out)@.len() + 3 * N <= LED_FRAME_LEN,
    ensures
        final(out)@ == old(out)@ + if slider {
            slider_bytes(cells@)
        } else {
            cell_bytes(cells@)
        },
{
    let ghost start = out@;
    let mut k: usize = 0;
    proof {
        assert(cells@.take(0) =~= Seq::<Rgb>::empty());
        assert(out@ =~= start + Seq::<u8>::empty());
    }
    while k < N
        invariant
            k <= N,
            out@ == start + if slider {
                slider_bytes(cells@.take(k as int))
            } else {
                cell_bytes(cells@.take(k as int))
            },
        decreases N - k,
    {
        let c = cells[k];
        if slider {
            out.push(c[1]);
            out.push(c[2]);
            out.push(c[0]);
        } else {
            out.push(c[0]);
            out.push(c[1]);
            out.push(c[2]);
        }
        proof {
            assert(cells@.take(k + 1).drop_last() =~= cells@.take(k as int));
            assert(cells@.take(k + 1).last() == c);
            if slider {
                assert(out@ =~= start + slider_bytes(cells@.take(k + 1)));
            } else {
                assert(out@ =~= start + cell_bytes(cells@.take(k + 1)));
            }
        }
        k += 1;
    }
    assert(cells@.take(N as int) =~= cells@);
}

/// Encodes the colours for the device: header, 31 slider cells turned from
/// blue-red-green into red-green-blue, then both air towers as given.
pub fn encode_led_frame(slider: &[Rgb; 31], tower_l: &[Rgb; 3], tower_r: &[Rgb; 3]) -> (r: Vec<u8>)
    ensures
        r@ == led_frame(slider@, tower_l@, tower_r@),
        r@.len() == LED_FRAME_LEN,
{
    let mut out: Vec<u8> = Vec::new();
    out.push(LED_FRAME_MAGIC_0);
    out.push(LED_FRAME_MAGIC_1);
    out.push(LED_PROTOCOL_VERSION);
    proof {
        lemma_cell_bytes_len(slider@);
        lemma_cell_bytes_len(tower_l@);
        lemma_cell_bytes_len(tower_r@);
    }
    push_cells(&mut out, slider, true);
    push_cells(&mut out, tower_l, false);
    push_cells(&mut out, tower_r, false);
    assert(out@ =~= led_frame(slider@, tower_l@, tower_r@));
    out
}

} // verus!
