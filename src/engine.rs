//! The aggregation engine: polls every live device once per tick, merges
//! their readings into one input record and evicts devices that keep failing.

use vstd::prelude::*;
use vstd::arithmetic::div_mod::lemma_add_mod_noop;
use crate::device::{ticked_once, update_device, DeviceUpdate, InputDevice};
use crate::layout::{InputState, SharedState};
use std::sync::mpsc::Receiver;

verus! {

/// A device is evicted on reaching this many consecutive failed ticks.
pub const MAX_CONSECUTIVE_ERRORS: u32 = 10;

pub open spec fn max_u8(a: u8, b: u8) -> u8 {
    if a >= b { a } else { b }
}

/// Bitwise OR of the function buttons of every device that succeeded.
pub open spec fn merged_buttons(outs: Seq<Option<DeviceUpdate>>) -> u8
    decreases outs.len(),
{
    if outs.len() == 0 {
        0
    } else {
        let rest = merged_buttons(outs.drop_last());
        match outs.last() {
            Some(u) => rest | u.jvs.0,
            None => rest,
        }
    }
}

/// Bitwise OR of the IR beams of every device that succeeded.
pub open spec fn merged_beams(outs: Seq<Option<DeviceUpdate>>) -> u8
    decreases outs.len(),
{
    if outs.len() == 0 {
        0
    } else {
        let rest = merged_beams(outs.drop_last());
        match outs.last() {
            Some(u) => rest | u.jvs.1,
            None => rest,
        }
    }
}

/// Largest pressure at slider cell `c` over every device that succeeded.
pub open spec fn merged_cell(outs: Seq<Option<DeviceUpdate>>, c: int) -> u8
    decreases outs.len(),
{
    if outs.len() == 0 {
        0
    } else {
        let rest = merged_cell(outs.drop_last(), c);
        match outs.last() {
            Some(u) => max_u8(rest, u.val[c]),
            None => rest,
        }
    }
}

/// Whether any device that succeeded reports the coin signal.
pub open spec fn merged_coin(outs: Seq<Option<DeviceUpdate>>) -> bool
    decreases outs.len(),
{
    if outs.len() == 0 {
        false
    } else {
        let rest = merged_coin(outs.drop_last());
        match outs.last() {
            Some(u) => rest || u.coin,
            None => rest,
        }
    }
}

/// The coin counter after a tick: one more, wrapping, exactly on a rising edge.
pub open spec fn next_coin_count(count: u16, prev_coin: bool, coin: bool) -> u16 {
    if !prev_coin && coin {
        ((count + 1) % 0x1_0000) as u16
    } else {
        count
    }
}

/// `new` is the input record that a tick with outcomes `outs` writes over
/// `prev`, when the merged coin signal of the tick before was `prev_coin`.
pub open spec fn is_tick_input(
    new: InputState,
    prev: InputState,
    prev_coin: bool,
    outs: Seq<Option<DeviceUpdate>>,
) -> bool {
    &&& new.fn_buttons == merged_buttons(outs)
    &&& new.ir_sensors == merged_beams(outs)
    &&& forall|c: int| 0 <= c < 32 ==> #[trigger] new.slider_pressure[c] == merged_cell(outs, c)
    &&& new.coin_count == next_coin_count(prev.coin_count, prev_coin, merged_coin(outs))
}

proof fn lemma_take_step(outs: Seq<Option<DeviceUpdate>>, k: int)
    requires
        0 <= k < outs.len(),
    ensures
        outs.take(k + 1).drop_last() == outs.take(k),
        outs.take(k + 1).last() == outs[k],
        outs.take(k + 1).len() > 0,
{
    assert(outs.take(k + 1).drop_last() =~= outs.take(k));
}

/// Merges the outcomes of one tick, in registration order (`None` for a
/// device that failed), into `input`. Returns the merged coin signal, which
/// the next tick takes as `prev_coin`.
pub fn merge_tick(prev_coin: bool, outs: &Vec<Option<DeviceUpdate>>, input: &mut InputState) -> (coin: bool)
    ensures
        is_tick_input(*final(input), *old(input), prev_coin, outs@),
        coin == merged_coin(outs@),
{
    let mut buttons: u8 = 0;
    let mut beams: u8 = 0;
    let mut val: [u8; 32] = [0u8; 32];
    let mut coin = false;
    let mut k: usize = 0;
    proof {
        assert(outs@.take(0) =~= Seq::<Option<DeviceUpdate>>::empty());
    }
    while k < outs.len()
        invariant
            k <= outs.len(),
            buttons == merged_buttons(outs@.take(k as int)),
            beams == merged_beams(outs@.take(k as int)),
            coin == merged_coin(outs@.take(k as int)),
            forall|c: int| 0 <= c < 32 ==> #[trigger] val[c] == merged_cell(outs@.take(k as int), c),
        decreases outs.len() - k,
    {
        proof {
            lemma_take_step(outs@, k as int);
        }
        match &outs[k] {
            Some(u) => {
                buttons = buttons | u.jvs.0;
                beams = beams | u.jvs.1;
                coin = coin || u.coin;
                let mut c: usize = 0;
                while c < 32
                    invariant
                        0 <= k < outs.len(),
                        c <= 32,
                        outs@[k as int] == Some(*u),
                        forall|j: int| 0 <= j < c ==> #[trigger] val[j] == merged_cell(outs@.take(k + 1), j),
                        forall|j: int| c <= j < 32 ==> #[trigger] val[j] == merged_cell(outs@.take(k as int), j),
                    decreases 32 - c,
                {
                    proof {
                        lemma_take_step(outs@, k as int);
                    }
                    if u.val[c] > val[c] {
                        val[c] = u.val[c];
                    }
                    c += 1;
                }
            },
            None => {},
        }
        k += 1;
    }
    proof {
        assert(outs@.take(outs.len() as int) =~= outs@);
    }
    if !prev_coin && coin {
        input.coin_count = input.coin_count.wrapping_add(1);
    }
    input.fn_buttons = buttons;
    input.ir_sensors = beams;
    input.slider_pressure = val;
    coin
}


/// A device's failure counter after a tick in which it succeeded (`ok`) or failed.
pub open spec fn next_count(count: u32, ok: bool) -> int {
    if ok { 0 } else { count + 1 }
}

/// Whether a device with failure counter `count` stays live after the tick.
pub open spec fn survives(count: u32, ok: bool) -> bool {
    next_count(count, ok) < MAX_CONSECUTIVE_ERRORS
}

/// Every counter is below the eviction threshold.
pub open spec fn counts_below<D>(devs: Seq<(D, u32)>) -> bool {
    forall|k: int| 0 <= k < devs.len() ==> (#[trigger] devs[k]).1 < MAX_CONSECUTIVE_ERRORS
}

/// The devices that stay live after a tick, in order, with their new counters.
pub open spec fn after_tick<D>(devs: Seq<(D, u32)>, outs: Seq<Option<DeviceUpdate>>) -> Seq<(D, u32)>
    decreases devs.len(),
{
    if devs.len() == 0 {
        Seq::empty()
    } else {
        let rest = after_tick(devs.drop_last(), outs);
        let last = devs.last();
        let ok = outs[devs.len() - 1] is Some;
        if survives(last.1, ok) {
            rest.push((last.0, next_count(last.1, ok) as u32))
        } else {
            rest
        }
    }
}

proof fn lemma_after_tick_len<D>(devs: Seq<(D, u32)>, outs: Seq<Option<DeviceUpdate>>)
    ensures
        after_tick(devs, outs).len() <= devs.len(),
    decreases devs.len(),
{
    if devs.len() > 0 {
        lemma_after_tick_len(devs.drop_last(), outs);
    }
}

proof fn lemma_after_tick_counts<D>(devs: Seq<(D, u32)>, outs: Seq<Option<DeviceUpdate>>)
    ensures
        counts_below(after_tick(devs, outs)),
    decreases devs.len(),
{
    if devs.len() > 0 {
        lemma_after_tick_counts(devs.drop_last(), outs);
    }
}

/// Applies the eviction rule to the devices polled in one tick. A device
/// that succeeded (`Some` at its index in `outs`) has its counter reset to
/// 0; one that failed has it raised by 1 and is dropped when it reaches
/// `MAX_CONSECUTIVE_ERRORS`. The order of the survivors is kept.
pub fn retain_live<D>(polled: Vec<(D, u32)>, outs: &Vec<Option<DeviceUpdate>>) -> (r: Vec<(D, u32)>)
    requires
        polled.len() == outs.len(),
        counts_below(polled@),
    ensures
        r@ == after_tick(polled@, outs@),
        counts_below(r@),
{
    let ghost all = polled@;
    let mut pending = polled;
    let mut live: Vec<(D, u32)> = Vec::new();
    let mut k: usize = 0;
    proof {
        assert(all.take(0) =~= Seq::<(D, u32)>::empty());
        assert(pending@ =~= all.skip(0));
    }
    while pending.len() > 0
        invariant
            k + pending.len() == all.len(),
            all.len() == outs.len(),
            counts_below(all),
            pending@ =~= all.skip(k as int),
            live@ == after_tick(all.take(k as int), outs@),
        decreases pending.len(),
    {
        let (device, count) = pending.remove(0);
        proof {
            assert(all.take(k + 1).drop_last() =~= all.take(k as int));
            assert(all[k as int] == (device, count));
            assert(count < MAX_CONSECUTIVE_ERRORS);
        }
        let ok = outs[k].is_some();
        if ok {
            live.push((device, 0));
        } else if count + 1 < MAX_CONSECUTIVE_ERRORS {
            live.push((device, count + 1));
        }
        k += 1;
        proof {
            assert(pending@ =~= all.skip(k as int));
        }
    }
    proof {
        assert(all.take(k as int) =~= all);
        lemma_after_tick_counts(all, outs@);
    }
    live
}

/// The live device set, owned by the tick thread.
#[verifier::reject_recursive_types(D)]
pub struct DeviceCollection<D> {
    coin: bool,
    recv: Receiver<D>,
    devices: Vec<(D, u32)>,
}

/// `mid` is `start` followed by new devices with counter 0.
pub open spec fn extends_with_new<D>(start: Seq<(D, u32)>, mid: Seq<(D, u32)>) -> bool {
    &&& start.len() <= mid.len()
    &&& forall|k: int| 0 <= k < start.len() ==> #[trigger] mid[k] == start[k]
    &&& forall|k: int| start.len() <= k < mid.len() ==> (#[trigger] mid[k]).1 == 0
}

impl<D> DeviceCollection<D> {
    /// The live devices in registration order, each with its failure counter.
    pub closed spec fn live(&self) -> Seq<(D, u32)> {
        self.devices@
    }

    /// The channel new devices are taken from.
    pub closed spec fn receiver(&self) -> Receiver<D> {
        self.recv
    }

    /// The merged coin signal of the last tick.
    pub closed spec fn coin_level(&self) -> bool {
        self.coin
    }

    pub open spec fn wf(&self) -> bool {
        counts_below(self.live())
    }

    /// An engine with no devices that takes new ones from `recv`.
    pub fn new(recv: Receiver<D>) -> (r: Self)
        ensures
            r.live().len() == 0,
            !r.coin_level(),
            r.receiver() == recv,
            r.wf(),
    {
        DeviceCollection { coin: false, recv, devices: Vec::new() }
    }

    /// Number of live devices.
    pub fn len(&self) -> (r: usize)
        ensures
            r == self.live().len(),
    {
        self.devices.len()
    }

    /// Appends, with counter 0, every device waiting in the channel.
    fn accept_new_devices(&mut self)
        requires
            old(self).wf(),
        ensures
            final(self).wf(),
            final(self).coin == old(self).coin,
            final(self).recv == old(self).recv,
            extends_with_new(old(self).devices@, final(self).devices@),
    {
        let ghost start = self.devices@;
        while self.devices.len() < usize::MAX
            invariant
                counts_below(self.devices@),
                self.coin == old(self).coin,
                self.recv == old(self).recv,
                start == old(self).devices@,
                extends_with_new(start, self.devices@),
            decreases usize::MAX - self.devices.len(),
        {
            match self.recv.try_recv() {
                Ok(device) => {
                    self.devices.push((device, 0));
                },
                Err(_) => {
                    break;
                },
            }
        }
    }
}

/// One tick took the engine from `before` to `after` and the shared record
/// from `s0` to `s1`: the devices `mid` (those live before, then the newly
/// received ones) each had one device tick over the output record, in
/// order, which left them as `polled` with outcomes `outs`.
pub open spec fn is_tick<D: InputDevice>(
    before: DeviceCollection<D>,
    after: DeviceCollection<D>,
    s0: SharedState,
    s1: SharedState,
    mid: Seq<(D, u32)>,
    polled: Seq<(D, u32)>,
    outs: Seq<Option<DeviceUpdate>>,
) -> bool {
    &&& extends_with_new(before.live(), mid)
    &&& polled.len() == mid.len()
    &&& outs.len() == mid.len()
    &&& forall|k: int|
        0 <= k < mid.len() ==> (#[trigger] polled[k]).1 == mid[k].1 && ticked_once(
            mid[k].0,
            polled[k].0,
            s0.o,
            outs[k],
        )
    &&& after.live() == after_tick(polled, outs)
    &&& after.receiver() == before.receiver()
    &&& after.coin_level() == merged_coin(outs)
    &&& is_tick_input(s1.i, s0.i, before.coin_level(), outs)
    &&& s1.o == s0.o
    &&& s1.m == s0.m
}

impl<D: InputDevice> DeviceCollection<D> {
    /// One tick: take new devices from the channel, forward the requested
    /// LEDs to every live device and poll it, merge the readings of the
    /// devices that succeeded into the input record, and evict the devices
    /// that have now failed `MAX_CONSECUTIVE_ERRORS` ticks in a row.
    /// Returns how many devices were evicted.
    pub fn update_devices(&mut self, state: &mut SharedState) -> (evicted: usize)
        requires
            old(self).wf(),
        ensures
            final(self).wf(),
            exists|mid: Seq<(D, u32)>, polled: Seq<(D, u32)>, outs: Seq<Option<DeviceUpdate>>|
                #[trigger] is_tick(*old(self), *final(self), *old(state), *final(state), mid, polled, outs)
                    && evicted == mid.len() - final(self).live().len(),
    {
        self.accept_new_devices();
        let ghost mid_counts = self.devices@;

        let mut pending: Vec<(D, u32)> = Vec::new();
        std::mem::swap(&mut pending, &mut self.devices);
        let mut polled: Vec<(D, u32)> = Vec::new();
        let mut outs: Vec<Option<DeviceUpdate>> = Vec::new();
        let ghost n = pending.len();
        while pending.len() > 0
            invariant
                polled.len() + pending.len() == n,
                outs.len() == polled.len(),
                n == mid_counts.len(),
                counts_below(mid_counts),
                forall|k: int|
                    0 <= k < polled.len() ==> (#[trigger] polled@[k]).1 == mid_counts[k].1 && ticked_once(
                        mid_counts[k].0,
                        polled@[k].0,
                        state.o,
                        outs@[k],
                    ),
                forall|k: int| 0 <= k < pending.len() ==> #[trigger] pending@[k] == mid_counts[polled.len() + k],
                *state == *old(state),
            decreases pending.len(),
        {
            let (mut device, count) = pending.remove(0);
            let out = match update_device(&mut device, &state.o) {
                Ok(u) => Some(u),
                Err(_) => None,
            };
            polled.push((device, count));
            outs.push(out);
        }
        let ghost polled_view = polled@;
        let n_polled = polled.len();
        let prev_coin = self.coin;
        self.coin = merge_tick(prev_coin, &outs, &mut state.i);
        self.devices = retain_live(polled, &outs);
        proof {
            lemma_after_tick_len(polled_view, outs@);
        }
        let evicted = n_polled - self.devices.len();
        assert(is_tick(*old(self), *self, *old(state), *state, mid_counts, polled_view, outs@));
        evicted
    }
}

/// The merged coin signal of the tick before the last of `signals`, where
/// `prev` was the signal before the first.
pub open spec fn signal_before_last(prev: bool, signals: Seq<bool>) -> bool {
    if signals.len() <= 1 {
        prev
    } else {
        signals[signals.len() - 2]
    }
}

/// The coin counter after ticks with merged coin signals `signals`,
/// starting from `count` with `prev` as the signal before them.
pub open spec fn coin_count_after(count: u16, prev: bool, signals: Seq<bool>) -> u16
    decreases signals.len(),
{
    if signals.len() == 0 {
        count
    } else {
        next_coin_count(
            coin_count_after(count, prev, signals.drop_last()),
            signal_before_last(prev, signals),
            signals.last(),
        )
    }
}

/// Number of false-to-true transitions in `signals`, `prev` coming first.
pub open spec fn rising_edges(prev: bool, signals: Seq<bool>) -> nat
    decreases signals.len(),
{
    if signals.len() == 0 {
        0
    } else {
        rising_edges(prev, signals.drop_last()) + if !signal_before_last(prev, signals) && signals.last() {
            1nat
        } else {
            0nat
        }
    }
}

/// Over any run of ticks, the coin counter grows by the number of rising
/// edges of the merged coin signal, modulo 65536: sustained true and
/// true-to-false transitions add nothing.
pub proof fn lemma_coin_counts_rising_edges(count: u16, prev: bool, signals: Seq<bool>)
    ensures
        coin_count_after(count, prev, signals) as int == (count + rising_edges(prev, signals)) % 0x1_0000,
    decreases signals.len(),
{
    if signals.len() == 0 {
        assert((count as int) % 0x1_0000 == count as int) by (nonlinear_arith)
            requires
                0 <= count < 0x1_0000,
        ;
    } else {
        let p = signals.drop_last();
        lemma_coin_counts_rising_edges(count, prev, p);
        if p.len() > 0 {
            assert(signal_before_last(prev, signals) == p.last());
        }
        if !signal_before_last(prev, signals) && signals.last() {
            lemma_add_mod_noop(count + rising_edges(prev, p), 1, 0x1_0000);
        }
    }
}

/// Failed ticks at the end of `oks` (true for a tick the device succeeded).
pub open spec fn trailing_failures(oks: Seq<bool>) -> nat
    decreases oks.len(),
{
    if oks.len() == 0 || oks.last() {
        0
    } else {
        1 + trailing_failures(oks.drop_last())
    }
}

/// `oks` holds `n` failed ticks in a row.
pub open spec fn fails_in_a_row(oks: Seq<bool>, n: int) -> bool {
    exists|i: int| 0 <= i && i + n <= oks.len() && #[trigger] all_failed(oks, i, n)
}

pub open spec fn all_failed(oks: Seq<bool>, i: int, n: int) -> bool {
    forall|j: int| i <= j < i + n ==> !#[trigger] oks[j]
}

/// The failure counter of a device registered before ticks with outcomes
/// `oks`; `None` once it has been evicted.
pub open spec fn counter_after(oks: Seq<bool>) -> Option<u32>
    decreases oks.len(),
{
    if oks.len() == 0 {
        Some(0u32)
    } else {
        match counter_after(oks.drop_last()) {
            None => None,
            Some(c) => if survives(c, oks.last()) {
                Some(next_count(c, oks.last()) as u32)
            } else {
                None
            },
        }
    }
}

proof fn lemma_trailing_failed(oks: Seq<bool>)
    ensures
        trailing_failures(oks) <= oks.len(),
        all_failed(oks, oks.len() - trailing_failures(oks), trailing_failures(oks) as int),
    decreases oks.len(),
{
    if oks.len() > 0 && !oks.last() {
        let p = oks.drop_last();
        lemma_trailing_failed(p);
        assert forall|j: int|
            oks.len() - trailing_failures(oks) <= j < oks.len() implies !#[trigger] oks[j] by {
            if j < oks.len() - 1 {
                assert(p[j] == oks[j]);
            }
        }
    }
}

proof fn lemma_trailing_at_least(oks: Seq<bool>, n: int)
    requires
        0 <= n <= oks.len(),
        all_failed(oks, oks.len() - n, n),
    ensures
        trailing_failures(oks) >= n,
    decreases n,
{
    if n > 0 {
        let p = oks.drop_last();
        assert(!oks[oks.len() - 1]);
        assert forall|j: int| p.len() - (n - 1) <= j < p.len() implies !#[trigger] p[j] by {
            assert(!oks[j]);
        }
        lemma_trailing_at_least(p, n - 1);
    }
}

proof fn lemma_counter_after(oks: Seq<bool>)
    ensures
        counter_after(oks) == if fails_in_a_row(oks, MAX_CONSECUTIVE_ERRORS as int) {
            None::<u32>
        } else {
            Some(trailing_failures(oks) as u32)
        },
        !fails_in_a_row(oks, MAX_CONSECUTIVE_ERRORS as int) ==> trailing_failures(oks) < MAX_CONSECUTIVE_ERRORS,
    decreases oks.len(),
{
    let m = MAX_CONSECUTIVE_ERRORS as int;
    lemma_trailing_failed(oks);
    if trailing_failures(oks) >= m {
        let i = oks.len() - m;
        assert(all_failed(oks, i, m));
    }
    if oks.len() > 0 {
        let p = oks.drop_last();
        let b = oks.last();
        lemma_counter_after(p);
        if fails_in_a_row(p, m) {
            let i = choose|i: int| 0 <= i && i + m <= p.len() && #[trigger] all_failed(p, i, m);
            assert forall|j: int| i <= j < i + m implies !#[trigger] oks[j] by {
                assert(oks[j] == p[j]);
            }
            assert(all_failed(oks, i, m));
        } else {
            let t = trailing_failures(p);
            if fails_in_a_row(oks, m) {
                let i = choose|i: int| 0 <= i && i + m <= oks.len() && #[trigger] all_failed(oks, i, m);
                if i + m <= p.len() {
                    assert forall|j: int| i <= j < i + m implies !#[trigger] p[j] by {
                        assert(oks[j] == p[j]);
                    }
                    assert(all_failed(p, i, m));
                } else {
                    assert(!oks[oks.len() - 1]);
                    assert forall|j: int| p.len() - (m - 1) <= j < p.len() implies !#[trigger] p[j] by {
                        assert(!oks[j]);
                    }
                    lemma_trailing_at_least(p, m - 1);
                }
            }
        }
    }
}

/// A device is evicted exactly when it has failed `MAX_CONSECUTIVE_ERRORS`
/// ticks in a row; while it stays live its counter is the number of ticks
/// it has failed since its last success.
pub proof fn lemma_eviction_needs_consecutive_failures(oks: Seq<bool>)
    ensures
        counter_after(oks) is None <==> fails_in_a_row(oks, MAX_CONSECUTIVE_ERRORS as int),
        counter_after(oks) matches Some(c) ==> c == trailing_failures(oks),
{
    lemma_counter_after(oks);
}

/// One tick of one device follows the counter rule that `counter_after` folds.
pub proof fn lemma_single_device_tick<D>(d: D, count: u32, out: Option<DeviceUpdate>)
    ensures
        after_tick(seq![(d, count)], seq![out]) == if survives(count, out is Some) {
            seq![(d, next_count(count, out is Some) as u32)]
        } else {
            Seq::<(D, u32)>::empty()
        },
{
    let devs = seq![(d, count)];
    reveal_with_fuel(after_tick, 2);
    assert(devs.drop_last() =~= Seq::<(D, u32)>::empty());
    assert(devs.last() == (d, count));
    assert(seq![out][0] == out);
    if survives(count, out is Some) {
        assert(Seq::<(D, u32)>::empty().push((d, next_count(count, out is Some) as u32)) =~= seq![(d, next_count(count, out is Some) as u32)]);
    }
}

} // verus!
