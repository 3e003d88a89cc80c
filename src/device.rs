//! The capability every controller driver offers to the aggregation engine.

use vstd::prelude::*;
use crate::layout::{OutputState, Rgb};

verus! {

#[verifier::external_type_specification]
#[verifier::external_body]
pub struct ExError(anyhow::Error);

/// One call made on a device, with what it returned (`None`, or `false`,
/// for an error).
pub enum DeviceCall {
    SetLeds { slider: [Rgb; 31], tower_l: [Rgb; 3], tower_r: [Rgb; 3], ok: bool },
    Poll { ok: bool },
    PollJvs { jvs: Option<(u8, u8)> },
    PollSlider { val: Option<[u8; 32]> },
    PollCoin { coin: Option<bool> },
}

impl DeviceCall {
    pub open spec fn succeeded(self) -> bool {
        match self {
            DeviceCall::SetLeds { ok, .. } => ok,
            DeviceCall::Poll { ok } => ok,
            DeviceCall::PollJvs { jvs } => jvs is Some,
            DeviceCall::PollSlider { val } => val is Some,
            DeviceCall::PollCoin { coin } => coin is Some,
        }
    }
}

/// A controller driver. Every call is fallible and bounded by a short
/// transport timeout, so one unresponsive device cannot stall a tick.
/// `calls` is the record of the calls made on the driver, each call adding
/// one entry.
pub trait InputDevice {
    /// The calls made on this device so far, oldest first. A driver states
    /// its record here; generic code never sees this default, so nothing is
    /// proved from it.
    closed spec fn calls(&self) -> Seq<DeviceCall> {
        Seq::empty()
    }

    /// Refreshes the driver's snapshot of the hardware.
    fn poll(&mut self) -> (r: Result<(), anyhow::Error>)
        ensures
            final(self).calls() == old(self).calls().push(DeviceCall::Poll { ok: r is Ok }),
    ;

    /// Function buttons and IR beams, in that order, from the latest snapshot.
    fn poll_jvs(&mut self) -> (r: Result<(u8, u8), anyhow::Error>)
        ensures
            final(self).calls() == old(self).calls().push(
                DeviceCall::PollJvs { jvs: match r { Ok(j) => Some(j), Err(_) => None } },
            ),
    ;

    /// The coin signal; constant `false` where the device has none.
    fn poll_coin(&mut self) -> (r: Result<bool, anyhow::Error>)
        ensures
            final(self).calls() == old(self).calls().push(
                DeviceCall::PollCoin { coin: match r { Ok(c) => Some(c), Err(_) => None } },
            ),
    ;

    /// The slider pressure of the latest snapshot.
    fn poll_slider(&mut self) -> (r: Result<[u8; 32], anyhow::Error>)
        ensures
            final(self).calls() == old(self).calls().push(
                DeviceCall::PollSlider { val: match r { Ok(v) => Some(v), Err(_) => None } },
            ),
    ;

    /// Pushes the desired slider and air-tower colours to the device.
    fn set_leds(&mut self, slider: &[Rgb; 31], tower_l: &[Rgb; 3], tower_r: &[Rgb; 3]) -> (r: Result<
        (),
        anyhow::Error,
    >)
        ensures
            final(self).calls() == old(self).calls().push(
                DeviceCall::SetLeds { slider: *slider, tower_l: *tower_l, tower_r: *tower_r, ok: r is Ok },
            ),
    ;
}

/// What one device reported in one successful tick.
#[derive(Clone, Copy)]
pub struct DeviceUpdate {
    /// Function buttons and IR beams.
    pub jvs: (u8, u8),
    /// Slider pressure.
    pub val: [u8; 32],
    /// Coin signal.
    pub coin: bool,
}

/// The calls of one device tick, in the order they are made: the slider
/// strip with the board 0 tower on the left and the board 1 tower on the
/// right, then poll, buttons, slider and coin.
pub open spec fn tick_call_matches(o: OutputState, k: int, c: DeviceCall) -> bool {
    if k == 0 {
        c matches DeviceCall::SetLeds { slider, tower_l, tower_r, .. } && slider == o.slider && tower_l
            == o.board_0_air_tower && tower_r == o.board_1_air_tower
    } else if k == 1 {
        c is Poll
    } else if k == 2 {
        c is PollJvs
    } else if k == 3 {
        c is PollSlider
    } else {
        k == 4 && c is PollCoin
    }
}

/// `made` are the calls of one device tick over the output record `o`, and
/// `out` its outcome: the calls come in order and stop at the first that
/// fails; the tick succeeds exactly when all five do, and then reports what
/// the three reads returned.
pub open spec fn is_device_tick(o: OutputState, made: Seq<DeviceCall>, out: Option<DeviceUpdate>) -> bool {
    &&& 1 <= made.len() <= 5
    &&& forall|k: int| 0 <= k < made.len() ==> #[trigger] tick_call_matches(o, k, made[k])
    &&& forall|k: int| 0 <= k < made.len() - 1 ==> (#[trigger] made[k]).succeeded()
    &&& (out is Some) == (made.len() == 5 && made[4].succeeded())
    &&& (out is None) == !made.last().succeeded()
    &&& out matches Some(u) ==> {
        &&& made[2] == DeviceCall::PollJvs { jvs: Some(u.jvs) }
        &&& made[3] == DeviceCall::PollSlider { val: Some(u.val) }
        &&& made[4] == DeviceCall::PollCoin { coin: Some(u.coin) }
    }
}

/// `after` is `before` with one device tick over `o` made on it, whose
/// outcome is `out`.
pub open spec fn ticked_once<D: InputDevice>(before: D, after: D, o: OutputState, out: Option<DeviceUpdate>) -> bool {
    let n = before.calls().len() as int;
    &&& n <= after.calls().len()
    &&& after.calls().take(n) == before.calls()
    &&& is_device_tick(o, after.calls().skip(n), out)
}

/// One tick of one device: push the slider strip and the two air towers
/// (board 0 on the left, board 1 on the right), poll, then read buttons,
/// slider and coin. The first failing call ends the device's tick.
pub fn update_device<D: InputDevice>(device: &mut D, o: &OutputState) -> (r: Result<DeviceUpdate, anyhow::Error>)
    ensures
        ticked_once(*old(device), *final(device), *o, match r { Ok(u) => Some(u), Err(_) => None }),
{
    let ghost start = device.calls();
    let res = device.set_leds(&o.slider, &o.board_0_air_tower, &o.board_1_air_tower);
    if let Err(e) = res {
        proof {
            assert(device.calls().skip(start.len() as int) =~= seq![device.calls().last()]);
            assert(device.calls().take(start.len() as int) =~= start);
        }
        return Err(e);
    }
    let res = device.poll();
    let ghost c1 = device.calls();
    if let Err(e) = res {
        proof {
            assert(device.calls().take(start.len() as int) =~= start);
        }
        return Err(e);
    }
    let jvs = match device.poll_jvs() {
        Ok(j) => j,
        Err(e) => {
            proof {
                assert(device.calls().take(start.len() as int) =~= start);
            }
            return Err(e);
        },
    };
    let val = match device.poll_slider() {
        Ok(v) => v,
        Err(e) => {
            proof {
                assert(device.calls().take(start.len() as int) =~= start);
            }
            return Err(e);
        },
    };
    let coin = match device.poll_coin() {
        Ok(c) => c,
        Err(e) => {
            proof {
                assert(device.calls().take(start.len() as int) =~= start);
            }
            return Err(e);
        },
    };
    proof {
        assert(device.calls().take(start.len() as int) =~= start);
    }
    Ok(DeviceUpdate { jvs, val, coin })
}

} // verus!
