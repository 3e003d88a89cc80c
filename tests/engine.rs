use std::cell::RefCell;
use std::rc::Rc;
use std::sync::mpsc::channel;

use chuniio_wbk::engine::{MAX_CONSECUTIVE_ERRORS};
use chuniio_wbk::{
    merge_tick, retain_live, update_device, DeviceCollection, DeviceUpdate, InputDevice, InputState,
    OutputState, Rgb, SharedState,
};

/// What a scripted device is told and asked.
#[derive(Default)]
struct Log {
    polls: usize,
    leds: Vec<([Rgb; 31], [Rgb; 3], [Rgb; 3])>,
}

/// A device that replays one outcome per tick; `None` fails the tick.
struct Scripted {
    ticks: Vec<Option<DeviceUpdate>>,
    next: usize,
    current: Option<DeviceUpdate>,
    log: Rc<RefCell<Log>>,
}

impl Scripted {
    fn new(ticks: Vec<Option<DeviceUpdate>>) -> (Scripted, Rc<RefCell<Log>>) {
        let log = Rc::new(RefCell::new(Log::default()));
        (Scripted { ticks, next: 0, current: None, log: log.clone() }, log)
    }

    fn fail() -> anyhow::Error {
        anyhow::Error::msg("transport timeout")
    }
}

impl InputDevice for Scripted {
    fn poll(&mut self) -> Result<(), anyhow::Error> {
        self.log.borrow_mut().polls += 1;
        let t = self.ticks.get(self.next).copied().flatten();
        self.next += 1;
        self.current = t;
        match t {
            Some(_) => Ok(()),
            None => Err(Scripted::fail()),
        }
    }

    fn poll_jvs(&mut self) -> Result<(u8, u8), anyhow::Error> {
        self.current.map(|u| u.jvs).ok_or_else(Scripted::fail)
    }

    fn poll_coin(&mut self) -> Result<bool, anyhow::Error> {
        self.current.map(|u| u.coin).ok_or_else(Scripted::fail)
    }

    fn poll_slider(&mut self) -> Result<[u8; 32], anyhow::Error> {
        self.current.map(|u| u.val).ok_or_else(Scripted::fail)
    }

    fn set_leds(&mut self, slider: &[Rgb; 31], tower_l: &[Rgb; 3], tower_r: &[Rgb; 3]) -> Result<(), anyhow::Error> {
        self.log.borrow_mut().leds.push((*slider, *tower_l, *tower_r));
        Ok(())
    }
}

fn upd(fn_buttons: u8, beams: u8, coin: bool) -> DeviceUpdate {
    DeviceUpdate { jvs: (fn_buttons, beams), val: [0u8; 32], coin }
}

fn zeroed_input() -> InputState {
    InputState::zeroed()
}

#[test]
fn buttons_of_two_devices_merge_by_or() {
    let outs = vec![Some(upd(0b01, 0, false)), Some(upd(0b10, 0, false))];
    let mut input = zeroed_input();
    merge_tick(false, &outs, &mut input);
    assert_eq!(input.fn_buttons, 0b11);
}

#[test]
fn merge_skips_failed_devices() {
    let outs = vec![Some(upd(0b01, 0b000001, false)), None, Some(upd(0, 0b100100, false))];
    let mut input = zeroed_input();
    input.fn_buttons = 0b10;
    input.ir_sensors = 0b111111;
    merge_tick(false, &outs, &mut input);
    assert_eq!(input.fn_buttons, 0b01);
    assert_eq!(input.ir_sensors, 0b100101);
}

#[test]
fn slider_pressure_merges_by_maximum() {
    let mut a = upd(0, 0, false);
    let mut b = upd(0, 0, false);
    for i in 0..32 {
        a.val[i] = i as u8;
        b.val[i] = 31 - i as u8;
    }
    b.val[5] = 200;
    let outs = vec![Some(a), Some(b)];
    let mut input = zeroed_input();
    merge_tick(false, &outs, &mut input);
    for i in 0..32 {
        let expected = if i == 5 { 200 } else { std::cmp::max(i as u8, 31 - i as u8) };
        assert_eq!(input.slider_pressure[i], expected);
    }
}

#[test]
fn no_live_device_gives_zero_input() {
    let outs: Vec<Option<DeviceUpdate>> = vec![None, None];
    let mut input = zeroed_input();
    input.fn_buttons = 3;
    input.slider_pressure = [9u8; 32];
    let coin = merge_tick(true, &outs, &mut input);
    assert!(!coin);
    assert_eq!(input.fn_buttons, 0);
    assert_eq!(input.slider_pressure, [0u8; 32]);
    assert_eq!(input.coin_count, 0);
}

#[test]
fn coin_counts_rising_edges_only() {
    let signals = [false, true, true, false, true];
    let expected_deltas = [0u16, 1, 0, 0, 1];
    let mut input = zeroed_input();
    let mut prev = false;
    for (k, s) in signals.iter().enumerate() {
        let before = input.coin_count;
        let outs = vec![Some(upd(0, 0, false)), Some(upd(0, 0, *s))];
        prev = merge_tick(prev, &outs, &mut input);
        assert_eq!(prev, *s);
        assert_eq!(input.coin_count - before, expected_deltas[k]);
    }
    assert_eq!(input.coin_count, 2);
}

#[test]
fn coin_counter_wraps() {
    let mut input = zeroed_input();
    input.coin_count = 65535;
    merge_tick(false, &vec![Some(upd(0, 0, true))], &mut input);
    assert_eq!(input.coin_count, 0);
}

#[test]
fn retain_live_resets_and_counts() {
    let polled = vec![(1u8, 3u32), (2u8, 8u32), (3u8, 9u32), (4u8, 9u32)];
    let outs = vec![Some(upd(0, 0, false)), None, None, Some(upd(0, 0, false))];
    let live = retain_live(polled, &outs);
    assert_eq!(live, vec![(1u8, 0u32), (2u8, 9u32), (4u8, 0u32)]);
}

#[test]
fn nine_failures_then_success_is_kept() {
    let mut ticks: Vec<Option<DeviceUpdate>> = vec![None; 9];
    ticks.push(Some(upd(1, 0, false)));
    let (dev, log) = Scripted::new(ticks);
    let (send, recv) = channel();
    let mut dm = DeviceCollection::new(recv);
    send.send(dev).unwrap();
    let mut state = SharedState::new_zeroed();
    for _ in 0..10 {
        dm.update_devices(&mut state);
        assert_eq!(dm.len(), 1);
    }
    assert_eq!(log.borrow().polls, 10);
    assert_eq!(state.i.fn_buttons, 1);
}

#[test]
fn ten_failures_evict_before_an_eleventh_poll() {
    let (dev, log) = Scripted::new(vec![None; 20]);
    let (send, recv) = channel();
    let mut dm = DeviceCollection::new(recv);
    send.send(dev).unwrap();
    let mut state = SharedState::new_zeroed();
    for tick in 1..=9 {
        dm.update_devices(&mut state);
        assert_eq!(dm.len(), 1, "tick {tick}");
    }
    assert_eq!(dm.update_devices(&mut state), 1);
    assert_eq!(dm.len(), 0);
    assert_eq!(dm.update_devices(&mut state), 0);
    assert_eq!(log.borrow().polls, MAX_CONSECUTIVE_ERRORS as usize);
}

#[test]
fn nine_fail_one_success_cycle_is_never_evicted() {
    let mut ticks = Vec::new();
    for _ in 0..5 {
        ticks.extend(vec![None; 9]);
        ticks.push(Some(upd(0, 0, false)));
    }
    let (dev, log) = Scripted::new(ticks);
    let (send, recv) = channel();
    let mut dm = DeviceCollection::new(recv);
    send.send(dev).unwrap();
    let mut state = SharedState::new_zeroed();
    for _ in 0..50 {
        dm.update_devices(&mut state);
        assert_eq!(dm.len(), 1);
    }
    assert_eq!(log.borrow().polls, 50);
}

#[test]
fn update_devices_merges_live_devices_and_keeps_output() {
    let (a, _) = Scripted::new(vec![Some(upd(0b01, 0b000011, false))]);
    let (b, _) = Scripted::new(vec![Some(upd(0b10, 0b110000, true))]);
    let (c, _) = Scripted::new(vec![None]);
    let (send, recv) = channel();
    let mut dm = DeviceCollection::new(recv);
    send.send(a).unwrap();
    send.send(b).unwrap();
    send.send(c).unwrap();
    let mut state = SharedState::new_zeroed();
    state.o.slider[4] = [1, 2, 3];
    dm.update_devices(&mut state);
    assert_eq!(dm.len(), 3);
    assert_eq!(state.i.fn_buttons, 0b11);
    assert_eq!(state.i.ir_sensors, 0b110011);
    assert_eq!(state.i.coin_count, 1);
    assert_eq!(state.o.slider[4], [1, 2, 3]);
}

#[test]
fn devices_join_after_start() {
    let (send, recv) = channel();
    let mut dm: DeviceCollection<Scripted> = DeviceCollection::new(recv);
    let mut state = SharedState::new_zeroed();
    dm.update_devices(&mut state);
    assert_eq!(dm.len(), 0);
    let (a, _) = Scripted::new(vec![Some(upd(0, 0b1, false)); 2]);
    send.send(a).unwrap();
    dm.update_devices(&mut state);
    assert_eq!(dm.len(), 1);
    assert_eq!(state.i.ir_sensors, 1);
}

#[test]
fn update_device_forwards_slider_and_towers() {
    let (mut dev, log) = Scripted::new(vec![Some(upd(2, 5, true))]);
    let mut o = OutputState::zeroed();
    o.slider[0] = [9, 8, 7];
    o.board_0_air_tower[2] = [1, 1, 1];
    o.board_1_air_tower[0] = [2, 2, 2];
    o.board_0_billboard[0] = [5, 5, 5];
    let u = update_device(&mut dev, &o).ok().unwrap();
    assert_eq!(u.jvs, (2, 5));
    assert!(u.coin);
    let log = log.borrow();
    assert_eq!(log.leds.len(), 1);
    assert_eq!(log.leds[0].0, o.slider);
    assert_eq!(log.leds[0].1, o.board_0_air_tower);
    assert_eq!(log.leds[0].2, o.board_1_air_tower);
}

#[test]
fn eviction_counted_in_the_tick_a_device_arrives() {
    let (old, _) = Scripted::new(vec![None; 20]);
    let (send, recv) = channel();
    let mut dm = DeviceCollection::new(recv);
    send.send(old).unwrap();
    let mut state = SharedState::new_zeroed();
    for _ in 0..9 {
        assert_eq!(dm.update_devices(&mut state), 0);
    }
    let (fresh, _) = Scripted::new(vec![Some(upd(0, 0, false))]);
    send.send(fresh).unwrap();
    assert_eq!(dm.update_devices(&mut state), 1);
    assert_eq!(dm.len(), 1);
}

#[test]
fn update_device_returns_the_three_reads() {
    let mut u = upd(0b10, 0b000100, true);
    u.val[7] = 99;
    let (mut dev, log) = Scripted::new(vec![Some(u)]);
    let o = OutputState::zeroed();
    let r = update_device(&mut dev, &o).ok().unwrap();
    assert_eq!(r.jvs, (0b10, 0b000100));
    assert_eq!(r.val[7], 99);
    assert!(r.coin);
    assert_eq!(log.borrow().leds.len(), 1);
}

#[test]
fn update_device_stops_at_first_failure() {
    let (mut dev, log) = Scripted::new(vec![None]);
    let o = OutputState::zeroed();
    assert!(update_device(&mut dev, &o).is_err());
    assert_eq!(log.borrow().polls, 1);
}
