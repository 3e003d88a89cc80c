//! Aggregates several USB touch/LED controllers into one logical arcade I/O
//! device, published to a second process through a fixed-layout shared segment.

pub mod channel;
pub mod device;
pub mod engine;
pub mod exports;
pub mod finder;
pub mod layout;
pub mod protocol;
pub mod segment;
pub mod tasoller;

pub use device::{update_device, DeviceCall, DeviceUpdate, InputDevice};
pub use engine::{merge_tick, retain_live, DeviceCollection, MAX_CONSECUTIVE_ERRORS};
pub use exports::{
    board_cells, chuni_io_get_api_version, chuni_io_jvs_poll, chuni_io_jvs_read_coin_counter,
    chuni_io_led_set_colors, chuni_io_slider_set_leds, slider_sample,
};
pub use finder::{recognize, DeviceFinder, DeviceModel};
pub use layout::{InputState, OutputState, Rgb, SharedState, MAGIC};
pub use protocol::{is_published, publish, published, role_for_pointer_width, Role};
pub use segment::{after_create, create, AfterCreate, CreateFailure};
pub use tasoller::{encode_led_frame, TasollerPlusInput};
