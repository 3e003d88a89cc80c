//! Hand-off from device discovery to the engine: which controllers are
//! recognised, and the channel that carries their drivers.

use vstd::prelude::*;
use std::sync::mpsc::Sender;

verus! {

/// USB vendor and product identifiers of the TASOLLER PLUS.
pub const TASOLLER_PLUS_VENDOR_ID: u16 = 0x0E8F;
pub const TASOLLER_PLUS_PRODUCT_ID: u16 = 0x1231;

/// The controller families this library has a driver for.
#[derive(Clone, Copy, PartialEq, Eq, Structural, Debug)]
pub enum DeviceModel {
    TasollerPlus,
}

/// The driver family for a USB device, or `None` for a device that is not a
/// supported controller (which is ignored, not an error).
pub fn recognize(vendor_id: u16, product_id: u16) -> (r: Option<DeviceModel>)
    ensures
        r == (if vendor_id == TASOLLER_PLUS_VENDOR_ID && product_id == TASOLLER_PLUS_PRODUCT_ID {
            Some(DeviceModel::TasollerPlus)
        } else {
            None::<DeviceModel>
        }),
{
    if vendor_id == TASOLLER_PLUS_VENDOR_ID && product_id == TASOLLER_PLUS_PRODUCT_ID {
        Some(DeviceModel::TasollerPlus)
    } else {
        None
    }
}

/// The producer side of the discovery channel; sending never blocks.
#[verifier::reject_recursive_types(D)]
pub struct DeviceFinder<D>(pub Sender<D>);

impl<D> DeviceFinder<D> {
    /// Hands a new driver to the engine. Returns whether the engine was
    /// still there to take it.
    pub fn hand_off(&self, device: D) -> (sent: bool) {
        self.0.send(device).is_ok()
    }
}

} // verus!
