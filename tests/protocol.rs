use chuniio_wbk::finder::{TASOLLER_PLUS_PRODUCT_ID, TASOLLER_PLUS_VENDOR_ID};
use chuniio_wbk::{
    after_create, create, is_published, AfterCreate, CreateFailure, publish, published, recognize, role_for_pointer_width, DeviceFinder,
    DeviceModel, Role, SharedState, MAGIC,
};

#[test]
fn marker_spells_chni() {
    assert_eq!(MAGIC, u32::from_le_bytes(*b"CHNI"));
}

#[test]
fn unpublished_segment_gives_no_view() {
    let mut s = SharedState::new_zeroed();
    assert!(!is_published(&s));
    assert!(published(&s).is_none());
    s.m = 1;
    assert!(published(&s).is_none());
}

#[test]
fn publish_zeroes_then_marks() {
    let mut s = SharedState::new_zeroed();
    s.i.coin_count = 9;
    s.i.slider_pressure[3] = 4;
    s.o.slider[2] = [1, 1, 1];
    publish(&mut s);
    assert_eq!(s.m, MAGIC);
    assert!(is_published(&s));
    assert_eq!(s.i.coin_count, 0);
    assert_eq!(s.i.slider_pressure, [0u8; 32]);
    assert_eq!(s.o.slider, [[0u8; 3]; 31]);
    assert!(published(&s).is_some());
}

#[test]
fn narrow_pointers_make_the_host() {
    assert_eq!(role_for_pointer_width(4), Some(Role::Host));
    assert_eq!(role_for_pointer_width(8), Some(Role::Consumer));
    assert_eq!(role_for_pointer_width(2), None);
}

#[test]
fn only_the_tasoller_plus_is_recognized() {
    assert_eq!(recognize(0x0E8F, 0x1231), Some(DeviceModel::TasollerPlus));
    assert_eq!(recognize(TASOLLER_PLUS_VENDOR_ID, TASOLLER_PLUS_PRODUCT_ID), Some(DeviceModel::TasollerPlus));
    assert_eq!(recognize(0x0E8F, 0x1232), None);
    assert_eq!(recognize(0x1234, 0x1231), None);
}

#[test]
fn hand_off_reaches_the_receiver() {
    let (send, recv) = std::sync::mpsc::channel();
    let finder = DeviceFinder(send);
    assert!(finder.hand_off(7u32));
    assert_eq!(recv.try_recv().ok(), Some(7u32));
    drop(recv);
    assert!(!finder.hand_off(8u32));
}

#[test]
fn zero_sized_segment_is_refused() {
    assert!(create("chuniio_wbk_zero_sized_test", 0).is_err());
}

#[test]
fn taken_name_leads_to_opening() {
    assert!(matches!(after_create(Err(CreateFailure::NameTaken)), AfterCreate::OpenExisting));
}

#[test]
fn other_creation_failure_is_returned() {
    let r = after_create(Err(CreateFailure::Other(shared_memory::ShmemError::MapCreateFailed(5))));
    assert!(matches!(r, AfterCreate::Done(Err(shared_memory::ShmemError::MapCreateFailed(5)))));
}
