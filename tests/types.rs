use lorawan_device::maccommands::Error;
use lorawan_device::types::ChannelMask;

#[test]
fn set_channel_then_is_enabled() {
    let mut mask = ChannelMask::<2>::new(&[0, 0]).unwrap();
    mask.set_channel(5, true);
    assert_eq!(mask.is_enabled(5), Ok(true));
    assert_eq!(mask.is_enabled(4), Ok(false));
    assert_eq!(mask.get_index(0), 0x20);
    mask.set_channel(5, false);
    assert_eq!(mask.is_enabled(5), Ok(false));
}

#[test]
fn is_enabled_past_the_end_is_an_error() {
    let mask = ChannelMask::<2>::default();
    assert_eq!(mask.is_enabled(2 * 8), Err(Error::InvalidIndex));
    assert_eq!(mask.is_enabled(2 * 8 - 1), Ok(true));
    let mask = ChannelMask::<9>::default();
    assert_eq!(mask.is_enabled(72), Err(Error::InvalidIndex));
}

#[test]
fn default_enables_everything() {
    let mask = ChannelMask::<2>::default();
    assert_eq!(mask.statuses::<16>(), [true; 16]);
}

#[test]
fn new_needs_enough_bytes() {
    assert_eq!(ChannelMask::<2>::new(&[1]), Err(Error::BufferTooShort));
    let mask = ChannelMask::<2>::new(&[0xc7, 0x0b, 0xff]).unwrap();
    assert_eq!(mask.get_index(1), 0x0b);
    assert_eq!(
        mask.statuses::<12>(),
        [true, true, true, false, false, false, true, true, true, true, false, true]
    );
}

#[test]
fn set_bank_and_new_from_raw() {
    let mut mask = ChannelMask::<2>::new_from_raw(&[0x01, 0x80]);
    assert_eq!(mask.is_enabled(0), Ok(true));
    assert_eq!(mask.is_enabled(15), Ok(true));
    mask.set_bank(1, 0x00);
    assert_eq!(mask.is_enabled(15), Ok(false));
    mask.set_channel(9, true);
    assert_eq!(mask.get_index(1), 0x02);
}

#[test]
fn from_bytes_and_as_bytes() {
    let mask = ChannelMask::<2>::from([0xc7, 0x0b]);
    assert_eq!(mask.as_bytes(), &[0xc7, 0x0b]);
    assert_eq!(mask.is_enabled(2), Ok(true));
    assert_eq!(mask.is_enabled(3), Ok(false));
}
