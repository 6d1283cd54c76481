use lorawan_device::radio::{DeviceSel, Stm32wl, Sx1261, Sx1262, Sx126xVariant};

#[test]
fn variants_select_their_amplifier() {
    assert_eq!(Stm32wl { use_high_power_pa: true }.get_device_sel(), DeviceSel::HighPowerPA);
    assert_eq!(Stm32wl { use_high_power_pa: false }.get_device_sel(), DeviceSel::LowPowerPA);
    assert!(!Stm32wl { use_high_power_pa: true }.use_dio2_as_rfswitch());
    assert_eq!(Sx1261.get_device_sel(), DeviceSel::LowPowerPA);
    assert_eq!(Sx1262.get_device_sel(), DeviceSel::HighPowerPA);
}
