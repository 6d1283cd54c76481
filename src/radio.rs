//! SX126x chip variants: which power amplifier each one drives.
use vstd::prelude::*;

verus! {

/// The power amplifier a chip transmits through.
#[derive(Debug, Clone, Copy, PartialEq, Eq, Structural)]
pub enum DeviceSel {
    LowPowerPA,
    HighPowerPA,
}

/// What differs between the chips of the SX126x family.
pub trait Sx126xVariant {
    spec fn device_sel(&self) -> DeviceSel;

    spec fn dio2_as_rfswitch(&self) -> bool;

    /// The power amplifier to use.
    fn get_device_sel(&self) -> (r: DeviceSel)
        ensures
            r == self.device_sel(),
    ;

    /// Whether DIO2 drives the RF switch.
    fn use_dio2_as_rfswitch(&self) -> (r: bool)
        ensures
            r == self.dio2_as_rfswitch(),
    ;
}

/// The radio of the STM32WL; one of its two amplifiers is chosen for good.
pub struct Stm32wl {
    /// Select which output to use (switching is not supported).
    pub use_high_power_pa: bool,
}

impl Sx126xVariant for Stm32wl {
    open spec fn device_sel(&self) -> DeviceSel {
        if self.use_high_power_pa {
            DeviceSel::HighPowerPA
        } else {
            DeviceSel::LowPowerPA
        }
    }

    open spec fn dio2_as_rfswitch(&self) -> bool {
        false
    }

    fn get_device_sel(&self) -> (r: DeviceSel) {
        if self.use_high_power_pa {
            DeviceSel::HighPowerPA
        } else {
            DeviceSel::LowPowerPA
        }
    }

    fn use_dio2_as_rfswitch(&self) -> (r: bool) {
        false
    }
}

/// SX1261: the low-power amplifier only.
pub struct Sx1261;

impl Sx126xVariant for Sx1261 {
    open spec fn device_sel(&self) -> DeviceSel {
        DeviceSel::LowPowerPA
    }

    open spec fn dio2_as_rfswitch(&self) -> bool {
        true
    }

    fn get_device_sel(&self) -> (r: DeviceSel) {
        DeviceSel::LowPowerPA
    }

    fn use_dio2_as_rfswitch(&self) -> (r: bool) {
        true
    }
}

/// SX1262: the high-power amplifier only.
pub struct Sx1262;

impl Sx126xVariant for Sx1262 {
    open spec fn device_sel(&self) -> DeviceSel {
        DeviceSel::HighPowerPA
    }

    open spec fn dio2_as_rfswitch(&self) -> bool {
        true
    }

    fn get_device_sel(&self) -> (r: DeviceSel) {
        DeviceSel::HighPowerPA
    }

    fn use_dio2_as_rfswitch(&self) -> (r: bool) {
        true
    }
}

} // verus!
