//! A LoRaWAN end-device stack: MAC-command codec, channel masks, regional
//! channel plans, session bookkeeping and frame construction.
pub mod bits;
pub mod codec;
pub mod crypto;
pub mod mac;
pub mod maccommands;
pub mod otaa;
pub mod radio;
pub mod region;
pub mod session;
pub mod types;
