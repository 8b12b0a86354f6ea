//! Hardware-independent logic for the ezal antenna rotator controller:
//! the ADS1015 register model, WiFi credential rules, the rotator drive
//! vocabulary and its actuator debouncer, the Morse encoder, the dashboard
//! wire protocol, and the decision logic of the firmware tasks.
pub mod ads1015;
pub mod wifi;
pub mod drive;
pub mod morse;
pub mod protocol;
pub mod dashboard;
pub mod web;
pub mod control;
pub mod outputs;
pub mod direction;
pub mod session;
pub mod ads1015_post;
pub mod wifi_post;
