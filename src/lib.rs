//! Turns a stream of addressed control messages into haptic effects: each
//! message sets the intensity of one feedback dot in a shared table, and a
//! periodic build reads the table into an effect for the device service.
//! The outbound channel's connect and reconnect decisions live in `link`.

pub mod level;
pub mod link;
pub mod mapping;
pub mod registry;
pub mod true_gear_message;
