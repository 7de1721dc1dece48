//! A battery watchdog's decision core: which configured action applies to a
//! charge reading, when it may fire again, and what is handed to the desktop
//! and to the process runner when it does.

pub mod fraction;
pub mod text;
pub mod template;
pub mod config;
pub mod matcher;
pub mod executor;
pub mod battery;
