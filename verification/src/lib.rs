//! Protocol logic for talking to a Daly battery management system over
//! Bluetooth Low Energy: frame checksums, command frames, value formatting,
//! characteristic selection and the state kept by the monitoring front end.

pub mod crc;
pub mod command;
pub mod hex;
pub mod event;
pub mod gatt;
pub mod state;
pub mod view;
