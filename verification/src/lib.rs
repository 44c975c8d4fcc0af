//! Driver core for an SK9822-style addressable LED strip.
//!
//! The crate holds the protocol logic of the driver: the 4-byte pixel
//! record, the framed pixel buffer with its start/end markers, the
//! debounced button input, and the two interchangeable transmitters
//! (software bit-banging and hardware-clocked output). Everything that
//! touches real pins, peripherals or clocks lives outside the library
//! and hands plain values in and out.

pub mod debounce;
pub mod led_buffer;
pub mod pixel;
pub mod send;
