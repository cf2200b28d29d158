//! What holds of the driver as a whole.
pub mod allocation;
pub mod buffers;
pub mod events;
pub mod packets;
pub mod pipe;
pub mod registers;
pub mod transfers;
pub mod words;
