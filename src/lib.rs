//! A protocol for moving owned values (text, byte buffers, sequences and
//! records) into a flat foreign form and back, with each foreign handle
//! reclaimed exactly once.

pub mod bytes;
pub mod record;
pub mod repr;
pub mod sequence;
pub mod text;

pub use record::{IpcError, One, OneFfi, Two, TwoFfi};
pub use repr::ReprC;
pub use sequence::VecFfi;
pub use text::{StringError, TextFfi};
