//! The client side of the version-1 event catalogue: request encoders and
//! response decoders.

pub mod c0x0000;
pub mod c0x0005;
pub mod dispatch;
pub mod r0x0001;
pub mod r0x0004;
pub mod r0x0002;
pub mod r0x0003;
pub mod r0x0006;
