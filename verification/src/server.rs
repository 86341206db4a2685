//! The server side of the version-1 event catalogue: request decoders,
//! response encoders, and the dispatch steps a transport drives.

pub mod c0x0001;
pub mod c0x0002;
pub mod c0x0003;
pub mod c0x0004;
pub mod c0x0006;
pub mod dispatch;
pub mod r0x0000;
pub mod r0x0005;
