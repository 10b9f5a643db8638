//! A minimal second-stage bootloader: read the header of an application
//! partition and hand control over to it.
pub mod boot;
pub mod header;
pub mod logger;

pub use boot::{Boot, BANNER};
pub use header::{decode_header, read_word, PartitionHeader};
pub use logger::{Logger, Message, NoOpLogger};
