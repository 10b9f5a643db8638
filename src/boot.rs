//! The boot sequence: read the partition header, report it, hand over.
use vstd::prelude::*;

use crate::header::{header_at, read_word, PartitionHeader, HEADER_SIZE, WORD_SIZE};
use crate::logger::{Logger, Message, NoOpLogger};

verus! {

/// The identification line logged at the start of every boot attempt.
pub const BANNER: &'static str = "Drogue-IoT Bootloader";

/// Whether a memory window of `len` bytes that starts at address `base`
/// holds the whole header of the partition at address `partition`.
pub open spec fn header_in_window(len: int, base: u32, partition: u32) -> bool {
    &&& base <= partition
    &&& partition + HEADER_SIZE <= base + len
    &&& partition + HEADER_SIZE <= u32::MAX + 1
}

/// The header of the partition at address `partition`, read from the memory
/// window `memory` that starts at address `base`.
pub open spec fn header_of(memory: Seq<u8>, base: u32, partition: u32) -> PartitionHeader {
    header_at(memory, partition - base)
}

/// The bootloader controller: the partition to boot and the logger to
/// report progress to.
pub struct Boot<'a, L: Logger + ?Sized> {
    boot_partition: u32,
    logger: &'a L,
}

impl<'a> Boot<'a, NoOpLogger> {
    /// Create a new bootloader controller, which logs nothing.
    /// * `partition` - The start address of the primary non-bootloader partition.
    pub fn new(partition: u32) -> (r: Boot<'a, NoOpLogger>)
        ensures
            r.partition() == partition,
            *r.logger() == (NoOpLogger {}),
    {
        Boot { boot_partition: partition, logger: &NoOpLogger {} }
    }
}

impl<'a, L: Logger + ?Sized> Boot<'a, L> {
    /// The start address of the partition to boot.
    pub closed spec fn partition(&self) -> u32 {
        self.boot_partition
    }

    /// The logger the boot sequence reports to.
    pub closed spec fn logger(&self) -> &'a L {
        self.logger
    }

    /// Configure a logger to use by the bootloader, in place of the current one.
    /// * `logger` The logger implementation to use.
    pub fn with_logger<M: Logger + ?Sized>(self, logger: &'a M) -> (r: Boot<'a, M>)
        ensures
            r.partition() == self.partition(),
            r.logger() == logger,
    {
        Boot { boot_partition: self.boot_partition, logger }
    }

    /// The start address of the partition to boot.
    pub fn boot_partition(&self) -> (r: u32)
        ensures
            r == self.partition(),
    {
        self.boot_partition
    }

    /// The addresses of the two header words: the partition start and one
    /// word after it.
    pub fn header_addresses(&self) -> (r: (u32, u32))
        requires
            self.partition() + WORD_SIZE <= u32::MAX,
        ensures
            r.0 == self.partition(),
            r.1 == self.partition() + WORD_SIZE,
    {
        (self.boot_partition, self.boot_partition + WORD_SIZE as u32)
    }

    /// Reads the partition header from `memory`, the bytes at addresses
    /// `base`, `base + 1`, ...; `None` where the window does not hold it.
    pub fn read_header(&self, memory: &[u8], base: u32) -> (r: Option<PartitionHeader>)
        ensures
            r is Some <==> header_in_window(memory@.len() as int, base, self.partition()),
            r matches Some(h) ==> h == header_of(memory@, base, self.partition()),
    {
        let partition = self.boot_partition;
        if partition < base || partition > u32::MAX - HEADER_SIZE as u32 + 1 {
            return None;
        }
        let offset = (partition - base) as usize;
        if offset > memory.len() || memory.len() - offset < HEADER_SIZE {
            return None;
        }
        let (stack_pointer_address, entry_address) = self.header_addresses();
        let stack_pointer = read_word(memory, (stack_pointer_address - base) as usize);
        let entry = read_word(memory, (entry_address - base) as usize);
        Some(PartitionHeader { stack_pointer, entry })
    }

    /// Perform the boot sequence: log the banner, read the partition header
    /// from `memory` (the bytes from address `base` on), log it, and call
    /// `transfer` with the initial stack pointer first and the entry address
    /// second. `None`, without a transfer, where `memory` does not hold the
    /// header.
    pub fn boot<R, F: FnOnce(u32, u32) -> R>(&self, memory: &[u8], base: u32, transfer: F) -> (r: Option<R>)
        requires
            forall|stack_pointer: u32, entry: u32| transfer.requires((stack_pointer, entry)),
        ensures
            r is Some <==> header_in_window(memory@.len() as int, base, self.partition()),
            r matches Some(v) ==> ({
                let h = header_of(memory@, base, self.partition());
                transfer.ensures((h.stack_pointer, h.entry), v)
            }),
    {
        self.logger.log_message(BANNER);
        match self.read_header(memory, base) {
            Some(h) => {
                self.logger.log(Message::Header { stack_pointer: h.stack_pointer, entry: h.entry });
                Some(transfer(h.stack_pointer, h.entry))
            },
            None => None,
        }
    }
}

} // verus!
