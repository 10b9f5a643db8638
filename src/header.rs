//! The two-word header at the start of a bootable partition.
use vstd::arithmetic::div_mod::lemma_fundamental_div_mod_converse;
use vstd::prelude::*;

verus! {

/// Size in bytes of one machine word.
pub const WORD_SIZE: usize = 4;

/// Size in bytes of a partition header: two machine words.
pub const HEADER_SIZE: usize = 8;

/// The first two words of a partition: the initial stack pointer and the
/// address of the reset handler.
#[derive(Clone, Copy, PartialEq, Eq, Structural, Debug)]
pub struct PartitionHeader {
    pub stack_pointer: u32,
    pub entry: u32,
}

/// The value of the little-endian word that starts at `at` in `bytes`
/// (the byte order of the Cortex-M targets the bootloader runs on).
pub open spec fn word_at(bytes: Seq<u8>, at: int) -> int {
    bytes[at] + 256 * bytes[at + 1] + 65536 * bytes[at + 2] + 16777216 * bytes[at + 3]
}

/// The four bytes of `w`, least significant first.
pub open spec fn word_bytes(w: u32) -> Seq<u8> {
    seq![
        (w % 256) as u8,
        ((w / 256) % 256) as u8,
        ((w / 65536) % 256) as u8,
        (w / 16777216) as u8,
    ]
}

/// The header whose stack-pointer word starts at `at` in `bytes`.
pub open spec fn header_at(bytes: Seq<u8>, at: int) -> PartitionHeader {
    PartitionHeader {
        stack_pointer: word_at(bytes, at) as u32,
        entry: word_at(bytes, at + 4) as u32,
    }
}

/// The eight bytes that hold `h` in memory.
pub open spec fn header_bytes(h: PartitionHeader) -> Seq<u8> {
    word_bytes(h.stack_pointer) + word_bytes(h.entry)
}

/// Reads the little-endian word that starts at `offset` in `bytes`.
pub fn read_word(bytes: &[u8], offset: usize) -> (r: u32)
    requires
        offset + WORD_SIZE <= bytes@.len(),
    ensures
        r == word_at(bytes@, offset as int),
{
    let b0 = bytes[offset] as u32;
    let b1 = bytes[offset + 1] as u32;
    let b2 = bytes[offset + 2] as u32;
    let b3 = bytes[offset + 3] as u32;
    b0 + b1 * 256 + b2 * 65536 + b3 * 16777216
}

/// Decodes the header held by the first eight bytes of `bytes`; `None` where
/// there are fewer than eight.
pub fn decode_header(bytes: &[u8]) -> (r: Option<PartitionHeader>)
    ensures
        r is Some <==> bytes@.len() >= HEADER_SIZE,
        r matches Some(h) ==> h == header_at(bytes@, 0),
{
    if bytes.len() < HEADER_SIZE {
        None
    } else {
        let stack_pointer = read_word(bytes, 0);
        let entry = read_word(bytes, WORD_SIZE);
        Some(PartitionHeader { stack_pointer, entry })
    }
}

/// Reading a word back from its four bytes gives the word: nothing is
/// reordered or truncated.
pub proof fn lemma_word_round_trip(w: u32)
    ensures
        word_at(word_bytes(w), 0) == w,
{
    let b = word_bytes(w);
    assert(b[0] == w % 256);
    assert(b[1] == (w / 256) % 256);
    assert(b[2] == (w / 65536) % 256);
    assert(b[3] == w / 16777216);
    assert(w == w % 256 + 256 * ((w / 256) % 256) + 65536 * ((w / 65536) % 256) + 16777216 * (w / 16777216)) by (nonlinear_arith);
}

/// Any four bytes are the bytes of the word read from them.
pub proof fn lemma_bytes_round_trip(bytes: Seq<u8>, at: int)
    requires
        0 <= at,
        at + 4 <= bytes.len(),
    ensures
        word_bytes(word_at(bytes, at) as u32) == bytes.subrange(at, at + 4),
{
    let (b0, b1, b2, b3) = (bytes[at] as int, bytes[at + 1] as int, bytes[at + 2] as int, bytes[at + 3] as int);
    let w = word_at(bytes, at);
    let hi = b1 + 256 * b2 + 65536 * b3;
    let top = b2 + 256 * b3;
    lemma_fundamental_div_mod_converse(w, 256, hi, b0);
    lemma_fundamental_div_mod_converse(w, 65536, top, b0 + 256 * b1);
    lemma_fundamental_div_mod_converse(w, 16777216, b3, b0 + 256 * b1 + 65536 * b2);
    lemma_fundamental_div_mod_converse(hi, 256, b2 + 256 * b3, b1);
    lemma_fundamental_div_mod_converse(top, 256, b3, b2);
    assert(word_bytes(w as u32) =~= bytes.subrange(at, at + 4));
}

/// Decoding the bytes of a header gives back that header.
pub proof fn lemma_header_round_trip(h: PartitionHeader)
    ensures
        header_at(header_bytes(h), 0) == h,
{
    let b = header_bytes(h);
    lemma_word_round_trip(h.stack_pointer);
    lemma_word_round_trip(h.entry);
    assert(b.subrange(0, 4) =~= word_bytes(h.stack_pointer));
    assert(b.subrange(4, 8) =~= word_bytes(h.entry));
}

/// The header read at any offset is made of exactly the eight bytes found
/// there: the stack-pointer word of the first four, the entry word of the next
/// four, with no byte reordered or dropped.
pub proof fn lemma_header_decoding(bytes: Seq<u8>, at: int)
    requires
        0 <= at,
        at + 8 <= bytes.len(),
    ensures
        header_bytes(header_at(bytes, at)) == bytes.subrange(at, at + 8),
{
    lemma_bytes_round_trip(bytes, at);
    lemma_bytes_round_trip(bytes, at + 4);
    assert(header_bytes(header_at(bytes, at)) =~= bytes.subrange(at, at + 8));
}

} // verus!
