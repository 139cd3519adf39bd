use super::layout::MUSIC_ELEMENT_LENGTH;
use super::stream::{header_bytes, le_bytes, magic};
use vstd::prelude::*;

verus! {

/// The header of a stream: the magic number and the number of bytes that
/// the records take.
#[derive(Clone, Copy, PartialEq, Eq, Debug)]
pub struct MusicBinHeader {
    identifier: [u8; 4],
    length: usize,
}

impl MusicBinHeader {
    /// The four bytes `MuBi` that every stream starts with.
    pub const MUSICBIN_MAGIC_NUMBER: [u8; 4] = [0x4d, 0x75, 0x42, 0x69];

    /// The four bytes in front.
    pub closed spec fn identifier(self) -> Seq<u8> {
        self.identifier@
    }

    /// The number of bytes that the records take.
    pub closed spec fn length(self) -> usize {
        self.length
    }

    /// The header of records that take `length` bytes.
    pub fn new(length: usize) -> (h: MusicBinHeader)
        ensures
            h.length() == length,
            h.identifier() == magic(),
    {
        let h = MusicBinHeader { identifier: [0x4d, 0x75, 0x42, 0x69], length };
        assert(h.identifier@ =~= magic());
        h
    }

    /// The number of records that the header declares.
    pub fn get_chunk_length(&self) -> (n: usize)
        ensures
            n == self.length() / 4,
    {
        self.length / MUSIC_ELEMENT_LENGTH
    }

    /// Changes the number of bytes that the header declares.
    pub fn set_length(&mut self, length: usize)
        ensures
            final(self).length() == length,
            final(self).identifier() == old(self).identifier(),
    {
        self.length = length;
    }

    /// The number of bytes that the header declares.
    pub fn get_length(&self) -> (n: usize)
        ensures
            n == self.length(),
    {
        self.length
    }

    /// The four bytes in front.
    pub fn get_identifier(&self) -> (id: [u8; 4])
        ensures
            id@ == self.identifier(),
    {
        self.identifier
    }

    /// The eight bytes of the header.
    pub fn to_bytes(&self) -> (bytes: Vec<u8>)
        requires
            self.length() <= u32::MAX,
        ensures
            bytes@ == self.identifier() + le_bytes(self.length() as u32),
            self.identifier() == magic() ==> bytes@ == header_bytes(self.length() as u32),
    {
        let n: u32 = self.length as u32;
        let mut bytes: Vec<u8> = Vec::new();
        bytes.push(self.identifier[0]);
        bytes.push(self.identifier[1]);
        bytes.push(self.identifier[2]);
        bytes.push(self.identifier[3]);
        bytes.push((n % 0x100) as u8);
        bytes.push((n / 0x100 % 0x100) as u8);
        bytes.push((n / 0x1_0000 % 0x100) as u8);
        bytes.push((n / 0x100_0000) as u8);
        assert(bytes@ =~= self.identifier() + le_bytes(self.length() as u32));
        bytes
    }
}

} // verus!
