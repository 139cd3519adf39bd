use super::layout::{
    byte_of_word, element_of_word, encodable, lemma_element_round_trip, lemma_word_round_trip,
    reserved_of_word, word_of_bytes, word_of_element,
};
use crate::error::{Error, Result};
use crate::ir::elements::MusicElement;
use vstd::prelude::*;

verus! {

/// The four bytes that every stream starts with: `MuBi`.
pub open spec fn magic() -> Seq<u8> {
    seq![0x4d, 0x75, 0x42, 0x69]
}

/// The number whose four bytes, lowest first, stand at `at`.
pub open spec fn le_u32_at(bytes: Seq<u8>, at: int) -> u32 {
    (bytes[at] as int + bytes[at + 1] as int * 0x100 + bytes[at + 2] as int * 0x1_0000 + bytes[at
        + 3] as int * 0x100_0000) as u32
}

/// The four bytes of a number, lowest first.
pub open spec fn le_bytes(n: u32) -> Seq<u8> {
    seq![
        (n % 0x100) as u8,
        (n / 0x100 % 0x100) as u8,
        (n / 0x1_0000 % 0x100) as u8,
        (n / 0x100_0000) as u8,
    ]
}

/// The header of a stream whose records take `length` bytes.
pub open spec fn header_bytes(length: u32) -> Seq<u8> {
    magic() + le_bytes(length)
}

/// The record whose four bytes stand at `at`.
pub open spec fn word_at(bytes: Seq<u8>, at: int) -> u32 {
    word_of_bytes(bytes[at], bytes[at + 1], bytes[at + 2], bytes[at + 3])
}

/// Whether one of the whole records in `body` holds a field value that its
/// enumeration does not define.
pub open spec fn has_unknown_record(body: Seq<u8>) -> bool {
    exists|i: int| 0 <= i < body.len() / 4 && (#[trigger] element_of_word(word_at(body, 4 * i))) is None
}

/// The elements of the whole records in `body`.
pub open spec fn elements_of(body: Seq<u8>) -> Seq<MusicElement> {
    Seq::new((body.len() / 4) as nat, |i: int| element_of_word(word_at(body, 4 * i))->Some_0)
}

/// What reading records to the end of `body` gives: the elements; or
/// `UnknownTag` where a whole record cannot be read; or else `Truncated`
/// where bytes are left that do not fill a record.
pub open spec fn records_of(body: Seq<u8>) -> Result<Seq<MusicElement>> {
    if has_unknown_record(body) {
        Err(Error::UnknownTag)
    } else if body.len() % 4 != 0 {
        Err(Error::Truncated)
    } else {
        Ok(elements_of(body))
    }
}

/// What reading a stream gives before the declared length is checked: the
/// declared length and the elements.
pub open spec fn parsed(bytes: Seq<u8>) -> Result<(u32, Seq<MusicElement>)> {
    if bytes.len() < 8 {
        Err(Error::Truncated)
    } else if bytes.subrange(0, 4) != magic() {
        Err(Error::MalformedHeader)
    } else {
        match records_of(bytes.skip(8)) {
            Err(e) => Err(e),
            Ok(elements) => Ok((le_u32_at(bytes, 4), elements)),
        }
    }
}

/// What decoding a stream gives: the declared length and the elements, where
/// the stream can be read and declares four bytes for each element.
pub open spec fn decoded(bytes: Seq<u8>) -> Result<(u32, Seq<MusicElement>)> {
    match parsed(bytes) {
        Err(e) => Err(e),
        Ok((length, elements)) => if length != 4 * elements.len() {
            Err(Error::MalformedHeader)
        } else {
            Ok((length, elements))
        },
    }
}

/// The records of a sequence of elements, one after the other.
pub open spec fn records_bytes(elements: Seq<MusicElement>) -> Seq<u8> {
    Seq::new(4 * elements.len(), |j: int| byte_of_word(word_of_element(elements[j / 4]), j % 4))
}

/// The stream of a sequence of elements: the header, then the records.
pub open spec fn encoded(elements: Seq<MusicElement>) -> Seq<u8> {
    header_bytes((4 * elements.len()) as u32) + records_bytes(elements)
}

/// Whether the unused bits of every whole record in `body` are clear.
pub open spec fn reserved_bits_clear(body: Seq<u8>) -> bool {
    forall|i: int| 0 <= i < body.len() / 4 ==> #[trigger] reserved_of_word(word_at(body, 4 * i)) == 0
}

/// The four bytes of a record, put together again, are the record.
pub proof fn lemma_word_of_its_bytes(word: u32)
    ensures
        word_of_bytes(
            byte_of_word(word, 0),
            byte_of_word(word, 1),
            byte_of_word(word, 2),
            byte_of_word(word, 3),
        ) == word,
{
    assert(word == (word / 0x100_0000) * 0x100_0000 + (word / 0x1_0000 % 0x100) * 0x1_0000 + (word
        / 0x100 % 0x100) * 0x100 + word % 0x100 && word / 0x100_0000 < 0x100) by (bit_vector);
}

/// A record put together from four bytes has those bytes.
pub proof fn lemma_bytes_of_their_word(b0: u8, b1: u8, b2: u8, b3: u8)
    ensures
        byte_of_word(word_of_bytes(b0, b1, b2, b3), 0) == b0,
        byte_of_word(word_of_bytes(b0, b1, b2, b3), 1) == b1,
        byte_of_word(word_of_bytes(b0, b1, b2, b3), 2) == b2,
        byte_of_word(word_of_bytes(b0, b1, b2, b3), 3) == b3,
{
    let w = word_of_bytes(b0, b1, b2, b3);
    assert(w / 0x100_0000 == b0 && w / 0x1_0000 % 0x100 == b1 && w / 0x100 % 0x100 == b2 && w
        % 0x100 == b3) by (bit_vector)
        requires
            w == b0 as u32 * 0x100_0000 + b1 as u32 * 0x1_0000 + b2 as u32 * 0x100 + b3 as u32,
    ;
}

/// The four bytes of a number, read lowest first, give the number.
pub proof fn lemma_le_round_trip(n: u32, bytes: Seq<u8>, at: int)
    requires
        0 <= at,
        at + 4 <= bytes.len(),
        bytes.subrange(at, at + 4) == le_bytes(n),
    ensures
        le_u32_at(bytes, at) == n,
{
    let s = bytes.subrange(at, at + 4);
    assert(s[0] == bytes[at] && s[1] == bytes[at + 1] && s[2] == bytes[at + 2] && s[3] == bytes[at
        + 3]);
    assert(n == n % 0x100 + (n / 0x100 % 0x100) * 0x100 + (n / 0x1_0000 % 0x100) * 0x1_0000 + (n
        / 0x100_0000) * 0x100_0000 && n / 0x100_0000 < 0x100) by (bit_vector);
}

/// Four bytes are the bytes of the number that they give when read lowest
/// first.
pub proof fn lemma_le_bytes_of_value(bytes: Seq<u8>, at: int)
    requires
        0 <= at,
        at + 4 <= bytes.len(),
    ensures
        le_bytes(le_u32_at(bytes, at)) == bytes.subrange(at, at + 4),
{
    let b0 = bytes[at];
    let b1 = bytes[at + 1];
    let b2 = bytes[at + 2];
    let b3 = bytes[at + 3];
    let n = le_u32_at(bytes, at);
    assert(n % 0x100 == b0 && n / 0x100 % 0x100 == b1 && n / 0x1_0000 % 0x100 == b2 && n
        / 0x100_0000 == b3) by (bit_vector)
        requires
            n == b0 as u32 + b1 as u32 * 0x100 + b2 as u32 * 0x1_0000 + b3 as u32 * 0x100_0000,
    ;
    assert(le_bytes(n) =~= bytes.subrange(at, at + 4));
}

/// Every record of an encoded sequence is the record of its element.
pub proof fn lemma_word_at_records(elements: Seq<MusicElement>, i: int)
    requires
        0 <= i < elements.len(),
    ensures
        word_at(records_bytes(elements), 4 * i) == word_of_element(elements[i]),
{
    let body = records_bytes(elements);
    let w = word_of_element(elements[i]);
    assert(body[4 * i] == byte_of_word(w, 0));
    assert(body[4 * i + 1] == byte_of_word(w, 1));
    assert(body[4 * i + 2] == byte_of_word(w, 2));
    assert(body[4 * i + 3] == byte_of_word(w, 3));
    lemma_word_of_its_bytes(w);
}

/// Encoding elements that their records have room for and decoding the
/// stream gives the same elements, and the length that the header declares
/// is four times their number.
pub proof fn lemma_decode_encoded(elements: Seq<MusicElement>)
    requires
        4 * elements.len() <= u32::MAX,
        forall|i: int| 0 <= i < elements.len() ==> encodable(#[trigger] elements[i]),
    ensures
        decoded(encoded(elements)) == Ok::<(u32, Seq<MusicElement>), Error>(
            ((4 * elements.len()) as u32, elements),
        ),
{
    let bytes = encoded(elements);
    let length = (4 * elements.len()) as u32;
    let body = records_bytes(elements);
    assert(bytes.subrange(0, 4) =~= magic());
    assert(bytes.skip(8) =~= body);
    assert(bytes.subrange(4, 8) =~= le_bytes(length));
    lemma_le_round_trip(length, bytes, 4);
    assert forall|i: int| 0 <= i < body.len() / 4 implies (#[trigger] element_of_word(
        word_at(body, 4 * i),
    )) == Some(elements[i]) by {
        lemma_word_at_records(elements, i);
        lemma_element_round_trip(elements[i]);
    }
    assert(!has_unknown_record(body));
    assert(elements_of(body) =~= elements);
}

/// Decoding a stream whose unused bits are clear and encoding the elements
/// gives the stream.
pub proof fn lemma_encode_decoded(bytes: Seq<u8>)
    requires
        decoded(bytes) is Ok,
        reserved_bits_clear(bytes.skip(8)),
    ensures
        encoded(decoded(bytes)->Ok_0.1) == bytes,
        forall|i: int|
            0 <= i < decoded(bytes)->Ok_0.1.len() ==> encodable(#[trigger] decoded(bytes)->Ok_0.1[i]),
{
    let (length, elements) = decoded(bytes)->Ok_0;
    let body = bytes.skip(8);
    assert(elements == elements_of(body));
    assert(length == le_u32_at(bytes, 4));
    lemma_le_bytes_of_value(bytes, 4);
    let out = encoded(elements);
    assert(out.len() == bytes.len());
    assert forall|j: int| 0 <= j < bytes.len() implies out[j] == bytes[j] by {
        if j < 4 {
            assert(bytes.subrange(0, 4)[j] == bytes[j]);
        } else if j < 8 {
            assert(bytes.subrange(4, 8)[j - 4] == bytes[j]);
        } else {
            let k = j - 8;
            let i = k / 4;
            let w = word_at(body, 4 * i);
            assert(element_of_word(w) is Some);
            assert(reserved_of_word(w) == 0);
            lemma_word_round_trip(w);
            assert(elements[i] == element_of_word(w)->Some_0);
            lemma_bytes_of_their_word(body[4 * i], body[4 * i + 1], body[4 * i + 2], body[4 * i + 3]);
            assert(out[j] == records_bytes(elements)[k]);
            assert(body[k] == bytes[j]);
        }
    }
    assert(out =~= bytes);
    assert forall|i: int| 0 <= i < elements.len() implies encodable(#[trigger] elements[i]) by {
        let w = word_at(body, 4 * i);
        assert(element_of_word(w) is Some);
        assert(reserved_of_word(w) == 0);
        lemma_word_round_trip(w);
    }
}

/// A stream that decodes declares four bytes for each of its elements, and
/// holds eight bytes more than it declares.
pub proof fn lemma_decoded_length(bytes: Seq<u8>)
    requires
        decoded(bytes) is Ok,
    ensures
        decoded(bytes)->Ok_0.0 == 4 * decoded(bytes)->Ok_0.1.len(),
        bytes.len() == 8 + decoded(bytes)->Ok_0.0,
{
}

} // verus!
