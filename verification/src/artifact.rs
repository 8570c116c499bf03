//! The compiled artifact: the bytes that carry a program from the emitter to the virtual
//! machine. Four sections, each behind the byte that marks it, all numbers little-endian:
//!
//! ```text
//! 0x01  u32 N   N × u64 word
//! 0x02  u32 F   F × 64 bits of a float
//! 0x03  u32 S   S × (u32 len, len × u8 UTF-8)
//! 0x04  u32 V   the number of local variables that the program declares
//! ```

use vstd::prelude::*;
use vstd::bytes::{
    spec_u32_from_le_bytes, spec_u32_to_le_bytes, spec_u64_from_le_bytes, spec_u64_to_le_bytes,
};
use vstd::utf8::{decode_utf8, encode_utf8, valid_utf8};
use crate::errors::err::LoadError;

verus! {

pub const SECTION_WORDS: u8 = 0x01;

pub const SECTION_FLOATS: u8 = 0x02;

pub const SECTION_STRINGS: u8 = 0x03;

pub const SECTION_LOCALS: u8 = 0x04;

/// What an artifact holds.
pub struct Artifact {
    /// The bytecode, as raw words.
    pub words: Seq<u64>,
    /// The pool of float constants, as bits.
    pub floats: Seq<u64>,
    /// The pool of string constants.
    pub strings: Seq<Seq<char>>,
    /// The number of local variables.
    pub locals: u32,
}

impl Artifact {
    /// Whether every count of the artifact fits the 32 bits that the format gives it.
    pub open spec fn fits(self) -> bool {
        &&& self.words.len() <= u32::MAX
        &&& self.floats.len() <= u32::MAX
        &&& self.strings.len() <= u32::MAX
        &&& forall|i: int|
            0 <= i < self.strings.len() ==> (#[trigger] encode_utf8(self.strings[i])).len()
                <= u32::MAX
    }
}

/// The bytes of a run of 64-bit numbers.
pub open spec fn quads_bytes(quads: Seq<u64>) -> Seq<u8> {
    Seq::new(8 * quads.len(), |i: int| spec_u64_to_le_bytes(quads[i / 8])[i % 8])
}

/// The bytes of a run of strings, each behind its length in bytes.
pub open spec fn strings_bytes(strings: Seq<Seq<char>>) -> Seq<u8>
    decreases strings.len(),
{
    if strings.len() == 0 {
        Seq::empty()
    } else {
        spec_u32_to_le_bytes(encode_utf8(strings[0]).len() as u32) + encode_utf8(strings[0])
            + strings_bytes(strings.drop_first())
    }
}

/// The bytes of an artifact.
pub open spec fn serialized(artifact: Artifact) -> Seq<u8> {
    seq![SECTION_WORDS] + spec_u32_to_le_bytes(artifact.words.len() as u32) + quads_bytes(
        artifact.words,
    ) + seq![SECTION_FLOATS] + spec_u32_to_le_bytes(artifact.floats.len() as u32) + quads_bytes(
        artifact.floats,
    ) + seq![SECTION_STRINGS] + spec_u32_to_le_bytes(artifact.strings.len() as u32)
        + strings_bytes(artifact.strings) + seq![SECTION_LOCALS] + spec_u32_to_le_bytes(
        artifact.locals,
    )
}

/// The position after the marker `marker`, where that is the byte at `position`.
pub open spec fn after_marker(bytes: Seq<u8>, position: int, marker: u8) -> Result<int, LoadError> {
    if position >= bytes.len() {
        Err(LoadError::Truncated)
    } else if bytes[position] != marker {
        Err(LoadError::BadSection)
    } else {
        Ok(position + 1)
    }
}

/// The 32-bit number at `position`, and the position after it.
pub open spec fn parsed_u32(bytes: Seq<u8>, position: int) -> Result<(u32, int), LoadError> {
    if position + 4 <= bytes.len() {
        Ok((spec_u32_from_le_bytes(bytes.subrange(position, position + 4)), position + 4))
    } else {
        Err(LoadError::Truncated)
    }
}

/// The 64-bit number at `position`, and the position after it.
pub open spec fn parsed_u64(bytes: Seq<u8>, position: int) -> Result<(u64, int), LoadError> {
    if position + 8 <= bytes.len() {
        Ok((spec_u64_from_le_bytes(bytes.subrange(position, position + 8)), position + 8))
    } else {
        Err(LoadError::Truncated)
    }
}

/// The `count` 64-bit numbers from `position` on, and the position after them.
pub open spec fn parsed_quads(bytes: Seq<u8>, position: int, count: int) -> Result<
    (Seq<u64>, int),
    LoadError,
> {
    if position + 8 * count <= bytes.len() {
        Ok(
            (
                Seq::new(
                    count as nat,
                    |i: int|
                        spec_u64_from_le_bytes(
                            bytes.subrange(position + 8 * i, position + 8 * i + 8),
                        ),
                ),
                position + 8 * count,
            ),
        )
    } else {
        Err(LoadError::Truncated)
    }
}

/// The `count` strings from `position` on, and the position after them.
pub open spec fn parsed_strings(bytes: Seq<u8>, position: int, count: nat) -> Result<
    (Seq<Seq<char>>, int),
    LoadError,
>
    decreases count,
{
    if count == 0 {
        Ok((Seq::empty(), position))
    } else {
        match parsed_u32(bytes, position) {
            Err(e) => Err(e),
            Ok((length, start)) => if start + length > bytes.len() {
                Err(LoadError::Truncated)
            } else if !valid_utf8(bytes.subrange(start, start + length)) {
                Err(LoadError::InvalidUtf8)
            } else {
                match parsed_strings(bytes, start + length, (count - 1) as nat) {
                    Err(e) => Err(e),
                    Ok((rest, end)) => Ok(
                        (seq![decode_utf8(bytes.subrange(start, start + length))] + rest, end),
                    ),
                }
            },
        }
    }
}

/// A count behind its section marker.
pub open spec fn parsed_header(bytes: Seq<u8>, position: int, marker: u8) -> Result<
    (u32, int),
    LoadError,
> {
    match after_marker(bytes, position, marker) {
        Err(e) => Err(e),
        Ok(start) => parsed_u32(bytes, start),
    }
}

/// The artifact that bytes hold. Bytes after the last section are not looked at.
pub open spec fn parsed(bytes: Seq<u8>) -> Result<Artifact, LoadError> {
    match parsed_header(bytes, 0, SECTION_WORDS) {
        Err(e) => Err(e),
        Ok((n, cut1)) => match parsed_quads(bytes, cut1, n as int) {
            Err(e) => Err(e),
            Ok((words, cut2)) => match parsed_header(bytes, cut2, SECTION_FLOATS) {
                Err(e) => Err(e),
                Ok((f, cut3)) => match parsed_quads(bytes, cut3, f as int) {
                    Err(e) => Err(e),
                    Ok((floats, cut4)) => match parsed_header(bytes, cut4, SECTION_STRINGS) {
                        Err(e) => Err(e),
                        Ok((s, cut5)) => match parsed_strings(bytes, cut5, s as nat) {
                            Err(e) => Err(e),
                            Ok((strings, cut6)) => match parsed_header(bytes, cut6, SECTION_LOCALS) {
                                Err(e) => Err(e),
                                Ok((locals, _)) => Ok(Artifact { words, floats, strings, locals }),
                            },
                        },
                    },
                },
            },
        },
    }
}

/// A number that was written is the number that is read.
pub proof fn lemma_u32_round_trip(before: Seq<u8>, value: u32, after: Seq<u8>)
    ensures
        parsed_u32(before + spec_u32_to_le_bytes(value) + after, before.len() as int) == Ok::<
            (u32, int),
            LoadError,
        >((value, (before.len() + 4) as int)),
        spec_u32_to_le_bytes(value).len() == 4,
{
    vstd::bytes::lemma_auto_spec_u32_to_from_le_bytes();
    let bytes = before + spec_u32_to_le_bytes(value) + after;
    assert(bytes.subrange(before.len() as int, before.len() as int + 4) =~= spec_u32_to_le_bytes(
        value,
    ));
}

/// The numbers that were written are the numbers that are read.
pub proof fn lemma_quads_round_trip(before: Seq<u8>, quads: Seq<u64>, after: Seq<u8>)
    ensures
        parsed_quads(before + quads_bytes(quads) + after, before.len() as int, quads.len() as int)
            == Ok::<(Seq<u64>, int), LoadError>((quads, (before.len() + 8 * quads.len()) as int)),
        quads_bytes(quads).len() == 8 * quads.len(),
{
    vstd::bytes::lemma_auto_spec_u64_to_from_le_bytes();
    let bytes = before + quads_bytes(quads) + after;
    let start = before.len() as int;
    let read = parsed_quads(bytes, start, quads.len() as int);
    assert(read is Ok);
    assert forall|i: int| 0 <= i < quads.len() implies read.unwrap().0[i] == quads[i] by {
        let chunk = bytes.subrange(start + 8 * i, start + 8 * i + 8);
        assert forall|k: int| 0 <= k < 8 implies chunk[k] == spec_u64_to_le_bytes(quads[i])[k] by {
            assert(chunk[k] == bytes[start + 8 * i + k]);
            assert(bytes[start + 8 * i + k] == quads_bytes(quads)[8 * i + k]);
            assert((8 * i + k) / 8 == i && (8 * i + k) % 8 == k);
        }
        assert(chunk =~= spec_u64_to_le_bytes(quads[i]));
    }
    assert(read.unwrap().0 =~= quads);
}

/// The strings that were written are the strings that are read.
pub proof fn lemma_strings_round_trip(before: Seq<u8>, strings: Seq<Seq<char>>, after: Seq<u8>)
    requires
        forall|i: int|
            0 <= i < strings.len() ==> (#[trigger] encode_utf8(strings[i])).len() <= u32::MAX,
    ensures
        parsed_strings(before + strings_bytes(strings) + after, before.len() as int, strings.len())
            == Ok::<(Seq<Seq<char>>, int), LoadError>(
            (strings, (before.len() + strings_bytes(strings).len()) as int),
        ),
    decreases strings.len(),
{
    let bytes = before + strings_bytes(strings) + after;
    if strings.len() == 0 {
        assert(parsed_strings(bytes, before.len() as int, 0).unwrap().0 =~= strings);
    } else {
        let text = encode_utf8(strings[0]);
        let length = text.len() as u32;
        let rest = strings.drop_first();
        let tail = strings_bytes(rest) + after;
        assert(text.len() <= u32::MAX);
        assert forall|i: int| 0 <= i < rest.len() implies (#[trigger] encode_utf8(rest[i])).len()
            <= u32::MAX by {
            assert(rest[i] == strings[i + 1]);
        }
        lemma_u32_round_trip(before, length, text + tail);
        assert(bytes =~= before + spec_u32_to_le_bytes(length) + (text + tail));
        let start = before.len() as int + 4;
        assert(bytes.subrange(start, start + length) =~= text);
        vstd::utf8::encode_utf8_valid_utf8(strings[0]);
        vstd::utf8::encode_utf8_decode_utf8(strings[0]);
        let prefix = before + spec_u32_to_le_bytes(length) + text;
        lemma_strings_round_trip(prefix, rest, after);
        assert(bytes =~= prefix + strings_bytes(rest) + after);
        assert(seq![strings[0]] + rest =~= strings);
    }
}

/// The bytes of a count behind its section marker.
pub open spec fn header_bytes(marker: u8, count: u32) -> Seq<u8> {
    seq![marker] + spec_u32_to_le_bytes(count)
}

/// A count behind its marker, as it was written, is the count that is read.
pub proof fn lemma_header_round_trip(before: Seq<u8>, marker: u8, count: u32, after: Seq<u8>)
    ensures
        parsed_header(before + header_bytes(marker, count) + after, before.len() as int, marker)
            == Ok::<(u32, int), LoadError>((count, (before.len() + 5) as int)),
        header_bytes(marker, count).len() == 5,
{
    let bytes = before + header_bytes(marker, count) + after;
    lemma_u32_round_trip(before + seq![marker], count, after);
    assert(bytes =~= before + seq![marker] + spec_u32_to_le_bytes(count) + after);
    assert(bytes[before.len() as int] == marker);
}

/// Eight runs of bytes in a row can be cut after any of them.
proof fn lemma_cuts(
    a: Seq<u8>,
    b: Seq<u8>,
    c: Seq<u8>,
    d: Seq<u8>,
    e: Seq<u8>,
    f: Seq<u8>,
    g: Seq<u8>,
    h: Seq<u8>,
)
    ensures
        a + b + c + d + e + f + g + h == Seq::<u8>::empty() + a + (b + c + d + e + f + g + h),
        a + b + c + d + e + f + g + h == a + b + (c + d + e + f + g + h),
        a + b + c + d + e + f + g + h == a + b + c + (d + e + f + g + h),
        a + b + c + d + e + f + g + h == a + b + c + d + (e + f + g + h),
        a + b + c + d + e + f + g + h == a + b + c + d + e + (f + g + h),
        a + b + c + d + e + f + g + h == a + b + c + d + e + f + (g + h),
        (a + b + c + d + e + f + g + h).len() == a.len() + b.len() + c.len() + d.len() + e.len()
            + f.len() + g.len() + h.len(),
{
    let all = a + b + c + d + e + f + g + h;
    assert(all =~= Seq::<u8>::empty() + a + (b + c + d + e + f + g + h));
    assert(all =~= a + b + (c + d + e + f + g + h));
    assert(all =~= a + b + c + (d + e + f + g + h));
    assert(all =~= a + b + c + d + (e + f + g + h));
    assert(all =~= a + b + c + d + e + (f + g + h));
    assert(all =~= a + b + c + d + e + f + (g + h));
}

/// The bytes of an artifact are its four sections in a row.
pub proof fn lemma_serialized_sections(artifact: Artifact)
    ensures
        serialized(artifact) == header_bytes(SECTION_WORDS, artifact.words.len() as u32)
            + quads_bytes(artifact.words) + header_bytes(
            SECTION_FLOATS,
            artifact.floats.len() as u32,
        ) + quads_bytes(artifact.floats) + header_bytes(
            SECTION_STRINGS,
            artifact.strings.len() as u32,
        ) + strings_bytes(artifact.strings) + header_bytes(SECTION_LOCALS, artifact.locals),
{
    assert(serialized(artifact) =~= header_bytes(SECTION_WORDS, artifact.words.len() as u32)
        + quads_bytes(artifact.words) + header_bytes(SECTION_FLOATS, artifact.floats.len() as u32)
        + quads_bytes(artifact.floats) + header_bytes(
        SECTION_STRINGS,
        artifact.strings.len() as u32,
    ) + strings_bytes(artifact.strings) + header_bytes(SECTION_LOCALS, artifact.locals));
}

/// Reading what was written gives back what was written: the artifact that the bytes
/// of an artifact hold is that artifact, whatever bytes follow it.
pub proof fn lemma_round_trip(artifact: Artifact, after: Seq<u8>)
    requires
        artifact.fits(),
    ensures
        parsed(serialized(artifact) + after) == Ok::<Artifact, LoadError>(artifact),
{
    let n = artifact.words.len() as u32;
    let f = artifact.floats.len() as u32;
    let s = artifact.strings.len() as u32;
    let h1 = header_bytes(SECTION_WORDS, n);
    let w = quads_bytes(artifact.words);
    let h2 = header_bytes(SECTION_FLOATS, f);
    let fl = quads_bytes(artifact.floats);
    let h3 = header_bytes(SECTION_STRINGS, s);
    let st = strings_bytes(artifact.strings);
    let h4 = header_bytes(SECTION_LOCALS, artifact.locals);
    let bytes = h1 + w + h2 + fl + h3 + st + h4 + after;
    lemma_serialized_sections(artifact);
    assert(serialized(artifact) + after == bytes);
    lemma_cuts(h1, w, h2, fl, h3, st, h4, after);
    let empty = Seq::<u8>::empty();
    lemma_header_round_trip(empty, SECTION_WORDS, n, w + h2 + fl + h3 + st + h4 + after);
    lemma_quads_round_trip(h1, artifact.words, h2 + fl + h3 + st + h4 + after);
    lemma_header_round_trip(h1 + w, SECTION_FLOATS, f, fl + h3 + st + h4 + after);
    lemma_quads_round_trip(h1 + w + h2, artifact.floats, h3 + st + h4 + after);
    lemma_header_round_trip(h1 + w + h2 + fl, SECTION_STRINGS, s, st + h4 + after);
    lemma_strings_round_trip(h1 + w + h2 + fl + h3, artifact.strings, h4 + after);
    lemma_header_round_trip(h1 + w + h2 + fl + h3 + st, SECTION_LOCALS, artifact.locals, after);
    let cut1 = 5int;
    let cut2 = cut1 + 8 * artifact.words.len();
    let cut3 = cut2 + 5;
    let cut4 = cut3 + 8 * artifact.floats.len();
    let cut5 = cut4 + 5;
    let cut6 = cut5 + st.len();
    assert(parsed_header(bytes, 0, SECTION_WORDS) == Ok::<(u32, int), LoadError>((n, cut1)));
    assert(parsed_quads(bytes, cut1, n as int) == Ok::<(Seq<u64>, int), LoadError>(
        (artifact.words, cut2),
    ));
    assert(parsed_header(bytes, cut2, SECTION_FLOATS) == Ok::<(u32, int), LoadError>((f, cut3)));
    assert(parsed_quads(bytes, cut3, f as int) == Ok::<(Seq<u64>, int), LoadError>(
        (artifact.floats, cut4),
    ));
    assert(parsed_header(bytes, cut4, SECTION_STRINGS) == Ok::<(u32, int), LoadError>((s, cut5)));
    assert(parsed_strings(bytes, cut5, s as nat) == Ok::<(Seq<Seq<char>>, int), LoadError>(
        (artifact.strings, cut6),
    ));
    assert(parsed_header(bytes, cut6, SECTION_LOCALS) == Ok::<(u32, int), LoadError>(
        (artifact.locals, cut6 + 5),
    ));
}

} // verus!
