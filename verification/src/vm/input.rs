//! Making a virtual machine: from words and pools, or from the bytes of a compiled
//! artifact.

use vstd::prelude::*;
use vstd::utf8::{decode_utf8, valid_utf8};
use crate::artifact::{
    after_marker, parsed, parsed_header, parsed_quads, parsed_strings, parsed_u32, parsed_u64,
    SECTION_FLOATS, SECTION_LOCALS, SECTION_STRINGS, SECTION_WORDS,
};
use crate::errors::err::{LanguloErr, LoadError};
use crate::vm::machine::Machine;
use crate::vm::{pooled, VM};
use crate::word::structure::Word;

verus! {

/// A pool in which every entry is still to be read.
pub open spec fn untaken<T>(pool: Seq<T>) -> Seq<Option<T>> {
    Seq::new(pool.len(), |i: int| Some(pool[i]))
}

/// The machine that is about to run `code` with the given pools.
pub open spec fn initial(
    code: Seq<Word>,
    floats: Seq<Option<u64>>,
    strings: Seq<Option<Seq<char>>>,
) -> Machine {
    Machine {
        code,
        ip: 0,
        stack: Seq::empty(),
        locals: Seq::empty(),
        heap: Seq::empty(),
        traced: Seq::empty(),
        floats,
        strings,
        pending: false,
    }
}

/// The words with the given raw bits.
pub open spec fn words_of(raw: Seq<u64>) -> Seq<Word> {
    Seq::new(raw.len(), |i: int| Word(raw[i]))
}

/// `String::from_utf8`: the string that the bytes encode, and nothing where the bytes are
/// not UTF-8.
#[verifier::external_body]
fn string_from_utf8(bytes: Vec<u8>) -> (text: Option<String>)
    ensures
        text is Some <==> valid_utf8(bytes@),
        text matches Some(s) ==> s@ == decode_utf8(bytes@),
{
    String::from_utf8(bytes).ok()
}

/// The next `length` bytes, from `position` on. The position moves past them.
pub fn read_bytes<'a>(bytes: &'a [u8], position: &mut usize, length: usize) -> (result: Result<
    &'a [u8],
    LanguloErr,
>)
    ensures
        *old(position) + length <= bytes@.len() ==> result is Ok && result.unwrap()@
            == bytes@.subrange(*old(position) as int, *old(position) + length) && *final(position)
            == *old(position) + length,
        *old(position) + length > bytes@.len() ==> result == Err::<&'a [u8], LanguloErr>(
            LanguloErr::Load(LoadError::Truncated),
        ) && *final(position) == *old(position),
{
    let start = *position;
    if start > bytes.len() || length > bytes.len() - start {
        return Err(LanguloErr::Load(LoadError::Truncated));
    }
    *position = start + length;
    Ok(vstd::slice::slice_subrange(bytes, start, start + length))
}

pub fn read_u64(bytes: &[u8], position: &mut usize) -> (result: Result<u64, LanguloErr>)
    ensures
        match parsed_u64(bytes@, *old(position) as int) {
            Ok((value, next)) => result == Ok::<u64, LanguloErr>(value) && *final(position) == next,
            Err(e) => result == Err::<u64, LanguloErr>(LanguloErr::Load(e)) && *final(position)
                == *old(position),
        },
{
    match read_bytes(bytes, position, 8) {
        Ok(chunk) => Ok(vstd::bytes::u64_from_le_bytes(chunk)),
        Err(e) => Err(e),
    }
}

pub fn read_u32(bytes: &[u8], position: &mut usize) -> (result: Result<u32, LanguloErr>)
    ensures
        match parsed_u32(bytes@, *old(position) as int) {
            Ok((value, next)) => result == Ok::<u32, LanguloErr>(value) && *final(position) == next,
            Err(e) => result == Err::<u32, LanguloErr>(LanguloErr::Load(e)) && *final(position)
                == *old(position),
        },
{
    match read_bytes(bytes, position, 4) {
        Ok(chunk) => Ok(vstd::bytes::u32_from_le_bytes(chunk)),
        Err(e) => Err(e),
    }
}

/// A copy of the next `length` bytes.
pub fn read_vec(bytes: &[u8], position: &mut usize, length: usize) -> (result: Result<
    Vec<u8>,
    LanguloErr,
>)
    ensures
        *old(position) + length <= bytes@.len() ==> result is Ok && result.unwrap()@
            == bytes@.subrange(*old(position) as int, *old(position) + length) && *final(position)
            == *old(position) + length,
        *old(position) + length > bytes@.len() ==> result == Err::<Vec<u8>, LanguloErr>(
            LanguloErr::Load(LoadError::Truncated),
        ) && *final(position) == *old(position),
{
    match read_bytes(bytes, position, length) {
        Ok(chunk) => Ok(vstd::slice::slice_to_vec(chunk)),
        Err(e) => Err(e),
    }
}

/// The byte that marks a section.
fn read_marker(bytes: &[u8], position: &mut usize, marker: u8) -> (result: Result<(), LanguloErr>)
    ensures
        match after_marker(bytes@, *old(position) as int, marker) {
            Ok(next) => result is Ok && *final(position) == next,
            Err(e) => result == Err::<(), LanguloErr>(LanguloErr::Load(e)) && *final(position)
                == *old(position),
        },
{
    let start = *position;
    if start >= bytes.len() {
        return Err(LanguloErr::Load(LoadError::Truncated));
    }
    if bytes[start] != marker {
        return Err(LanguloErr::Load(LoadError::BadSection));
    }
    *position = start + 1;
    Ok(())
}

/// The count of a section, behind the section's marker.
fn read_header(bytes: &[u8], position: &mut usize, marker: u8) -> (result: Result<u32, LanguloErr>)
    ensures
        match parsed_header(bytes@, *old(position) as int, marker) {
            Ok((count, next)) => result == Ok::<u32, LanguloErr>(count) && *final(position) == next,
            Err(e) => result == Err::<u32, LanguloErr>(LanguloErr::Load(e)) && *final(position)
                == *old(position),
        },
{
    let start = *position;
    match read_marker(bytes, position, marker) {
        Ok(()) => {},
        Err(e) => {
            return Err(e);
        },
    }
    match read_u32(bytes, position) {
        Ok(count) => Ok(count),
        Err(e) => {
            *position = start;
            Err(e)
        },
    }
}

/// The next `count` 64-bit numbers.
fn read_quads(bytes: &[u8], position: &mut usize, count: u32) -> (result: Result<
    Vec<u64>,
    LanguloErr,
>)
    ensures
        match parsed_quads(bytes@, *old(position) as int, count as int) {
            Ok((quads, next)) => result is Ok && result.unwrap()@ == quads && *final(position)
                == next,
            Err(e) => result == Err::<Vec<u64>, LanguloErr>(LanguloErr::Load(e))
                && *final(position) == *old(position),
        },
{
    let start = *position;
    if start > bytes.len() || (count as u64) > ((bytes.len() - start) as u64) / 8 {
        return Err(LanguloErr::Load(LoadError::Truncated));
    }
    let mut quads: Vec<u64> = Vec::new();
    let mut i: u32 = 0;
    while i < count
        invariant
            i <= count,
            start + 8 * count <= bytes@.len(),
            *position == start + 8 * i,
            quads@.len() == i,
            forall|k: int|
                0 <= k < i ==> quads@[k] == vstd::bytes::spec_u64_from_le_bytes(
                    bytes@.subrange(start + 8 * k, start + 8 * k + 8),
                ),
        decreases count - i,
    {
        match read_u64(bytes, position) {
            Ok(value) => {
                quads.push(value);
            },
            Err(e) => {
                assert(false);
                return Err(e);
            },
        }
        i += 1;
    }
    proof {
        assert(quads@ =~= parsed_quads(bytes@, start as int, count as int).unwrap().0);
    }
    Ok(quads)
}

/// The next `count` strings, each behind its length.
fn read_strings(bytes: &[u8], position: &mut usize, count: u32) -> (result: Result<
    Vec<Option<String>>,
    LanguloErr,
>)
    ensures
        match parsed_strings(bytes@, *old(position) as int, count as nat) {
            Ok((strings, next)) => result is Ok && Seq::new(
                result.unwrap()@.len(),
                |i: int| pooled(result.unwrap()@[i]),
            ) == untaken(strings) && *final(position) == next,
            Err(e) => result == Err::<Vec<Option<String>>, LanguloErr>(LanguloErr::Load(e)),
        },
{
    let ghost start = *position as int;
    let ghost mut read: Seq<Seq<char>> = Seq::empty();
    let mut strings: Vec<Option<String>> = Vec::new();
    let mut i: u32 = 0;
    while i < count
        invariant
            i <= count,
            read.len() == i,
            start == *old(position),
            Seq::new(strings@.len(), |k: int| pooled(strings@[k])) == untaken(read),
            parsed_strings(bytes@, start, count as nat) == match parsed_strings(
                bytes@,
                *position as int,
                (count - i) as nat,
            ) {
                Ok((rest, next)) => Ok::<(Seq<Seq<char>>, int), LoadError>((read + rest, next)),
                Err(e) => Err::<(Seq<Seq<char>>, int), LoadError>(e),
            },
        decreases count - i,
    {
        let ghost here = *position as int;
        let length = match read_u32(bytes, position) {
            Ok(length) => length,
            Err(e) => {
                return Err(e);
            },
        };
        let ghost begin = *position as int;
        let data = match read_vec(bytes, position, length as usize) {
            Ok(data) => data,
            Err(e) => {
                return Err(e);
            },
        };
        let text = match string_from_utf8(data) {
            Some(text) => text,
            None => {
                return Err(LanguloErr::Load(LoadError::InvalidUtf8));
            },
        };
        proof {
            let chars = text@;
            match parsed_strings(bytes@, begin + length, (count - i - 1) as nat) {
                Ok((rest, next)) => {
                    assert(read + (seq![chars] + rest) =~= read.push(chars) + rest);
                },
                Err(e) => {},
            }
            let pool = Seq::new(strings@.len(), |k: int| pooled(strings@[k]));
            let grown = strings@.push(Some(text));
            let grown_pool = Seq::new(grown.len(), |k: int| pooled(grown[k]));
            assert(pool.len() == read.len());
            assert forall|k: int| 0 <= k < grown_pool.len() implies grown_pool[k] == untaken(
                read.push(chars),
            )[k] by {
                if k < strings@.len() {
                    assert(pool[k] == untaken(read)[k]);
                    assert(grown[k] == strings@[k]);
                }
            }
            assert(grown_pool =~= untaken(read.push(chars)));
            read = read.push(chars);
        }
        strings.push(Some(text));
        i += 1;
    }
    proof {
        assert(read + Seq::<Seq<char>>::empty() =~= read);
    }
    Ok(strings)
}

impl VM {
    /// A machine for `bytecode`, with pools of float constants, given by their bits,
    /// and of string constants.
    pub fn new(bytecode: Vec<Word>, heap_floats: Vec<u64>, heap_strings: Vec<Option<String>>) -> (vm:
        VM)
        ensures
            vm.wf(),
            vm@ == initial(
                bytecode@,
                untaken(heap_floats@),
                Seq::new(heap_strings@.len(), |i: int| pooled(heap_strings@[i])),
            ),
    {
        let mut floats: Vec<Option<u64>> = Vec::new();
        let mut i: usize = 0;
        while i < heap_floats.len()
            invariant
                i <= heap_floats@.len(),
                floats@ == untaken(heap_floats@.take(i as int)),
            decreases heap_floats@.len() - i,
        {
            floats.push(Some(heap_floats[i]));
            proof {
                assert(floats@ =~= untaken(heap_floats@.take(i + 1)));
            }
            i += 1;
        }
        proof {
            assert(heap_floats@.take(i as int) =~= heap_floats@);
        }
        VM::assemble(bytecode, floats, heap_strings)
    }

    pub fn from_bytecode_only(bytecode: Vec<Word>) -> (vm: VM)
        ensures
            vm.wf(),
            vm@ == initial(bytecode@, Seq::empty(), Seq::empty()),
    {
        let vm = VM::assemble(bytecode, Vec::new(), Vec::new());
        proof {
            assert(vm@.strings =~= Seq::empty());
        }
        vm
    }

    /// The machine that is about to run the program of a compiled artifact.
    pub fn from_compiled_stream(bytes: &[u8]) -> (result: Result<VM, LanguloErr>)
        ensures
            match parsed(bytes@) {
                Ok(artifact) => result is Ok && result.unwrap().wf() && result.unwrap()@
                    == initial(
                    words_of(artifact.words),
                    untaken(artifact.floats),
                    untaken(artifact.strings),
                ),
                Err(e) => result matches Err(error) && error == LanguloErr::Load(e),
            },
    {
        let mut position: usize = 0;
        let count = match read_header(bytes, &mut position, SECTION_WORDS) {
            Ok(count) => count,
            Err(e) => {
                return Err(e);
            },
        };
        let raw = match read_quads(bytes, &mut position, count) {
            Ok(raw) => raw,
            Err(e) => {
                return Err(e);
            },
        };
        let mut bytecode: Vec<Word> = Vec::new();
        let mut i: usize = 0;
        while i < raw.len()
            invariant
                i <= raw@.len(),
                bytecode@ == words_of(raw@.take(i as int)),
            decreases raw@.len() - i,
        {
            bytecode.push(Word::from_u64(raw[i]));
            proof {
                assert(bytecode@ =~= words_of(raw@.take(i + 1)));
            }
            i += 1;
        }
        proof {
            assert(raw@.take(i as int) =~= raw@);
        }
        let count = match read_header(bytes, &mut position, SECTION_FLOATS) {
            Ok(count) => count,
            Err(e) => {
                return Err(e);
            },
        };
        let heap_floats = match read_quads(bytes, &mut position, count) {
            Ok(floats) => floats,
            Err(e) => {
                return Err(e);
            },
        };
        let count = match read_header(bytes, &mut position, SECTION_STRINGS) {
            Ok(count) => count,
            Err(e) => {
                return Err(e);
            },
        };
        let heap_strings = match read_strings(bytes, &mut position, count) {
            Ok(strings) => strings,
            Err(e) => {
                return Err(e);
            },
        };
        match read_header(bytes, &mut position, SECTION_LOCALS) {
            Ok(_) => {},
            Err(e) => {
                return Err(e);
            },
        }
        Ok(VM::new(bytecode, heap_floats, heap_strings))
    }
}

} // verus!
