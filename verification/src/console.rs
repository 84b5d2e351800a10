//! Text for the firmware's console: the conversion to 16-bit code units and
//! the cutting of the converted text into null-terminated chunks, each of
//! which is handed to the firmware's output call on its own.

use crate::efi::EfiSystemTable;
use vstd::prelude::*;
use vstd::std_specs::iter::IteratorSpec;

verus! {

/// The number of code units in the buffer that stages one chunk: room for
/// 31 units of text and the terminating zero.
pub const CHUNK_UNITS: usize = 32;

/// The code units that stand for one character: a line feed becomes a
/// carriage return and a line feed; any other character of the basic plane
/// is its own code; a character beyond it is the surrogate pair of UTF-16.
pub open spec fn char_units(c: char) -> Seq<u16> {
    if c == '\n' {
        seq![0x0du16, 0x0au16]
    } else if (c as u32) < 0x1_0000 {
        seq![c as u16]
    } else {
        seq![
            (0xd800 + (c as u32 - 0x1_0000) / 0x400) as u16,
            (0xdc00 + (c as u32 - 0x1_0000) % 0x400) as u16,
        ]
    }
}

/// The code units that stand for a text: those of its characters, in order.
pub open spec fn console_units(text: Seq<char>) -> Seq<u16>
    decreases text.len(),
{
    if text.len() == 0 {
        Seq::empty()
    } else {
        console_units(text.drop_last()) + char_units(text.last())
    }
}

/// Appends the code units of one character.
fn push_char(units: &mut Vec<u16>, c: char)
    ensures
        final(units)@ == old(units)@ + char_units(c),
{
    let code: u32 = c as u32;
    if c == '\n' {
        units.push(0x0d);
        units.push(0x0a);
    } else if code < 0x1_0000 {
        units.push(code as u16);
    } else {
        let rest: u32 = code - 0x1_0000;
        units.push((0xd800 + rest / 0x400) as u16);
        units.push((0xdc00 + rest % 0x400) as u16);
    }
}

/// Converts a text to the console's 16-bit code units.
pub fn encode_console(string: &str) -> (units: Vec<u16>)
    ensures
        units@ == console_units(string@),
{
    broadcast use {vstd::string::axiom_spec_iter, vstd::string::next_postcondition};

    let mut units: Vec<u16> = Vec::new();
    let mut chars = string.chars();
    let ghost mut done: Seq<char> = Seq::empty();
    loop
        invariant
            done + chars.remaining() == string@,
            units@ == console_units(done),
            chars.decrease() is Some,
        ensures
            units@ == console_units(string@),
        decreases chars.decrease()->0,
    {
        match chars.next() {
            Some(c) => {
                push_char(&mut units, c);
                proof {
                    assert(done.push(c).drop_last() =~= done);
                    done = done.push(c);
                }
            },
            None => {
                break ;
            },
        }
    }
    units
}

/// The chunks that a sequence of code units is flushed in when each chunk
/// has room for `room` units before its terminating zero: every chunk is
/// full but the last, which holds what is left, and no chunk is without
/// text.
pub open spec fn chunks(units: Seq<u16>, room: int) -> Seq<Seq<u16>>
    decreases units.len(),
        when room > 0
{
    if units.len() == 0 {
        Seq::empty()
    } else {
        let n = if units.len() <= room {
            units.len() as int
        } else {
            room
        };
        seq![units.take(n).push(0u16)] + chunks(units.skip(n), room)
    }
}

/// The code units of the chunks in order, each without its last unit.
pub open spec fn payload(chunks: Seq<Seq<u16>>) -> Seq<u16>
    decreases chunks.len(),
{
    if chunks.len() == 0 {
        Seq::empty()
    } else {
        chunks[0].drop_last() + payload(chunks.drop_first())
    }
}

/// The contents of a list of chunks.
pub open spec fn chunk_views(chunks: Seq<Vec<u16>>) -> Seq<Seq<u16>> {
    Seq::new(chunks.len(), |i: int| chunks[i]@)
}

/// The chunks, taken together without their terminators, are the text that
/// was cut: nothing is lost, doubled or moved.
pub proof fn lemma_chunks_keep_text(units: Seq<u16>, room: int)
    requires
        room > 0,
    ensures
        payload(chunks(units, room)) == units,
    decreases units.len(),
{
    if units.len() > 0 {
        let n = if units.len() <= room {
            units.len() as int
        } else {
            room
        };
        let first = units.take(n).push(0u16);
        let rest = chunks(units.skip(n), room);
        lemma_chunks_keep_text(units.skip(n), room);
        assert((seq![first] + rest).drop_first() =~= rest);
    }
}

/// Every chunk ends in a zero, holds at least one unit of text before it
/// and at most `room`; every chunk but the last is full.
pub proof fn lemma_chunks_shape(units: Seq<u16>, room: int, i: int)
    requires
        room > 0,
        0 <= i < chunks(units, room).len(),
    ensures
        2 <= chunks(units, room)[i].len() <= room + 1,
        chunks(units, room)[i].last() == 0,
        i + 1 < chunks(units, room).len() ==> chunks(units, room)[i].len() == room + 1,
    decreases units.len(),
{
    if units.len() > 0 {
        let n = if units.len() <= room {
            units.len() as int
        } else {
            room
        };
        let first = units.take(n).push(0u16);
        let rest = chunks(units.skip(n), room);
        assert(chunks(units, room) == seq![first] + rest);
        if i > 0 {
            lemma_chunks_shape(units.skip(n), room, i - 1);
            assert(chunks(units, room)[i] == rest[i - 1]);
        }
    }
}

/// Text that fits in one chunk is flushed as that one chunk, and text that
/// does not is flushed in two chunks or more.
pub proof fn lemma_chunks_count(units: Seq<u16>, room: int)
    requires
        room > 0,
    ensures
        units.len() == 0 ==> chunks(units, room).len() == 0,
        0 < units.len() <= room ==> chunks(units, room) == seq![units.push(0u16)],
        units.len() > room ==> chunks(units, room).len() >= 2,
{
    if units.len() > 0 {
        let n = if units.len() <= room {
            units.len() as int
        } else {
            room
        };
        let rest = chunks(units.skip(n), room);
        assert(chunks(units, room) == seq![units.take(n).push(0u16)] + rest);
        if units.len() <= room {
            assert(units.take(n) =~= units);
            assert(rest =~= Seq::<Seq<u16>>::empty());
            assert(chunks(units, room) =~= seq![units.push(0u16)]);
        } else {
            let tail = units.skip(n);
            let m = if tail.len() <= room {
                tail.len() as int
            } else {
                room
            };
            assert(rest == seq![tail.take(m).push(0u16)] + chunks(tail.skip(m), room));
        }
    }
}

/// Cuts code units into the chunks that are flushed one by one, for a
/// staging buffer of `capacity` units: each chunk holds up to
/// `capacity - 1` units of text and ends in a zero. Whenever the staged
/// text would outgrow the buffer the chunk is closed and a new one begun;
/// what is staged at the end is closed as the last chunk.
pub fn chunk_units(units: &[u16], capacity: usize) -> (flushes: Vec<Vec<u16>>)
    requires
        capacity >= 2,
    ensures
        chunk_views(flushes@) == chunks(units@, capacity - 1),
{
    let room: usize = capacity - 1;
    let len: usize = units.len();
    let mut flushes: Vec<Vec<u16>> = Vec::new();
    let mut at: usize = 0;
    assert(units@.skip(0) =~= units@);
    while at < len
        invariant
            at <= len,
            len == units@.len(),
            room > 0,
            chunk_views(flushes@) + chunks(units@.skip(at as int), room as int) == chunks(
                units@,
                room as int,
            ),
        decreases len - at,
    {
        let n: usize = if len - at <= room {
            len - at
        } else {
            room
        };
        let mut chunk: Vec<u16> = Vec::new();
        let mut k: usize = 0;
        while k < n
            invariant
                k <= n,
                at + n <= len,
                len == units@.len(),
                chunk@ == units@.subrange(at as int, at + k),
            decreases n - k,
        {
            chunk.push(units[at + k]);
            k += 1;
        }
        chunk.push(0);
        proof {
            let ahead = units@.skip(at as int);
            assert(ahead.take(n as int) =~= units@.subrange(at as int, at + n));
            assert(ahead.skip(n as int) =~= units@.skip(at + n));
        }
        flushes.push(chunk);
        at += n;
    }
    flushes
}

/// Whether the console can be written to: whether a system table is
/// registered and names a text output interface.
pub open spec fn console_available(st: Option<&EfiSystemTable>) -> bool {
    match st {
        Some(table) => table.con_out != 0,
        None => false,
    }
}

/// The chunks that writing `text` to the console flushes, in order.
pub open spec fn console_chunks(st: Option<&EfiSystemTable>, text: Seq<char>) -> Seq<Seq<u16>> {
    if console_available(st) {
        chunks(console_units(text), CHUNK_UNITS - 1)
    } else {
        Seq::empty()
    }
}

/// Prepares `string` for the firmware's console and returns the chunks to
/// hand to its output call, one call each, in order. `st` is the registered
/// system table, or `None` while nothing is registered. Where the console
/// cannot be written to there is nothing to flush.
pub fn output_string(st: Option<&EfiSystemTable>, string: &str) -> (flushes: Vec<Vec<u16>>)
    ensures
        chunk_views(flushes@) == console_chunks(st, string@),
{
    let available = match st {
        Some(table) => table.con_out != 0,
        None => false,
    };
    if !available {
        let flushes: Vec<Vec<u16>> = Vec::new();
        return flushes;
    }
    let units = encode_console(string);
    chunk_units(units.as_slice(), CHUNK_UNITS)
}

} // verus!
