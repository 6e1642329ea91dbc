//! Scanning the text of an HTTP request or response, as bytes: finding a
//! token, finding a header line, and cutting out and trimming its value.

use vstd::prelude::*;
use vstd::slice::{slice_subrange, slice_to_vec};

verus! {

/// Line feed, which ends a line.
pub const LINE_FEED: u8 = 0x0A;

/// The colon, which ends a field of a header line.
pub const COLON: u8 = 0x3A;

/// `needle` stands in `hay` at index `at`.
pub open spec fn occurs_at(hay: Seq<u8>, needle: Seq<u8>, at: int) -> bool {
    0 <= at && at + needle.len() <= hay.len() && hay.subrange(at, at + needle.len()) == needle
}

/// `needle` stands somewhere in `hay`.
pub open spec fn contains_bytes(hay: Seq<u8>, needle: Seq<u8>) -> bool {
    exists|at: int| occurs_at(hay, needle, at)
}

/// A line begins at index `at`: at the start of the text or after a line feed.
pub open spec fn line_start(text: Seq<u8>, at: int) -> bool {
    0 <= at <= text.len() && (at == 0 || text[at - 1] == LINE_FEED)
}

/// A line that begins with `name` begins at index `at`.
pub open spec fn header_at(text: Seq<u8>, name: Seq<u8>, at: int) -> bool {
    line_start(text, at) && occurs_at(text, name, at)
}

/// Some line of `text` begins with `name`.
pub open spec fn has_header(text: Seq<u8>, name: Seq<u8>) -> bool {
    exists|at: int| header_at(text, name, at)
}

/// `at` is where the last line that begins with `name` begins.
pub open spec fn is_last_header(text: Seq<u8>, name: Seq<u8>, at: int) -> bool {
    header_at(text, name, at) && forall|other: int|
        header_at(text, name, other) ==> other <= at
}

/// Where the last line that begins with `name` begins.
pub open spec fn last_header(text: Seq<u8>, name: Seq<u8>) -> int {
    choose|at: int| is_last_header(text, name, at)
}

/// A field ends at index `at`: at a colon, at a line feed or at the end of the text.
pub open spec fn field_stop(text: Seq<u8>, at: int) -> bool {
    at == text.len() || text[at] == COLON || text[at] == LINE_FEED
}

/// `end` is where the field that begins at `from` ends.
pub open spec fn is_field_end(text: Seq<u8>, from: int, end: int) -> bool {
    from <= end <= text.len() && field_stop(text, end) && forall|k: int|
        from <= k < end ==> !field_stop(text, k)
}

/// Where the field that begins at `from` ends.
pub open spec fn field_end(text: Seq<u8>, from: int) -> int {
    choose|end: int| is_field_end(text, from, end)
}

/// The bytes that count as white space: space, tab, line feed, vertical
/// tab, form feed and carriage return.
pub open spec fn is_space(byte: u8) -> bool {
    byte == 0x20 || 0x09 <= byte <= 0x0D
}

/// `text` without the white space at its start.
pub open spec fn trim_start(text: Seq<u8>) -> Seq<u8>
    decreases text.len(),
{
    if text.len() > 0 && is_space(text.first()) {
        trim_start(text.drop_first())
    } else {
        text
    }
}

/// `text` without the white space at its end.
pub open spec fn trim_end(text: Seq<u8>) -> Seq<u8>
    decreases text.len(),
{
    if text.len() > 0 && is_space(text.last()) {
        trim_end(text.drop_last())
    } else {
        text
    }
}

/// `text` without the white space at either end.
pub open spec fn trim(text: Seq<u8>) -> Seq<u8> {
    trim_end(trim_start(text))
}

/// The value of the header `name`, which ends in its colon: of the last
/// line that begins with `name`, what stands after the name up to the
/// next colon or the end of the line, without the white space around it.
pub open spec fn header_value(text: Seq<u8>, name: Seq<u8>) -> Seq<u8>
    recommends
        has_header(text, name),
{
    let from = last_header(text, name) + name.len();
    trim(text.subrange(from, field_end(text, from)))
}

/// Tells whether `needle` stands in `hay` at index `at`.
pub fn matches_at(hay: &[u8], needle: &[u8], at: usize) -> (found: bool)
    ensures
        found == occurs_at(hay@, needle@, at as int),
{
    let hay_len: usize = hay.len();
    let needle_len: usize = needle.len();
    if at > hay_len || needle_len > hay_len - at {
        return false;
    }
    let mut i: usize = 0;
    while i < needle_len
        invariant
            i <= needle_len,
            needle_len == needle@.len(),
            hay_len == hay@.len(),
            at + needle_len <= hay_len,
            hay@.subrange(at as int, at + i) == needle@.take(i as int),
        decreases needle_len - i,
    {
        if hay[at + i] != needle[i] {
            assert(hay@.subrange(at as int, at + needle_len)[i as int] != needle@[i as int]);
            return false;
        }
        assert(hay@.subrange(at as int, at + i + 1) =~= needle@.take(i + 1)) by {
            assert(hay@.subrange(at as int, at + i + 1).drop_last() =~= hay@.subrange(
                at as int,
                at + i,
            ));
            assert(needle@.take(i + 1).drop_last() =~= needle@.take(i as int));
        }
        i += 1;
    }
    assert(needle@.take(needle_len as int) =~= needle@);
    true
}

/// Tells whether `needle` stands somewhere in `hay`.
pub fn contains(hay: &[u8], needle: &[u8]) -> (found: bool)
    ensures
        found == contains_bytes(hay@, needle@),
{
    let hay_len: usize = hay.len();
    let mut at: usize = 0;
    loop
        invariant
            at <= hay_len,
            hay_len == hay@.len(),
            forall|before: int| 0 <= before < at ==> !occurs_at(hay@, needle@, before),
        decreases hay_len - at,
    {
        if matches_at(hay, needle, at) {
            return true;
        }
        if at == hay_len {
            return false;
        }
        at += 1;
    }
}

/// Only one index is where the last line that begins with `name` begins.
pub proof fn lemma_last_header_unique(text: Seq<u8>, name: Seq<u8>, at: int)
    requires
        is_last_header(text, name, at),
    ensures
        has_header(text, name),
        last_header(text, name) == at,
{
    assert(header_at(text, name, at));
    let chosen = last_header(text, name);
    assert(is_last_header(text, name, chosen));
}

/// Only one index is where the field that begins at `from` ends.
pub proof fn lemma_field_end_unique(text: Seq<u8>, from: int, end: int)
    requires
        is_field_end(text, from, end),
    ensures
        field_end(text, from) == end,
{
    let chosen = field_end(text, from);
    assert(is_field_end(text, from, chosen));
    if chosen < end {
        assert(!field_stop(text, chosen));
    }
    if end < chosen {
        assert(!field_stop(text, end));
    }
}

/// Finds where the last line that begins with `name` begins, if any line does.
pub fn find_header(text: &[u8], name: &[u8]) -> (found: Option<usize>)
    ensures
        match found {
            Some(at) => is_last_header(text@, name@, at as int),
            None => !has_header(text@, name@),
        },
{
    let len: usize = text.len();
    let mut found: Option<usize> = None;
    let mut at: usize = 0;
    loop
        invariant
            at <= len,
            len == text@.len(),
            match found {
                Some(last) => last < at && header_at(text@, name@, last as int) && forall|
                    other: int,
                |
                    other < at && header_at(text@, name@, other) ==> other <= last,
                None => forall|other: int| other < at ==> !header_at(text@, name@, other),
            },
        decreases len - at,
    {
        let starts: bool = at == 0 || text[at - 1] == LINE_FEED;
        if starts && matches_at(text, name, at) {
            found = Some(at);
        }
        if at == len {
            return found;
        }
        at += 1;
    }
}

/// Finds where the field that begins at `from` ends.
pub fn find_field_end(text: &[u8], from: usize) -> (end: usize)
    requires
        from <= text@.len(),
    ensures
        is_field_end(text@, from as int, end as int),
{
    let len: usize = text.len();
    let mut end: usize = from;
    while end < len && text[end] != COLON && text[end] != LINE_FEED
        invariant
            from <= end <= len,
            len == text@.len(),
            forall|k: int| from <= k < end ==> !field_stop(text@, k),
        decreases len - end,
    {
        end += 1;
    }
    end
}

/// Tells whether `byte` counts as white space.
pub fn is_space_byte(byte: u8) -> (space: bool)
    ensures
        space == is_space(byte),
{
    byte == 0x20 || (0x09 <= byte && byte <= 0x0D)
}

/// The part of `text` that is left when the white space at both ends is taken off.
pub fn trimmed(text: &[u8]) -> (out: &[u8])
    ensures
        out@ == trim(text@),
{
    let len: usize = text.len();
    let mut start: usize = 0;
    assert(text@.subrange(0, len as int) =~= text@);
    while start < len && is_space_byte(text[start])
        invariant
            start <= len,
            len == text@.len(),
            trim_start(text@) == trim_start(text@.subrange(start as int, len as int)),
        decreases len - start,
    {
        assert(text@.subrange(start as int, len as int).drop_first() =~= text@.subrange(
            start + 1,
            len as int,
        ));
        start += 1;
    }
    let mut end: usize = len;
    while end > start && is_space_byte(text[end - 1])
        invariant
            start <= end <= len,
            len == text@.len(),
            trim(text@) == trim_end(text@.subrange(start as int, end as int)),
        decreases end,
    {
        assert(text@.subrange(start as int, end as int).drop_last() =~= text@.subrange(
            start as int,
            end - 1,
        ));
        end -= 1;
    }
    slice_subrange(text, start, end)
}

/// The value of the header `name`, if `text` has a line that begins with
/// it: see `header_value`.
pub fn header_value_of(text: &[u8], name: &[u8]) -> (value: Option<Vec<u8>>)
    ensures
        match value {
            Some(bytes) => has_header(text@, name@) && bytes@ == header_value(text@, name@),
            None => !has_header(text@, name@),
        },
{
    match find_header(text, name) {
        None => None,
        Some(at) => {
            proof {
                lemma_last_header_unique(text@, name@, at as int);
            }
            let held: usize = text.len();
            let from: usize = at + name.len();
            let end: usize = find_field_end(text, from);
            proof {
                lemma_field_end_unique(text@, from as int, end as int);
            }
            Some(slice_to_vec(trimmed(slice_subrange(text, from, end))))
        },
    }
}

} // verus!
