//! The scanner of a manual JSON parser: the input and its position, strings
//! and booleans

use vstd::prelude::*;
use vstd::slice::slice_subrange;
use vstd::string::StringSliceAdditionalSpecFns;

verus! {

/// Errors of the JSON parser
#[derive(Debug, PartialEq)]
pub enum JsonError {
    /// Received an invalid start of string character
    InvalidStartOfString(usize, char),
    /// End of file found while parsing
    EndOfFileFound,
    /// Overflowed the position
    PositionOverflow(usize),
    /// Found an unclosed string
    UnclosedString(usize),
    /// Not enough data found for parsing a bool
    InvalidDataForBool(usize),
}

/// The input of the parser
pub struct ParseInput<'a> {
    /// The current position in the input to read
    pub position: usize,
    /// The data being parsed
    pub data: &'a [u8],
}

/// The quotation mark that opens and closes a string.
pub const QUOTE: u8 = 0x22;

/// Whether a byte is a space or a newline.
pub open spec fn is_space(byte: u8) -> bool {
    byte == 0x20 || byte == 0x0a
}

/// The position of the first byte at or behind a position that is no space
/// and no newline, or the length where there is none.
pub open spec fn first_non_space(data: Seq<u8>, from: int) -> int
    decreases data.len() - from,
{
    if from < 0 || from >= data.len() {
        data.len() as int
    } else if !is_space(data[from]) {
        from
    } else {
        first_non_space(data, from + 1)
    }
}

/// The position of the first quotation mark at or behind a position, or
/// the length where there is none.
pub open spec fn first_quote(data: Seq<u8>, from: int) -> int
    decreases data.len() - from,
{
    if from < 0 || from >= data.len() {
        data.len() as int
    } else if data[from] == QUOTE {
        from
    } else {
        first_quote(data, from + 1)
    }
}

/// The first byte that is no space is the first one: before it stand spaces only.
pub proof fn lemma_first_non_space(data: Seq<u8>, from: int)
    requires
        0 <= from <= data.len(),
    ensures
        from <= first_non_space(data, from) <= data.len(),
        first_non_space(data, from) < data.len() ==> !is_space(data[first_non_space(data, from)]),
        forall|i: int| from <= i < first_non_space(data, from) ==> is_space(data[i]),
    decreases data.len() - from,
{
    if from < data.len() && is_space(data[from]) {
        lemma_first_non_space(data, from + 1);
    }
}

/// The first quotation mark is the first one: before it stands none.
pub proof fn lemma_first_quote(data: Seq<u8>, from: int)
    requires
        0 <= from <= data.len(),
    ensures
        from <= first_quote(data, from) <= data.len(),
        first_quote(data, from) < data.len() ==> data[first_quote(data, from)] == QUOTE,
        forall|i: int| from <= i < first_quote(data, from) ==> data[i] != QUOTE,
    decreases data.len() - from,
{
    if from < data.len() && data[from] != QUOTE {
        lemma_first_quote(data, from + 1);
    }
}

/// The position behind the spaces and newlines that stand at a position.
/// Where nothing but spaces and newlines follows, the position stays.
pub open spec fn skip_spaces(data: Seq<u8>, from: int) -> int {
    let found = first_non_space(data, from);
    if found < data.len() {
        found
    } else {
        from
    }
}

/// The character that a byte is read as.
pub open spec fn char_of(byte: u8) -> char {
    byte as char
}

impl<'a> ParseInput<'a> {
    /// The position lies within the data or at its end.
    pub open spec fn wf(&self) -> bool {
        self.position <= self.data@.len()
    }

    /// Create a [`ParseInput`] from the given data
    pub fn from_str(data: &'a str) -> (res: Self)
        ensures
            res.wf(),
            res.position == 0,
            res.data@ == data.spec_bytes(),
    {
        Self { position: 0, data: data.as_bytes() }
    }

    /// Create a [`ParseInput`] from the given bytes
    pub fn from_bytes(data: &'a [u8]) -> (res: Self)
        ensures
            res.wf(),
            res.position == 0,
            res.data@ == data@,
    {
        Self { position: 0, data }
    }

    /// Get the length of the data that is left to parse
    pub fn len(&self) -> (res: usize)
        requires
            self.wf(),
        ensures
            res == self.data@.len() - self.position,
    {
        self.data.len() - self.position
    }

    /// Look at the next character from the current position of the input
    /// without adjusting the position
    pub fn peek(&self) -> (res: Option<char>)
        ensures
            self.position < self.data@.len() ==> res == Some(
                char_of(self.data@[self.position as int]),
            ),
            self.position >= self.data@.len() ==> res.is_none(),
    {
        if self.position < self.data.len() {
            Some(self.data[self.position] as char)
        } else {
            None
        }
    }

    /// Get the next character from the current position of the input
    /// and adjust the position to the next character
    pub fn next(&mut self) -> (res: Option<char>)
        ensures
            final(self).data == old(self).data,
            old(self).position < old(self).data@.len() ==> res == Some(
                char_of(old(self).data@[old(self).position as int]),
            ) && final(self).position == old(self).position + 1,
            old(self).position >= old(self).data@.len() ==> res.is_none() && final(self).position
                == old(self).position,
    {
        if self.position < self.data.len() {
            let res = self.data[self.position] as char;
            // Adjust the position since a valid character was found
            self.position += 1;
            Some(res)
        } else {
            None
        }
    }

    /// Move the position forward past all whitespace and newlines
    pub fn consume_all_whitespace(&mut self)
        requires
            old(self).wf(),
        ensures
            final(self).wf(),
            final(self).data == old(self).data,
            final(self).position == skip_spaces(old(self).data@, old(self).position as int),
    {
        let start_pos = self.position;
        let mut at: usize = start_pos;
        proof {
            lemma_first_non_space(self.data@, start_pos as int);
        }
        while at < self.data.len()
            invariant
                start_pos <= at <= self.data@.len(),
                start_pos == old(self).position,
                self.position == start_pos,
                self.data == old(self).data,
                first_non_space(self.data@, start_pos as int) == first_non_space(
                    self.data@,
                    at as int,
                ),
            decreases self.data@.len() - at,
        {
            let next_byte = self.data[at];
            if !(next_byte == 0x20 || next_byte == 0x0a) {
                assert(first_non_space(self.data@, at as int) == at);
                self.position = at;
                return ;
            }
            at += 1;
        }
    }

    /// Set the position to the given position and then consume all whitespace
    pub fn set_position(&mut self, position: usize)
        requires
            position <= old(self).data@.len(),
        ensures
            final(self).wf(),
            final(self).data == old(self).data,
            final(self).position == skip_spaces(old(self).data@, position as int),
    {
        self.position = position;
        self.consume_all_whitespace();
    }

    /// Increment the position by the given offset, and consume all whitespace
    /// there. A position behind the end of the data is refused.
    pub fn increment_position(&mut self, offset: usize) -> (res: Result<(), JsonError>)
        requires
            old(self).wf(),
        ensures
            final(self).wf(),
            final(self).data == old(self).data,
            old(self).position + offset <= old(self).data@.len() ==> res is Ok
                && final(self).position == skip_spaces(
                old(self).data@,
                old(self).position + offset,
            ),
            old(self).position + offset > old(self).data@.len() ==> res == Err::<(), JsonError>(
                JsonError::PositionOverflow(old(self).position),
            ) && final(self).position == old(self).position,
    {
        // Check for overflow of the position
        if offset > self.data.len() - self.position {
            return Err(JsonError::PositionOverflow(self.position));
        }
        let new_pos = self.position + offset;

        // Update the position
        self.set_position(new_pos);

        // Successful increment
        Ok(())
    }
}

/// Where a string lies that starts at a position: the positions of the
/// first byte behind the quotation mark and of the closing quotation mark.
pub open spec fn string_span(data: Seq<u8>, position: int) -> Result<(int, int), JsonError> {
    if position >= data.len() {
        Err(JsonError::EndOfFileFound)
    } else if data[position] != QUOTE {
        Err(JsonError::InvalidStartOfString((position + 1) as usize, char_of(data[position])))
    } else {
        let end = first_quote(data, position + 1);
        if end < data.len() {
            Ok((position + 1, end))
        } else {
            Err(JsonError::UnclosedString(position as usize))
        }
    }
}

/// Find the string that starts at the position of the input: the positions
/// of its first byte and of its closing quotation mark. The input moves behind
/// the string and the whitespace that follows it; on an error it stays behind
/// the byte that was read.
pub fn scan_string(data: &mut ParseInput) -> (res: Result<(usize, usize), JsonError>)
    requires
        old(data).wf(),
    ensures
        final(data).wf(),
        final(data).data == old(data).data,
        match string_span(old(data).data@, old(data).position as int) {
            Ok((start, end)) => res is Ok && res->Ok_0.0 == start && res->Ok_0.1 == end && start
                <= end < old(data).data@.len() && final(data).position == skip_spaces(
                old(data).data@,
                end + 1,
            ),
            Err(e) => res == Err::<(usize, usize), JsonError>(e) && final(data).position == (
            if old(data).position < old(data).data@.len() {
                old(data).position + 1
            } else {
                old(data).position as int
            }),
        },
{
    // Ensure the first byte is a starting string quote
    if data.position >= data.data.len() {
        return Err(JsonError::EndOfFileFound);
    }
    let next_byte = data.data[data.position];
    data.position += 1;

    // Ensure the first byte of the string is the string delimiter
    if next_byte != QUOTE {
        return Err(JsonError::InvalidStartOfString(data.position, next_byte as char));
    }
    let start_pos = data.position;
    let mut at: usize = start_pos;
    proof {
        lemma_first_quote(data.data@, start_pos as int);
    }
    while at < data.data.len()
        invariant
            start_pos <= at <= data.data@.len(),
            start_pos == old(data).position + 1,
            old(data).data@[old(data).position as int] == QUOTE,
            data.position == start_pos,
            data.data == old(data).data,
            first_quote(data.data@, start_pos as int) == first_quote(data.data@, at as int),
        decreases data.data@.len() - at,
    {
        // Break out once an ending string is found
        if data.data[at] == QUOTE {
            assert(first_quote(data.data@, at as int) == at);
            // Update the position of the input, and eat all whitespace
            data.set_position(at + 1);
            return Ok((start_pos, at));
        }
        at += 1;
    }
    Err(JsonError::UnclosedString(start_pos - 1))
}

/// The text that bytes decode to as UTF-8, where each invalid sequence gives
/// the replacement character.
pub uninterp spec fn utf8_lossy(bytes: Seq<u8>) -> Seq<char>;

/// `String::from_utf8_lossy`, as an owned string: the bytes decoded as
/// UTF-8, with the replacement character in place of what is invalid.
#[verifier::external_body]
fn decode_lossy(bytes: &[u8]) -> (res: String)
    ensures
        res@ == utf8_lossy(bytes@),
{
    String::from_utf8_lossy(bytes).to_string()
}

/// Parse a string from the given data
pub fn parse_string(data: &mut ParseInput) -> (res: Result<String, JsonError>)
    requires
        old(data).wf(),
    ensures
        final(data).wf(),
        final(data).data == old(data).data,
        match string_span(old(data).data@, old(data).position as int) {
            Ok((start, end)) => res is Ok && res->Ok_0@ == utf8_lossy(
                old(data).data@.subrange(start, end),
            ) && final(data).position == skip_spaces(old(data).data@, end + 1),
            Err(e) => res == Err::<String, JsonError>(e),
        },
{
    match scan_string(data) {
        Ok((start, end)) => Ok(decode_lossy(slice_subrange(data.data, start, end))),
        Err(e) => Err(e),
    }
}

/// What stands at a position: `true` or `false`, if five bytes are left at least.
pub open spec fn bool_at(data: Seq<u8>, position: int) -> Option<bool> {
    if position + 5 > data.len() {
        None
    } else if data.subrange(position, position + 4) == seq![0x74u8, 0x72u8, 0x75u8, 0x65u8] {
        Some(true)
    } else if data.subrange(position, position + 5) == seq![
        0x66u8,
        0x61u8,
        0x6cu8,
        0x73u8,
        0x65u8,
    ] {
        Some(false)
    } else {
        None
    }
}

/// Parse a bool from the current data
pub fn parse_bool(data: &mut ParseInput) -> (res: Result<bool, JsonError>)
    requires
        old(data).wf(),
    ensures
        final(data).wf(),
        final(data).data == old(data).data,
        match bool_at(old(data).data@, old(data).position as int) {
            Some(value) => res == Ok::<bool, JsonError>(value) && final(data).position
                == skip_spaces(
                old(data).data@,
                old(data).position + (if value {
                    4int
                } else {
                    5int
                }),
            ),
            None => res == Err::<bool, JsonError>(
                JsonError::InvalidDataForBool(old(data).position),
            ) && final(data).position == old(data).position,
        },
{
    let start_pos = data.position;

    // Ensure we have enough data to parse a 'true' or 'false' for bool
    if data.len() < 5 {
        return Err(JsonError::InvalidDataForBool(start_pos));
    }
    let bytes = data.data;
    if bytes[start_pos] == 0x74 && bytes[start_pos + 1] == 0x72 && bytes[start_pos + 2] == 0x75
        && bytes[start_pos + 3] == 0x65 {
        assert(bytes@.subrange(start_pos as int, start_pos + 4) =~= seq![
            0x74u8,
            0x72u8,
            0x75u8,
            0x65u8,
        ]);
        data.set_position(start_pos + 4);
        return Ok(true);
    }
    assert(bytes@.subrange(start_pos as int, start_pos + 4) != seq![0x74u8, 0x72u8, 0x75u8, 0x65u8])
        by {
        let part = bytes@.subrange(start_pos as int, start_pos + 4);
        assert(part[0] == bytes@[start_pos as int]);
        assert(part[1] == bytes@[start_pos + 1]);
        assert(part[2] == bytes@[start_pos + 2]);
        assert(part[3] == bytes@[start_pos + 3]);
    }
    if bytes[start_pos] == 0x66 && bytes[start_pos + 1] == 0x61 && bytes[start_pos + 2] == 0x6c
        && bytes[start_pos + 3] == 0x73 && bytes[start_pos + 4] == 0x65 {
        assert(bytes@.subrange(start_pos as int, start_pos + 5) =~= seq![
            0x66u8,
            0x61u8,
            0x6cu8,
            0x73u8,
            0x65u8,
        ]);
        data.set_position(start_pos + 5);
        return Ok(false);
    }
    assert(bytes@.subrange(start_pos as int, start_pos + 5) != seq![
        0x66u8,
        0x61u8,
        0x6cu8,
        0x73u8,
        0x65u8,
    ]) by {
        let part = bytes@.subrange(start_pos as int, start_pos + 5);
        assert(part[0] == bytes@[start_pos as int]);
        assert(part[1] == bytes@[start_pos + 1]);
        assert(part[2] == bytes@[start_pos + 2]);
        assert(part[3] == bytes@[start_pos + 3]);
        assert(part[4] == bytes@[start_pos + 4]);
    }
    Err(JsonError::InvalidDataForBool(start_pos))
}

} // verus!
