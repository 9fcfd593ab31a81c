//! Reading the values of a saved game from its bytes: single bytes, little
//! endian integers, and texts behind their length.

use byteorder::{ByteOrder, LittleEndian};
use vstd::prelude::*;
use vstd::string::StringSliceAdditionalSpecFns;
use vstd::utf8::valid_utf8;

verus! {

/// Why reading a saved game failed.
#[derive(Clone, Debug, PartialEq)]
pub enum Error {
    Message(String),
    /// The bytes ended before the value did.
    Eof,
    /// A text does not stand for the value that is asked for.
    Syntax,
    /// Bytes are left behind the last value.
    TrailingCharacters,
}

impl Error {
    /// An error with a text of its own.
    pub fn custom(msg: String) -> (r: Error)
        ensures
            r == Error::Message(msg),
    {
        Error::Message(msg)
    }

    /// The text that describes the error.
    pub fn description(&self) -> (r: String)
        ensures
            r@ == match *self {
                Error::Message(msg) => msg@,
                Error::Eof => "unexpected end of input"@,
                Error::Syntax => "Syntax error"@,
                Error::TrailingCharacters => "Trailing characters"@,
            },
    {
        match self {
            Error::Message(msg) => msg.clone(),
            Error::Eof => "unexpected end of input".to_owned(),
            Error::Syntax => "Syntax error".to_owned(),
            Error::TrailingCharacters => "Trailing characters".to_owned(),
        }
    }
}

/// What the next text of a saved game stands for.
#[derive(Debug, PartialEq, Eq, Copy, Clone, Structural)]
pub enum DeserializerState {
    /// A value whose kind its first byte tells.
    Typed,
    /// A text.
    ValueToken,
}

/// The value of four bytes in little endian order.
pub open spec fn le_value(bytes: Seq<u8>) -> u32 {
    (bytes[0] as int + bytes[1] as int * 0x100 + bytes[2] as int * 0x1_0000 + bytes[3] as int
        * 0x100_0000) as u32
}

/// The signed value of four bytes in little endian order, in two's
/// complement.
pub open spec fn le_signed_value(bytes: Seq<u8>) -> i32 {
    if le_value(bytes) < 0x8000_0000 {
        le_value(bytes) as i32
    } else {
        (le_value(bytes) - 0x1_0000_0000) as i32
    }
}

/// The number that a text stands for in decimal notation, if it stands for
/// one: what `str::parse::<i128>` gives for it.
pub uninterp spec fn parsed_int(text: Seq<char>) -> Option<i128>;

/// Calls `byteorder::LittleEndian::read_u32`, which reads the first four
/// bytes of `buf` as an unsigned integer, lowest byte first, and panics on
/// fewer than four bytes.
#[verifier::external_body]
fn le_u32(buf: &[u8]) -> (r: u32)
    requires
        buf@.len() >= 4,
    ensures
        r == le_value(buf@),
{
    LittleEndian::read_u32(buf)
}

/// Calls `byteorder::LittleEndian::read_i32`, which reads the first four
/// bytes of `buf` as a signed integer in two's complement, lowest byte first,
/// and panics on fewer than four bytes.
#[verifier::external_body]
fn le_i32(buf: &[u8]) -> (r: i32)
    requires
        buf@.len() >= 4,
    ensures
        r == le_signed_value(buf@),
{
    LittleEndian::read_i32(buf)
}

/// Calls `std::str::from_utf8`, which hands out the bytes as a text where
/// they are valid UTF-8, and fails otherwise.
#[verifier::external_body]
fn utf8_text<'a>(bytes: &'a [u8]) -> (r: Option<&'a str>)
    ensures
        r is Some <==> valid_utf8(bytes@),
        r matches Some(s) ==> s.spec_bytes() == bytes@,
{
    match std::str::from_utf8(bytes) {
        Ok(s) => Some(s),
        Err(_) => None,
    }
}

/// Calls `str::parse::<i128>`, which reads a number in decimal notation.
#[verifier::external_body]
fn parse_int(text: &str) -> (r: Option<i128>)
    ensures
        r == parsed_int(text@),
{
    match text.parse::<i128>() {
        Ok(v) => Some(v),
        Err(_) => None,
    }
}

/// A reader that walks through the bytes of a saved game.
pub struct Deserializer<'de> {
    input: &'de [u8],
    pos: usize,
    state: DeserializerState,
}

impl<'de> Deserializer<'de> {
    #[verifier::type_invariant]
    spec fn within(&self) -> bool {
        self.pos <= self.input@.len()
    }

    /// The bytes that are not read yet.
    pub closed spec fn remaining(&self) -> Seq<u8> {
        self.input@.subrange(self.pos as int, self.input@.len() as int)
    }

    /// How many bytes are read.
    pub closed spec fn consumed(&self) -> int {
        self.pos as int
    }

    /// What the next text stands for.
    pub closed spec fn mode(&self) -> DeserializerState {
        self.state
    }

    /// A reader at the start of `input`.
    pub fn from_bytes(input: &'de [u8]) -> (r: Deserializer<'de>)
        ensures
            r.remaining() == input@,
            r.consumed() == 0,
            r.mode() == DeserializerState::Typed,
    {
        let r = Deserializer { input, pos: 0, state: DeserializerState::Typed };
        assert(r.remaining() =~= input@);
        r
    }

    /// What the next text stands for.
    pub fn state(&self) -> (r: DeserializerState)
        ensures
            r == self.mode(),
    {
        self.state
    }

    /// Says what the next text stands for.
    pub fn set_state(&mut self, state: DeserializerState)
        ensures
            final(self).mode() == state,
            final(self).remaining() == old(self).remaining(),
            final(self).consumed() == old(self).consumed(),
    {
        proof {
            use_type_invariant(&*self);
        }
        self.state = state;
    }

    /// How many bytes are read.
    pub fn position(&self) -> (r: usize)
        ensures
            r == self.consumed(),
    {
        self.pos
    }

    /// The next byte, which stays unread.
    pub fn peek_byte(&self) -> (r: Result<u8, Error>)
        ensures
            match r {
                Ok(v) => self.remaining().len() > 0 && v == self.remaining()[0],
                Err(e) => self.remaining().len() == 0 && e == Error::Eof,
            },
    {
        proof {
            use_type_invariant(self);
        }
        if self.pos < self.input.len() {
            Ok(self.input[self.pos])
        } else {
            Err(Error::Eof)
        }
    }

    /// Reads the next byte.
    pub fn next_byte(&mut self) -> (r: Result<u8, Error>)
        ensures
            final(self).mode() == old(self).mode(),
            match r {
                Ok(v) => {
                    &&& old(self).remaining().len() > 0
                    &&& v == old(self).remaining()[0]
                    &&& final(self).remaining() == old(self).remaining().skip(1)
                    &&& final(self).consumed() == old(self).consumed() + 1
                },
                Err(e) => {
                    &&& old(self).remaining().len() == 0
                    &&& e == Error::Eof
                    &&& final(self).remaining() == old(self).remaining()
                    &&& final(self).consumed() == old(self).consumed()
                },
            },
    {
        proof {
            use_type_invariant(&*self);
        }
        if self.pos < self.input.len() {
            let v = self.input[self.pos];
            self.pos += 1;
            assert(self.remaining() =~= old(self).remaining().skip(1));
            Ok(v)
        } else {
            Err(Error::Eof)
        }
    }

    /// The next `count` bytes, which are read thereby; nothing is read where
    /// fewer are left.
    fn take(&mut self, count: usize) -> (r: Option<&'de [u8]>)
        ensures
            final(self).mode() == old(self).mode(),
            match r {
                Some(bytes) => {
                    &&& count <= old(self).remaining().len()
                    &&& bytes@ == old(self).remaining().take(count as int)
                    &&& final(self).remaining() == old(self).remaining().skip(count as int)
                    &&& final(self).consumed() == old(self).consumed() + count
                },
                None => {
                    &&& count > old(self).remaining().len()
                    &&& final(self).remaining() == old(self).remaining()
                    &&& final(self).consumed() == old(self).consumed()
                },
            },
    {
        proof {
            use_type_invariant(&*self);
        }
        if self.input.len() - self.pos < count {
            return None;
        }
        let bytes = vstd::slice::slice_subrange(self.input, self.pos, self.pos + count);
        self.pos += count;
        assert(bytes@ =~= old(self).remaining().take(count as int));
        assert(self.remaining() =~= old(self).remaining().skip(count as int));
        Some(bytes)
    }

    /// Reads an unsigned integer of four bytes, lowest byte first. Nothing is
    /// read where fewer bytes are left.
    pub fn read_u32(&mut self) -> (r: Result<u32, Error>)
        ensures
            final(self).mode() == old(self).mode(),
            match r {
                Ok(v) => {
                    &&& old(self).remaining().len() >= 4
                    &&& v == le_value(old(self).remaining())
                    &&& final(self).remaining() == old(self).remaining().skip(4)
                    &&& final(self).consumed() == old(self).consumed() + 4
                },
                Err(e) => {
                    &&& old(self).remaining().len() < 4
                    &&& e == Error::Eof
                    &&& final(self).remaining() == old(self).remaining()
                    &&& final(self).consumed() == old(self).consumed()
                },
            },
    {
        match self.take(4) {
            Some(bytes) => Ok(le_u32(bytes)),
            None => Err(Error::Eof),
        }
    }

    /// Reads a signed integer of four bytes in two's complement, lowest byte
    /// first. Nothing is read where fewer bytes are left.
    pub fn read_i32(&mut self) -> (r: Result<i32, Error>)
        ensures
            final(self).mode() == old(self).mode(),
            match r {
                Ok(v) => {
                    &&& old(self).remaining().len() >= 4
                    &&& v == le_signed_value(old(self).remaining())
                    &&& final(self).remaining() == old(self).remaining().skip(4)
                    &&& final(self).consumed() == old(self).consumed() + 4
                },
                Err(e) => {
                    &&& old(self).remaining().len() < 4
                    &&& e == Error::Eof
                    &&& final(self).remaining() == old(self).remaining()
                    &&& final(self).consumed() == old(self).consumed()
                },
            },
    {
        match self.take(4) {
            Some(bytes) => Ok(le_i32(bytes)),
            None => Err(Error::Eof),
        }
    }

    /// Reads a text of `size` bytes. Where fewer bytes are left nothing is
    /// read; bytes that are no valid UTF-8 are read and refused.
    pub fn read_str(&mut self, size: usize) -> (r: Result<&'de str, Error>)
        ensures
            final(self).mode() == old(self).mode(),
            final(self).remaining() == after_text(old(self).remaining(), size as int),
            final(self).consumed() == old(self).consumed() + old(self).remaining().len()
                - final(self).remaining().len(),
            match r {
                Ok(s) => {
                    &&& size <= old(self).remaining().len()
                    &&& valid_utf8(old(self).remaining().take(size as int))
                    &&& s.spec_bytes() == old(self).remaining().take(size as int)
                },
                Err(Error::Eof) => size > old(self).remaining().len(),
                Err(Error::Message(m)) => {
                    &&& size <= old(self).remaining().len()
                    &&& !valid_utf8(old(self).remaining().take(size as int))
                    &&& m@ == "Bad string"@
                },
                Err(_) => false,
            },
    {
        match self.take(size) {
            Some(bytes) => match utf8_text(bytes) {
                Some(s) => Ok(s),
                None => Err(Error::Message("Bad string".to_owned())),
            },
            None => Err(Error::Eof),
        }
    }

    /// Reads a text behind its length: four bytes of length, lowest first,
    /// then that many bytes of text. What is complete of the two is read, also
    /// where the text is refused.
    pub fn read_str_size(&mut self) -> (r: Result<&'de str, Error>)
        ensures
            final(self).mode() == old(self).mode(),
            final(self).remaining() == after_frame(old(self).remaining()),
            final(self).consumed() == old(self).consumed() + old(self).remaining().len()
                - final(self).remaining().len(),
            match r {
                Ok(s) => {
                    &&& frame_complete(old(self).remaining())
                    &&& valid_utf8(framed_text(old(self).remaining()))
                    &&& s.spec_bytes() == framed_text(old(self).remaining())
                },
                Err(Error::Eof) => !frame_complete(old(self).remaining()),
                Err(Error::Message(m)) => {
                    &&& frame_complete(old(self).remaining())
                    &&& !valid_utf8(framed_text(old(self).remaining()))
                    &&& m@ == "Bad string"@
                },
                Err(_) => false,
            },
    {
        let size = match self.read_u32() {
            Ok(v) => v,
            Err(e) => {
                return Err(e);
            },
        };
        let ghost rest = self.remaining();
        let r = self.read_str(size as usize);
        proof {
            let all = old(self).remaining();
            assert(rest.take(size as int) =~= framed_text(all));
            if size <= rest.len() {
                assert(rest.skip(size as int) =~= all.skip(4 + size));
            }
        }
        r
    }

    /// Reads a number written in decimal notation as a text behind its
    /// length.
    pub fn read_str_int(&mut self) -> (r: Result<i128, Error>)
        ensures
            final(self).mode() == old(self).mode(),
            final(self).remaining() == after_frame(old(self).remaining()),
            final(self).consumed() == old(self).consumed() + old(self).remaining().len()
                - final(self).remaining().len(),
            match r {
                Ok(v) => {
                    &&& frame_complete(old(self).remaining())
                    &&& valid_utf8(framed_text(old(self).remaining()))
                    &&& parsed_int(vstd::utf8::decode_utf8(framed_text(old(self).remaining())))
                        == Some(v)
                },
                Err(Error::Eof) => !frame_complete(old(self).remaining()),
                Err(Error::Message(m)) => {
                    &&& frame_complete(old(self).remaining())
                    &&& !valid_utf8(framed_text(old(self).remaining()))
                    &&& m@ == "Bad string"@
                },
                Err(Error::Syntax) => {
                    &&& frame_complete(old(self).remaining())
                    &&& valid_utf8(framed_text(old(self).remaining()))
                    &&& parsed_int(vstd::utf8::decode_utf8(framed_text(old(self).remaining())))
                        is None
                },
                Err(_) => false,
            },
    {
        let text = match self.read_str_size() {
            Ok(s) => s,
            Err(e) => {
                return Err(e);
            },
        };
        proof {
            vstd::utf8::encode_utf8_decode_utf8(text@);
        }
        match parse_int(text) {
            Some(v) => Ok(v),
            None => Err(Error::Syntax),
        }
    }

    /// Reads an unsigned number written in decimal notation as a text
    /// behind its length. A text that starts with a minus sign is refused.
    pub fn read_str_uint(&mut self) -> (r: Result<u128, Error>)
        ensures
            final(self).mode() == old(self).mode(),
            final(self).remaining() == after_frame(old(self).remaining()),
            final(self).consumed() == old(self).consumed() + old(self).remaining().len()
                - final(self).remaining().len(),
            match r {
                Ok(v) => {
                    &&& frame_complete(old(self).remaining())
                    &&& valid_utf8(framed_text(old(self).remaining()))
                    &&& unsigned_of(framed_text(old(self).remaining())) == Some(v)
                },
                Err(Error::Eof) => !frame_complete(old(self).remaining()),
                Err(Error::Message(m)) => {
                    &&& frame_complete(old(self).remaining())
                    &&& !valid_utf8(framed_text(old(self).remaining()))
                    &&& m@ == "Bad string"@
                },
                Err(Error::Syntax) => {
                    &&& frame_complete(old(self).remaining())
                    &&& valid_utf8(framed_text(old(self).remaining()))
                    &&& unsigned_of(framed_text(old(self).remaining())) is None
                },
                Err(_) => false,
            },
    {
        let text = match self.read_str_size() {
            Ok(s) => s,
            Err(e) => {
                return Err(e);
            },
        };
        proof {
            vstd::utf8::encode_utf8_decode_utf8(text@);
        }
        let bytes = text.as_bytes();
        if bytes.len() > 0 && bytes[0] == MINUS_SIGN {
            return Err(Error::Syntax);
        }
        match parse_int(text) {
            Some(v) => {
                if v < 0 {
                    Err(Error::Syntax)
                } else {
                    Ok(v as u128)
                }
            },
            None => Err(Error::Syntax),
        }
    }
}

/// The sign that starts a negative number.
pub const MINUS_SIGN: u8 = 0x2d;

/// Whether the bytes of a text start with a minus sign.
pub open spec fn starts_with_minus(bytes: Seq<u8>) -> bool {
    bytes.len() > 0 && bytes[0] == MINUS_SIGN
}

/// The number that the bytes of a text stand for where the text is read as
/// an unsigned number: none behind a minus sign, not even zero, and no
/// negative one.
pub open spec fn unsigned_of(bytes: Seq<u8>) -> Option<u128> {
    let number = parsed_int(vstd::utf8::decode_utf8(bytes));
    if !starts_with_minus(bytes) && number is Some && number->0 >= 0 {
        Some(number->0 as u128)
    } else {
        None
    }
}

/// What is left of `bytes` after a text of `size` bytes was asked for: all of
/// them where fewer are there, else those behind the text.
pub open spec fn after_text(bytes: Seq<u8>, size: int) -> Seq<u8> {
    if size <= bytes.len() {
        bytes.skip(size)
    } else {
        bytes
    }
}

/// Whether `bytes` start with four bytes of length and as many bytes as
/// these say.
pub open spec fn frame_complete(bytes: Seq<u8>) -> bool {
    bytes.len() >= 4 && bytes.len() - 4 >= le_value(bytes)
}

/// What is left of `bytes` after a text behind its length was asked for.
pub open spec fn after_frame(bytes: Seq<u8>) -> Seq<u8> {
    if bytes.len() < 4 {
        bytes
    } else {
        after_text(bytes.skip(4), le_value(bytes) as int)
    }
}

/// The byte that ends a map and a list.
pub const END_MARK: u8 = 0x63;

/// The byte before a key whose value is a text.
pub const TEXT_MARK: u8 = 1;

/// The byte before a key whose value is a map or a list.
pub const TYPED_MARK: u8 = 2;

/// The byte that starts a list.
pub const LIST_MARK: u8 = 3;

/// What the first byte of a value says that the value is.
#[derive(Debug, PartialEq, Eq, Copy, Clone, Structural)]
pub enum ValueKind {
    Table,
    List,
    Unknown,
}

/// What the first byte of a value says that the value is: a list behind
/// `LIST_MARK`; a map where a key or the end of a map starts.
pub fn value_kind(first: u8) -> (r: ValueKind)
    ensures
        r == if first == TEXT_MARK || first == TYPED_MARK || first == END_MARK {
            ValueKind::Table
        } else if first == LIST_MARK {
            ValueKind::List
        } else {
            ValueKind::Unknown
        },
{
    if first == TEXT_MARK || first == END_MARK || first == TYPED_MARK {
        ValueKind::Table
    } else if first == LIST_MARK {
        ValueKind::List
    } else {
        ValueKind::Unknown
    }
}

/// What stands where the next key of a map is looked for.
#[derive(Debug, PartialEq, Eq, Copy, Clone, Structural)]
pub enum KeyKind {
    /// The map has ended.
    End,
    /// A key whose value is read in the given way.
    Key(DeserializerState),
    Invalid,
}

/// What the byte says that stands where the next key of a map is looked for.
pub fn key_kind(mark: u8) -> (r: KeyKind)
    ensures
        r == if mark == END_MARK {
            KeyKind::End
        } else if mark == TEXT_MARK {
            KeyKind::Key(DeserializerState::ValueToken)
        } else if mark == TYPED_MARK {
            KeyKind::Key(DeserializerState::Typed)
        } else {
            KeyKind::Invalid
        },
{
    if mark == END_MARK {
        KeyKind::End
    } else if mark == TEXT_MARK {
        KeyKind::Key(DeserializerState::ValueToken)
    } else if mark == TYPED_MARK {
        KeyKind::Key(DeserializerState::Typed)
    } else {
        KeyKind::Invalid
    }
}

/// The bytes of the text at the start of `bytes`: those behind the four
/// bytes of its length.
pub open spec fn framed_text(bytes: Seq<u8>) -> Seq<u8> {
    bytes.skip(4).take(le_value(bytes) as int)
}

} // verus!
