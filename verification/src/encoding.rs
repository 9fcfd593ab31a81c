//! Character tables that turn the bytes of a grid into text and back.

use std::collections::HashMap;
use vstd::prelude::*;

verus! {

broadcast use vstd::std_specs::hash::group_hash_axioms;

/// Why a table cannot be read or a text cannot be turned into bytes.
#[derive(Debug, PartialEq, Eq, Copy, Clone, Structural)]
pub enum EncodingError {
    /// The table has only this many complete lines; 256 are needed.
    IncorrectHeight(usize),
    /// The text holds a character that the table does not have.
    InvalidData,
    /// The text of a grid has this many lines; a grid has room for 256.
    TooManyLines(usize),
}

/// A table of 256 characters, one for each byte value, and the byte that
/// each character stands for. The characters are looked up by their code.
pub struct Encoding {
    pub byte_to_char: [char; 256],
    pub char_to_byte: HashMap<u32, u8>,
}

/// The character that ends a line.
pub open spec fn line_end() -> char {
    '\n'
}

/// The number of line ends among the first `k` characters.
pub open spec fn lines_before(text: Seq<char>, k: int) -> int
    decreases k,
{
    if k <= 0 {
        0
    } else {
        lines_before(text, k - 1) + if text[k - 1] == line_end() {
            1int
        } else {
            0int
        }
    }
}

/// Whether a line starts at index `k`.
pub open spec fn starts_line(text: Seq<char>, k: int) -> bool {
    k == 0 || text[k - 1] == line_end()
}

/// The character that the first `n` characters of a table's text give to
/// byte `i`: the first character of line `i`, a blank where that line is
/// empty, and a question mark where the text does not reach that line.
pub open spec fn table_char(text: Seq<char>, n: int, i: int) -> char
    decreases n,
{
    if n <= 0 {
        '?'
    } else if starts_line(text, n - 1) && lines_before(text, n - 1) == i {
        if text[n - 1] == line_end() {
            ' '
        } else {
            text[n - 1]
        }
    } else {
        table_char(text, n - 1, i)
    }
}

/// Whether `bytes` gives, for each character among the first `filled` of
/// `table`, the first byte that stands for it, and nothing else.
pub open spec fn maps_first_bytes(bytes: Map<u32, u8>, table: Seq<char>, filled: int) -> bool {
    &&& forall|code: u32| #[trigger]
        bytes.contains_key(code) ==> {
            &&& bytes[code] < filled
            &&& table[bytes[code] as int] as u32 == code
            &&& forall|j: int| 0 <= j < bytes[code] ==> table[j] as u32 != code
        }
    &&& forall|j: int| 0 <= j < filled ==> bytes.contains_key(#[trigger] table[j] as u32)
}

/// The number of line ends does not shrink as the text grows.
proof fn lemma_lines_grow(text: Seq<char>, k: int, n: int)
    requires
        0 <= k <= n,
    ensures
        lines_before(text, k) <= lines_before(text, n),
    decreases n,
{
    if k < n {
        lemma_lines_grow(text, k, n - 1);
    }
}

/// What comes after line `i` has ended does not change the character of
/// byte `i`.
proof fn lemma_table_char_settled(text: Seq<char>, k: int, n: int, i: int)
    requires
        0 <= k <= n,
        lines_before(text, k) > i,
    ensures
        table_char(text, n, i) == table_char(text, k, i),
    decreases n,
{
    if k < n {
        lemma_lines_grow(text, k, n - 1);
        lemma_table_char_settled(text, k, n - 1, i);
    }
}

impl Encoding {
    /// A table of question marks in which no character stands for a byte.
    pub fn new() -> (r: Encoding)
        ensures
            r.char_to_byte@ == Map::<u32, u8>::empty(),
            forall|i: int| 0 <= i < 256 ==> r.byte_to_char@[i] == '?',
    {
        Encoding { byte_to_char: ['?';256], char_to_byte: HashMap::new() }
    }

    /// Records that the character `c` stands for byte `i`, unless an earlier
    /// byte has that character already.
    fn put(&mut self, i: usize, c: char)
        requires
            i < 256,
            maps_first_bytes(old(self).char_to_byte@, old(self).byte_to_char@, i as int),
        ensures
            final(self).byte_to_char@ == old(self).byte_to_char@.update(i as int, c),
            maps_first_bytes(final(self).char_to_byte@, final(self).byte_to_char@, i + 1),
    {
        self.byte_to_char[i] = c;
        let code: u32 = c as u32;
        if !self.char_to_byte.contains_key(&code) {
            self.char_to_byte.insert(code, i as u8);
        }
    }

    /// Reads a table from its text: line `i` gives the character of byte
    /// `i` by its first character, an empty line stands for a blank, and of two
    /// bytes with the same character the first is the one that the character
    /// stands for. The text must hold 256 complete lines; what follows them is
    /// not read.
    pub fn load(text: &[char]) -> (r: Result<Encoding, EncodingError>)
        ensures
            match r {
                Ok(table) => {
                    &&& lines_before(text@, text@.len() as int) >= 256
                    &&& forall|i: int|
                        0 <= i < 256 ==> #[trigger] table.byte_to_char@[i] == table_char(
                            text@,
                            text@.len() as int,
                            i,
                        )
                    &&& maps_first_bytes(table.char_to_byte@, table.byte_to_char@, 256)
                },
                Err(e) => {
                    &&& lines_before(text@, text@.len() as int) < 256
                    &&& e == EncodingError::IncorrectHeight(
                        lines_before(text@, text@.len() as int) as usize,
                    )
                },
            },
    {
        let mut result = Encoding::new();
        let mut i: usize = 0;
        let mut done = false;
        let mut k: usize = 0;
        while k < text.len() && i < 256
            invariant
                k <= text.len(),
                i <= 256,
                i == lines_before(text@, k as int),
                done == !starts_line(text@, k as int),
                forall|j: int|
                    0 <= j < 256 ==> #[trigger] result.byte_to_char@[j] == table_char(
                        text@,
                        k as int,
                        j,
                    ),
                maps_first_bytes(
                    result.char_to_byte@,
                    result.byte_to_char@,
                    i + if done {
                        1int
                    } else {
                        0int
                    },
                ),
            decreases text.len() - k,
        {
            let c = text[k];
            if c == '\n' {
                if !done {
                    result.put(i, ' ');
                } else {
                    done = false;
                }
                i += 1;
            } else {
                if !done {
                    done = true;
                    result.put(i, c);
                }
            }
            k += 1;
        }
        if i != 256 {
            return Err(EncodingError::IncorrectHeight(i));
        }
        proof {
            lemma_lines_grow(text@, k as int, text@.len() as int);
            assert forall|j: int| 0 <= j < 256 implies #[trigger] result.byte_to_char@[j]
                == table_char(text@, text@.len() as int, j) by {
                lemma_table_char_settled(text@, k as int, text@.len() as int, j);
            }
        }
        Ok(result)
    }

    /// The byte that a character stands for, if the table has it.
    pub fn byte_of(&self, c: char) -> (r: Option<u8>)
        ensures
            r == if self.char_to_byte@.contains_key(c as u32) {
                Some(self.char_to_byte@[c as u32])
            } else {
                None
            },
    {
        let code: u32 = c as u32;
        match self.char_to_byte.get(&code) {
            Some(b) => Some(*b),
            None => None,
        }
    }

    /// Whether the table has every one of the first `n` characters of
    /// `input`.
    pub open spec fn knows(&self, input: Seq<char>, n: int) -> bool {
        forall|k: int| 0 <= k < n ==> self.char_to_byte@.contains_key(#[trigger] input[k] as u32)
    }

    /// Turns characters into bytes, one for one, until `out` is full or
    /// `input` has ended. Hands out how many bytes were written and what is
    /// left of `input`. Fails at the first character that the table does not
    /// have; the bytes before it are written.
    pub fn decode_utf8<'a>(&self, input: &'a [char], out: &mut [u8]) -> (r: Result<
        (usize, &'a [char]),
        EncodingError,
    >)
        ensures
            final(out)@.len() == old(out)@.len(),
            match r {
                Ok((produced, tail)) => {
                    &&& produced == vstd::math::min(old(out)@.len() as int, input@.len() as int)
                    &&& self.knows(input@, produced as int)
                    &&& tail@ == input@.subrange(produced as int, input@.len() as int)
                    &&& forall|k: int|
                        0 <= k < produced ==> #[trigger] final(out)@[k]
                            == self.char_to_byte@[input@[k] as u32]
                    &&& forall|k: int|
                        produced <= k < old(out)@.len() ==> #[trigger] final(out)@[k] == old(
                            out,
                        )@[k]
                },
                Err(e) => {
                    &&& e == EncodingError::InvalidData
                    &&& !self.knows(
                        input@,
                        vstd::math::min(old(out)@.len() as int, input@.len() as int),
                    )
                    &&& forall|k: int|
                        0 <= k < old(out)@.len() ==> #[trigger] final(out)@[k] == if self.knows(
                            input@,
                            k + 1,
                        ) {
                            self.char_to_byte@[input@[k] as u32]
                        } else {
                            old(out)@[k]
                        }
                },
            },
    {
        let mut produced: usize = 0;
        let n = out.len();
        while produced < n
            invariant
                n == out@.len(),
                n == old(out)@.len(),
                produced <= n,
                produced <= input@.len(),
                self.knows(input@, produced as int),
                forall|k: int|
                    0 <= k < produced ==> #[trigger] out@[k] == self.char_to_byte@[input@[k] as u32],
                forall|k: int| produced <= k < n ==> #[trigger] out@[k] == old(out)@[k],
            decreases n - produced,
        {
            if produced < input.len() {
                let code: u32 = input[produced] as u32;
                match self.char_to_byte.get(&code) {
                    Some(byte) => {
                        out[produced] = *byte;
                        produced += 1;
                    },
                    None => {
                        return Err(EncodingError::InvalidData);
                    },
                }
            } else {
                let tail = vstd::slice::slice_subrange(input, produced, input.len());
                return Ok((produced, tail));
            }
        }
        let tail = vstd::slice::slice_subrange(input, produced, input.len());
        Ok((produced, tail))
    }
}

} // verus!
