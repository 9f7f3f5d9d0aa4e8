//! An amount of memory, written as a number and a unit.

use std::cmp::Ordering;
use vstd::prelude::*;
use vstd::string::StringExecFns;
use vstd::std_specs::cmp::{PartialEqSpecImpl, PartialOrdSpecImpl};
use crate::text::{
    chars_of, decimal, lemma_decimal_parses, parse_u64, parse_u64_spec, push_char,
    push_decimal, string_of, NumberError,
};

verus! {

/// Why a string is no amount of memory.
#[derive(Debug, Clone, Copy, PartialEq, Eq, Structural)]
pub enum MemoryParseError {
    /// The string is empty.
    EmptyString,
    /// The last character is no unit; it holds that character, an ASCII
    /// capital in lower case.
    InvalidSize(char),
    /// What stands before the unit is no number, or the amount in bytes is
    /// more than a `u64` holds.
    ParseIntError(NumberError),
}

impl MemoryParseError {
    /// What the fault is, in words.
    pub open spec fn message(self) -> Seq<char> {
        match self {
            MemoryParseError::EmptyString => "string cannot be empty"@,
            MemoryParseError::InvalidSize(unit) => "unknown size suffix: "@.push(unit),
            MemoryParseError::ParseIntError(error) => error.message(),
        }
    }

    /// What the fault is, in words.
    pub fn to_string(&self) -> (text: String)
        ensures
            text@ == self.message(),
    {
        match self {
            MemoryParseError::EmptyString => String::from_str("string cannot be empty"),
            MemoryParseError::InvalidSize(unit) => {
                let mut text = String::from_str("unknown size suffix: ");
                push_char(&mut text, *unit);
                text
            },
            MemoryParseError::ParseIntError(error) => error.to_string(),
        }
    }
}

/// The number of bytes in one unit: `k`, `m` and `g` stand for the powers
/// of 1024, in either case.
pub open spec fn unit_bytes(unit: char) -> Option<u64> {
    if unit == 'k' || unit == 'K' {
        Some(1024u64)
    } else if unit == 'm' || unit == 'M' {
        Some(1_048_576u64)
    } else if unit == 'g' || unit == 'G' {
        Some(1_073_741_824u64)
    } else {
        None
    }
}

/// `c` in lower case where it is an ASCII capital, else `c` itself.
pub open spec fn ascii_lower(c: char) -> char {
    if 'A' <= c && c <= 'Z' {
        ((c as int) + 32) as char
    } else {
        c
    }
}

/// The number of bytes that `memory` stands for: a number, which may start
/// with `+`, and one character for the unit. The unit is looked at first.
pub open spec fn parse_memory(memory: Seq<char>) -> Result<u64, MemoryParseError> {
    if memory.len() == 0 {
        Err(MemoryParseError::EmptyString)
    } else {
        match unit_bytes(memory.last()) {
            None => Err(MemoryParseError::InvalidSize(ascii_lower(memory.last()))),
            Some(unit) => match parse_u64_spec(memory.drop_last()) {
                Err(error) => Err(MemoryParseError::ParseIntError(error)),
                Ok(number) => if number * unit > u64::MAX {
                    Err(MemoryParseError::ParseIntError(NumberError::PosOverflow))
                } else {
                    Ok((number * unit) as u64)
                },
            },
        }
    }
}

/// An amount of memory: the text it was written as, and the number of bytes
/// that the text stands for. Two amounts are equal, and ordered, by their
/// bytes alone.
#[derive(Debug)]
pub struct ServerMemory(String, u64);

impl ServerMemory {
    #[verifier::type_invariant]
    closed spec fn well_formed(&self) -> bool {
        parse_memory(self.0@) == Ok::<u64, MemoryParseError>(self.1)
    }

    /// The text of the amount.
    pub closed spec fn text(&self) -> Seq<char> {
        self.0@
    }

    /// The number of bytes of the amount.
    pub closed spec fn size(&self) -> u64 {
        self.1
    }

    /// Reads an amount of memory, such as `512m` or `4G`.
    pub fn from_str(memory: &str) -> (parsed: Result<ServerMemory, MemoryParseError>)
        ensures
            match parse_memory(memory@) {
                Ok(bytes) => parsed is Ok && parsed->Ok_0.text() == memory@ && parsed->Ok_0.size()
                    == bytes,
                Err(error) => parsed == Err::<ServerMemory, MemoryParseError>(error),
            },
    {
        let chars = chars_of(memory);
        if chars.len() == 0 {
            return Err(MemoryParseError::EmptyString);
        }
        let scale = chars[chars.len() - 1];
        let multi: u64 = if scale == 'k' || scale == 'K' {
            1024
        } else if scale == 'm' || scale == 'M' {
            1_048_576
        } else if scale == 'g' || scale == 'G' {
            1_073_741_824
        } else {
            return Err(MemoryParseError::InvalidSize(lower(scale)));
        };
        let mut number = chars;
        number.pop();
        assert(number@ =~= memory@.drop_last());
        let parsed = parse_u64(string_of(&number).as_str());
        match parsed {
            Err(error) => Err(MemoryParseError::ParseIntError(error)),
            Ok(value) => match value.checked_mul(multi) {
                None => Err(MemoryParseError::ParseIntError(NumberError::PosOverflow)),
                Some(bytes) => Ok(ServerMemory(memory.to_owned(), bytes)),
            },
        }
    }

    /// `count` gibibytes, written as the number and `G`.
    pub fn gibibytes(count: u8) -> (memory: ServerMemory)
        ensures
            memory.text() == decimal(count as nat) + "G"@,
            memory.size() == count * 1_073_741_824,
    {
        let mut text = String::new();
        push_decimal(&mut text, count as u64);
        text.append("G");
        proof {
            reveal_strlit("G");
            let numeral = decimal(count as nat);
            lemma_decimal_parses(count as nat);
            assert(text@ =~= numeral + seq!['G']);
            assert(text@.last() == 'G');
            assert(text@.drop_last() =~= numeral);
            assert(numeral[0] != '+');
        }
        ServerMemory(text, (count as u64) * 1_073_741_824)
    }

    /// The number of bytes of the amount.
    pub fn bytes(&self) -> (bytes: u64)
        ensures
            bytes == self.size(),
            parse_memory(self.text()) == Ok::<u64, MemoryParseError>(bytes),
    {
        proof {
            use_type_invariant(self);
        }
        self.1
    }

    /// The text that the amount was written as.
    pub fn to_string(&self) -> (text: String)
        ensures
            text@ == self.text(),
            parse_memory(text@) == Ok::<u64, MemoryParseError>(self.size()),
    {
        proof {
            use_type_invariant(self);
        }
        self.0.clone()
    }
}

/// `c` in lower case where it is an ASCII capital, else `c` itself.
fn lower(c: char) -> (l: char)
    ensures
        l == ascii_lower(c),
{
    if c >= 'A' && c <= 'Z' {
        ((c as u8) + 32u8) as char
    } else {
        c
    }
}

impl Clone for ServerMemory {
    fn clone(&self) -> (copy: Self)
        ensures
            copy.text() == self.text(),
            copy.size() == self.size(),
    {
        proof {
            use_type_invariant(self);
        }
        ServerMemory(self.0.clone(), self.1)
    }
}

impl PartialEq for ServerMemory {
    fn eq(&self, other: &Self) -> (same: bool) {
        self.1 == other.1
    }
}

impl Eq for ServerMemory {

}

impl PartialEqSpecImpl for ServerMemory {
    open spec fn obeys_eq_spec() -> bool {
        true
    }

    open spec fn eq_spec(&self, other: &Self) -> bool {
        self.size() == other.size()
    }
}

impl PartialOrd for ServerMemory {
    fn partial_cmp(&self, other: &Self) -> (order: Option<Ordering>) {
        if self.1 < other.1 {
            Some(Ordering::Less)
        } else if self.1 == other.1 {
            Some(Ordering::Equal)
        } else {
            Some(Ordering::Greater)
        }
    }
}

impl PartialOrdSpecImpl for ServerMemory {
    open spec fn obeys_partial_cmp_spec() -> bool {
        true
    }

    open spec fn partial_cmp_spec(&self, other: &Self) -> Option<Ordering> {
        if self.size() < other.size() {
            Some(Ordering::Less)
        } else if self.size() == other.size() {
            Some(Ordering::Equal)
        } else {
            Some(Ordering::Greater)
        }
    }
}

} // verus!
