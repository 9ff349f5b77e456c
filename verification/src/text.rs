//! What a stream can write and what it can read: values with a canonical text,
//! and values that a text denotes.

use crate::decimal::{
    decimal, format_signed, format_unsigned, integer_within, lemma_decimal_round_trip,
    natural_within, parse_signed, parse_unsigned,
};
use vstd::prelude::*;
use vstd::string::*;

verus! {

/// A value that has a canonical text.
pub trait Formattable {
    /// The canonical text of the value.
    spec fn text(&self) -> Seq<char>;

    /// Gives the canonical text of the value.
    fn to_text(&self) -> (s: String)
        ensures
            s@ == self.text(),
    ;
}

/// A type whose values some texts denote.
pub trait Parseable: Sized + View {
    /// The value that `text` denotes, if it denotes one.
    spec fn parsed(text: Seq<char>) -> Option<Self::V>;

    /// The name under which a diagnostic speaks of the type.
    spec fn spec_name() -> Seq<char>;

    /// Reads `text` as a value of the type.
    fn parse(text: &str) -> (r: Option<Self>)
        ensures
            match r {
                Some(value) => Self::parsed(text@) == Some(value@),
                None => Self::parsed(text@) is None,
            },
    ;

    /// Gives the name under which a diagnostic speaks of the type.
    fn name() -> (s: &'static str)
        ensures
            s@ == Self::spec_name(),
    ;
}

/// A type whose values are read back from their own canonical text.
pub trait Faithful: Formattable + Parseable {
    /// The canonical text of a value denotes that value.
    proof fn lemma_reads_back(&self)
        ensures
            Self::parsed(self.text()) == Some(self@),
    ;
}

impl<T: Formattable> Formattable for &T {
    open spec fn text(&self) -> Seq<char> {
        (**self).text()
    }

    fn to_text(&self) -> (s: String) {
        (**self).to_text()
    }
}

impl Formattable for String {
    open spec fn text(&self) -> Seq<char> {
        self@
    }

    fn to_text(&self) -> (s: String) {
        self.clone()
    }
}

impl<'a> Formattable for &'a str {
    open spec fn text(&self) -> Seq<char> {
        self@
    }

    fn to_text(&self) -> (s: String) {
        String::from_str(*self)
    }
}

impl Parseable for String {
    open spec fn parsed(text: Seq<char>) -> Option<Seq<char>> {
        Some(text)
    }

    open spec fn spec_name() -> Seq<char> {
        "String"@
    }

    fn parse(text: &str) -> (r: Option<String>) {
        Some(String::from_str(text))
    }

    fn name() -> (s: &'static str) {
        "String"
    }
}

impl Faithful for String {
    proof fn lemma_reads_back(&self) {
    }
}

impl Formattable for i8 {
    open spec fn text(&self) -> Seq<char> {
        decimal(*self as int)
    }

    fn to_text(&self) -> (s: String) {
        format_signed(*self as i128)
    }
}

impl Parseable for i8 {
    open spec fn parsed(text: Seq<char>) -> Option<i8> {
        match integer_within(text, i8::MIN as int, i8::MAX as int) {
            Some(v) => Some(v as i8),
            None => None,
        }
    }

    open spec fn spec_name() -> Seq<char> {
        "i8"@
    }

    fn parse(text: &str) -> (r: Option<i8>) {
        match parse_signed(text) {
            Some(v) => if i8::MIN as i128 <= v && v <= i8::MAX as i128 {
                Some(v as i8)
            } else {
                None
            },
            None => None,
        }
    }

    fn name() -> (s: &'static str) {
        "i8"
    }
}

impl Faithful for i8 {
    proof fn lemma_reads_back(&self) {
        lemma_decimal_round_trip(*self as int);
    }
}

impl Formattable for i16 {
    open spec fn text(&self) -> Seq<char> {
        decimal(*self as int)
    }

    fn to_text(&self) -> (s: String) {
        format_signed(*self as i128)
    }
}

impl Parseable for i16 {
    open spec fn parsed(text: Seq<char>) -> Option<i16> {
        match integer_within(text, i16::MIN as int, i16::MAX as int) {
            Some(v) => Some(v as i16),
            None => None,
        }
    }

    open spec fn spec_name() -> Seq<char> {
        "i16"@
    }

    fn parse(text: &str) -> (r: Option<i16>) {
        match parse_signed(text) {
            Some(v) => if i16::MIN as i128 <= v && v <= i16::MAX as i128 {
                Some(v as i16)
            } else {
                None
            },
            None => None,
        }
    }

    fn name() -> (s: &'static str) {
        "i16"
    }
}

impl Faithful for i16 {
    proof fn lemma_reads_back(&self) {
        lemma_decimal_round_trip(*self as int);
    }
}

impl Formattable for i32 {
    open spec fn text(&self) -> Seq<char> {
        decimal(*self as int)
    }

    fn to_text(&self) -> (s: String) {
        format_signed(*self as i128)
    }
}

impl Parseable for i32 {
    open spec fn parsed(text: Seq<char>) -> Option<i32> {
        match integer_within(text, i32::MIN as int, i32::MAX as int) {
            Some(v) => Some(v as i32),
            None => None,
        }
    }

    open spec fn spec_name() -> Seq<char> {
        "i32"@
    }

    fn parse(text: &str) -> (r: Option<i32>) {
        match parse_signed(text) {
            Some(v) => if i32::MIN as i128 <= v && v <= i32::MAX as i128 {
                Some(v as i32)
            } else {
                None
            },
            None => None,
        }
    }

    fn name() -> (s: &'static str) {
        "i32"
    }
}

impl Faithful for i32 {
    proof fn lemma_reads_back(&self) {
        lemma_decimal_round_trip(*self as int);
    }
}

impl Formattable for i64 {
    open spec fn text(&self) -> Seq<char> {
        decimal(*self as int)
    }

    fn to_text(&self) -> (s: String) {
        format_signed(*self as i128)
    }
}

impl Parseable for i64 {
    open spec fn parsed(text: Seq<char>) -> Option<i64> {
        match integer_within(text, i64::MIN as int, i64::MAX as int) {
            Some(v) => Some(v as i64),
            None => None,
        }
    }

    open spec fn spec_name() -> Seq<char> {
        "i64"@
    }

    fn parse(text: &str) -> (r: Option<i64>) {
        match parse_signed(text) {
            Some(v) => if i64::MIN as i128 <= v && v <= i64::MAX as i128 {
                Some(v as i64)
            } else {
                None
            },
            None => None,
        }
    }

    fn name() -> (s: &'static str) {
        "i64"
    }
}

impl Faithful for i64 {
    proof fn lemma_reads_back(&self) {
        lemma_decimal_round_trip(*self as int);
    }
}

impl Formattable for i128 {
    open spec fn text(&self) -> Seq<char> {
        decimal(*self as int)
    }

    fn to_text(&self) -> (s: String) {
        format_signed(*self as i128)
    }
}

impl Parseable for i128 {
    open spec fn parsed(text: Seq<char>) -> Option<i128> {
        match integer_within(text, i128::MIN as int, i128::MAX as int) {
            Some(v) => Some(v as i128),
            None => None,
        }
    }

    open spec fn spec_name() -> Seq<char> {
        "i128"@
    }

    fn parse(text: &str) -> (r: Option<i128>) {
        match parse_signed(text) {
            Some(v) => if i128::MIN as i128 <= v && v <= i128::MAX as i128 {
                Some(v as i128)
            } else {
                None
            },
            None => None,
        }
    }

    fn name() -> (s: &'static str) {
        "i128"
    }
}

impl Faithful for i128 {
    proof fn lemma_reads_back(&self) {
        lemma_decimal_round_trip(*self as int);
    }
}

impl Formattable for isize {
    open spec fn text(&self) -> Seq<char> {
        decimal(*self as int)
    }

    fn to_text(&self) -> (s: String) {
        format_signed(*self as i128)
    }
}

impl Parseable for isize {
    open spec fn parsed(text: Seq<char>) -> Option<isize> {
        match integer_within(text, isize::MIN as int, isize::MAX as int) {
            Some(v) => Some(v as isize),
            None => None,
        }
    }

    open spec fn spec_name() -> Seq<char> {
        "isize"@
    }

    fn parse(text: &str) -> (r: Option<isize>) {
        match parse_signed(text) {
            Some(v) => if isize::MIN as i128 <= v && v <= isize::MAX as i128 {
                Some(v as isize)
            } else {
                None
            },
            None => None,
        }
    }

    fn name() -> (s: &'static str) {
        "isize"
    }
}

impl Faithful for isize {
    proof fn lemma_reads_back(&self) {
        lemma_decimal_round_trip(*self as int);
    }
}

impl Formattable for u8 {
    open spec fn text(&self) -> Seq<char> {
        decimal(*self as int)
    }

    fn to_text(&self) -> (s: String) {
        format_unsigned(*self as u128)
    }
}

impl Parseable for u8 {
    open spec fn parsed(text: Seq<char>) -> Option<u8> {
        match natural_within(text, u8::MAX as int) {
            Some(v) => Some(v as u8),
            None => None,
        }
    }

    open spec fn spec_name() -> Seq<char> {
        "u8"@
    }

    fn parse(text: &str) -> (r: Option<u8>) {
        match parse_unsigned(text) {
            Some(v) => if v <= u8::MAX as u128 {
                Some(v as u8)
            } else {
                None
            },
            None => None,
        }
    }

    fn name() -> (s: &'static str) {
        "u8"
    }
}

impl Faithful for u8 {
    proof fn lemma_reads_back(&self) {
        lemma_decimal_round_trip(*self as int);
    }
}

impl Formattable for u16 {
    open spec fn text(&self) -> Seq<char> {
        decimal(*self as int)
    }

    fn to_text(&self) -> (s: String) {
        format_unsigned(*self as u128)
    }
}

impl Parseable for u16 {
    open spec fn parsed(text: Seq<char>) -> Option<u16> {
        match natural_within(text, u16::MAX as int) {
            Some(v) => Some(v as u16),
            None => None,
        }
    }

    open spec fn spec_name() -> Seq<char> {
        "u16"@
    }

    fn parse(text: &str) -> (r: Option<u16>) {
        match parse_unsigned(text) {
            Some(v) => if v <= u16::MAX as u128 {
                Some(v as u16)
            } else {
                None
            },
            None => None,
        }
    }

    fn name() -> (s: &'static str) {
        "u16"
    }
}

impl Faithful for u16 {
    proof fn lemma_reads_back(&self) {
        lemma_decimal_round_trip(*self as int);
    }
}

impl Formattable for u32 {
    open spec fn text(&self) -> Seq<char> {
        decimal(*self as int)
    }

    fn to_text(&self) -> (s: String) {
        format_unsigned(*self as u128)
    }
}

impl Parseable for u32 {
    open spec fn parsed(text: Seq<char>) -> Option<u32> {
        match natural_within(text, u32::MAX as int) {
            Some(v) => Some(v as u32),
            None => None,
        }
    }

    open spec fn spec_name() -> Seq<char> {
        "u32"@
    }

    fn parse(text: &str) -> (r: Option<u32>) {
        match parse_unsigned(text) {
            Some(v) => if v <= u32::MAX as u128 {
                Some(v as u32)
            } else {
                None
            },
            None => None,
        }
    }

    fn name() -> (s: &'static str) {
        "u32"
    }
}

impl Faithful for u32 {
    proof fn lemma_reads_back(&self) {
        lemma_decimal_round_trip(*self as int);
    }
}

impl Formattable for u64 {
    open spec fn text(&self) -> Seq<char> {
        decimal(*self as int)
    }

    fn to_text(&self) -> (s: String) {
        format_unsigned(*self as u128)
    }
}

impl Parseable for u64 {
    open spec fn parsed(text: Seq<char>) -> Option<u64> {
        match natural_within(text, u64::MAX as int) {
            Some(v) => Some(v as u64),
            None => None,
        }
    }

    open spec fn spec_name() -> Seq<char> {
        "u64"@
    }

    fn parse(text: &str) -> (r: Option<u64>) {
        match parse_unsigned(text) {
            Some(v) => if v <= u64::MAX as u128 {
                Some(v as u64)
            } else {
                None
            },
            None => None,
        }
    }

    fn name() -> (s: &'static str) {
        "u64"
    }
}

impl Faithful for u64 {
    proof fn lemma_reads_back(&self) {
        lemma_decimal_round_trip(*self as int);
    }
}

impl Formattable for u128 {
    open spec fn text(&self) -> Seq<char> {
        decimal(*self as int)
    }

    fn to_text(&self) -> (s: String) {
        format_unsigned(*self as u128)
    }
}

impl Parseable for u128 {
    open spec fn parsed(text: Seq<char>) -> Option<u128> {
        match natural_within(text, u128::MAX as int) {
            Some(v) => Some(v as u128),
            None => None,
        }
    }

    open spec fn spec_name() -> Seq<char> {
        "u128"@
    }

    fn parse(text: &str) -> (r: Option<u128>) {
        match parse_unsigned(text) {
            Some(v) => if v <= u128::MAX as u128 {
                Some(v as u128)
            } else {
                None
            },
            None => None,
        }
    }

    fn name() -> (s: &'static str) {
        "u128"
    }
}

impl Faithful for u128 {
    proof fn lemma_reads_back(&self) {
        lemma_decimal_round_trip(*self as int);
    }
}

impl Formattable for usize {
    open spec fn text(&self) -> Seq<char> {
        decimal(*self as int)
    }

    fn to_text(&self) -> (s: String) {
        format_unsigned(*self as u128)
    }
}

impl Parseable for usize {
    open spec fn parsed(text: Seq<char>) -> Option<usize> {
        match natural_within(text, usize::MAX as int) {
            Some(v) => Some(v as usize),
            None => None,
        }
    }

    open spec fn spec_name() -> Seq<char> {
        "usize"@
    }

    fn parse(text: &str) -> (r: Option<usize>) {
        match parse_unsigned(text) {
            Some(v) => if v <= usize::MAX as u128 {
                Some(v as usize)
            } else {
                None
            },
            None => None,
        }
    }

    fn name() -> (s: &'static str) {
        "usize"
    }
}

impl Faithful for usize {
    proof fn lemma_reads_back(&self) {
        lemma_decimal_round_trip(*self as int);
    }
}

} // verus!
