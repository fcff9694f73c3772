//! Values shared by several controllers.
use vstd::prelude::*;

use crate::num::{decimal, format_unsigned, lemma_decimal, lemma_unsigned_round_trip, is_digit};
use crate::text::{first_line, is_space, lemma_split_on_absent, same_text};
use crate::FieldValue;

verus! {

/// A limit that is either absent (`max` in the file) or a number.
#[derive(Debug, PartialEq, Eq, Structural, Clone, Copy)]
pub enum Max {
    Max,
    Val(u32),
}

impl Max {
    /// The text of the limit as the kernel writes it.
    pub open spec fn text(self) -> Seq<char> {
        match self {
            Max::Max => "max"@,
            Max::Val(n) => decimal(n as nat),
        }
    }

    pub fn to_string(&self) -> (r: String)
        ensures
            r@ == self.text(),
    {
        match self {
            Max::Max => String::from_str("max"),
            Max::Val(n) => format_unsigned(*n as u64),
        }
    }
}

impl FieldValue for Max {
    open spec fn parse_spec(s: Seq<char>) -> Option<Max> {
        if s == "max"@ {
            Some(Max::Max)
        } else {
            match u32::parse_spec(s) {
                Some(n) => Some(Max::Val(n)),
                None => None,
            }
        }
    }

    fn parse(s: &str) -> (r: Option<Max>) {
        if same_text(s, "max") {
            Some(Max::Max)
        } else {
            match u32::parse(s) {
                Some(n) => Some(Max::Val(n)),
                None => None,
            }
        }
    }
}

/// The text of a limit is one word.
pub proof fn lemma_max_text(v: Max)
    ensures
        v.text().len() > 0,
        forall|i: int| 0 <= i < v.text().len() ==> !is_space(#[trigger] v.text()[i]),
{
    reveal_strlit("max");
    if let Max::Val(n) = v {
        lemma_decimal(n as nat);
        assert forall|i: int| 0 <= i < v.text().len() implies !is_space(#[trigger] v.text()[i]) by {
            assert(is_digit(decimal(n as nat)[i]));
        }
    }
}

/// Decoding the text of a limit gives the limit back, also when it is read as the
/// first line of a file.
pub proof fn max_decode_encode(v: Max)
    ensures
        Max::parse_spec(v.text()) == Some(v),
        first_line(v.text()) == v.text(),
{
    reveal_strlit("max");
    lemma_max_text(v);
    lemma_split_on_absent(v.text(), '\n');
    if let Max::Val(n) = v {
        lemma_decimal(n as nat);
        lemma_unsigned_round_trip(n as nat, u32::MAX as nat);
        assert(is_digit(decimal(n as nat)[0]));
        assert(decimal(n as nat) != "max"@);
    }
}

} // verus!
