//! Calendar durations: months, days and nanoseconds, kept apart because
//! months and days have no fixed length.

use vstd::prelude::*;
use crate::ascii::{
    ascii_bytes, ascii_string, decimal_text, push_ascii, push_decimal, lemma_decimal_text_ascii,
};

verus! {

/// A calendar duration.
#[derive(Debug, Clone, Copy, PartialEq, Eq, Structural)]
pub struct Duration {
    pub months: i32,
    pub days: i32,
    pub nanoseconds: i64,
}

impl Duration {
    /// The duration of so many months, days and nanoseconds.
    pub fn new(months: i32, days: i32, nanoseconds: i64) -> (r: Self)
        ensures
            r == (Duration { months, days, nanoseconds }),
    {
        Self { months, days, nanoseconds }
    }

    /// The text of this duration: its three numbers in decimal, each
    /// followed by its unit.
    pub open spec fn text(self) -> Seq<char> {
        decimal_text(self.months as int) + " months, "@ + decimal_text(self.days as int)
            + " days, "@ + decimal_text(self.nanoseconds as int) + " nanoseconds"@
    }

    /// Returns the string representation of the duration.
    pub fn to_string(&self) -> (r: String)
        ensures
            r@ == self.text(),
    {
        let mut out: Vec<u8> = Vec::new();
        proof {
            reveal_strlit(" months, ");
            reveal_strlit(" days, ");
            reveal_strlit(" nanoseconds");
            lemma_decimal_text_ascii(self.months as int);
            lemma_decimal_text_ascii(self.days as int);
            lemma_decimal_text_ascii(self.nanoseconds as int);
        }
        push_decimal(&mut out, self.months as i64);
        push_ascii(&mut out, " months, ");
        push_decimal(&mut out, self.days as i64);
        push_ascii(&mut out, " days, ");
        push_decimal(&mut out, self.nanoseconds);
        push_ascii(&mut out, " nanoseconds");
        assert(out@ =~= ascii_bytes(self.text()));
        ascii_string(out, Ghost(self.text()))
    }
}

} // verus!
