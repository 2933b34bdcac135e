//! A text filter for input whose repeats stand next to each other.

use super::Filter;
use crate::filters::same_bytes;
use vstd::prelude::*;
use vstd::utf8::encode_utf8_decode_utf8;

verus! {

/// Detects a record only when it repeats the one just before it.
///
/// The filter keeps a single record. It finds every repeat only where equal
/// records are adjacent, as they are in sorted input.
pub struct ConsecutiveFilter {
    last: Option<String>,
}

impl View for ConsecutiveFilter {
    type V = Option<Seq<char>>;

    /// The record seen last, if any.
    closed spec fn view(&self) -> Option<Seq<char>> {
        match self.last {
            Some(record) => Some(record@),
            None => None,
        }
    }
}

impl Filter for ConsecutiveFilter {
    open spec fn recalls(&self, text: Seq<char>) -> bool {
        self@ == Some(text)
    }

    open spec fn becomes(&self, input: Seq<char>, after: &Self) -> bool {
        after@ == Some(input)
    }

    fn new() -> (filter: ConsecutiveFilter)
        ensures
            filter@ is None,
    {
        ConsecutiveFilter { last: None }
    }

    fn detect(&mut self, input: &str) -> (fresh: bool)
        ensures
            final(self)@ == Some(input@),
    {
        let repeated = match &self.last {
            Some(previous) => {
                proof {
                    encode_utf8_decode_utf8(previous@);
                    encode_utf8_decode_utf8(input@);
                }
                same_bytes(previous.as_str().as_bytes(), input.as_bytes())
            },
            None => false,
        };
        if repeated {
            return false;
        }
        self.last = Some(input.to_owned());
        true
    }
}

} // verus!
