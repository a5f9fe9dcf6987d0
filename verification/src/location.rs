//! Where in its history a workflow stands: a path of coordinates, one per level of nesting.

use vstd::prelude::*;
use vstd::string::*;

use crate::text::{decimal_text, to_decimal};

verus! {

/// A place in a workflow's history.
pub type Location = [usize];

/// The coordinates of a location, written in base ten and set apart by a comma and a space.
pub open spec fn spec_coordinates(loc: Seq<usize>) -> Seq<char>
    decreases loc.len(),
{
    if loc.len() == 0 {
        Seq::empty()
    } else if loc.len() == 1 {
        decimal_text(loc[0] as nat)
    } else {
        spec_coordinates(loc.drop_last()) + seq![',', ' '] + decimal_text(loc.last() as nat)
    }
}

/// A location as it is shown: its coordinates between braces.
pub open spec fn spec_format_location(loc: Seq<usize>) -> Seq<char> {
    seq!['{'] + spec_coordinates(loc) + seq!['}']
}

/// Writes a location for a log line or an error message, as in `{0, 2, 1}`.
pub fn format_location(loc: &Location) -> (text: String)
    ensures
        text@ == spec_format_location(loc@),
{
    proof {
        reveal_strlit("{");
        reveal_strlit(", ");
        reveal_strlit("}");
    }
    let mut text = String::from_str("{");
    let mut i: usize = 0;
    while i < loc.len()
        invariant
            i <= loc.len(),
            "{"@ == seq!['{'],
            ", "@ == seq![',', ' '],
            text@ == seq!['{'] + spec_coordinates(loc@.take(i as int)),
        decreases loc.len() - i,
    {
        let ghost done = loc@.take(i as int);
        let ghost next = loc@.take(i + 1);
        proof {
            assert(next.drop_last() == done);
            assert(next.last() == loc@[i as int]);
        }
        if i > 0 {
            text.append(", ");
        }
        let number = to_decimal(loc[i]);
        text.append(number.as_str());
        assert(text@ =~= seq!['{'] + spec_coordinates(next));
        i += 1;
    }
    text.append("}");
    proof {
        assert(loc@.take(loc.len() as int) == loc@);
    }
    text
}

} // verus!
