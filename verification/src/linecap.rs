//! How the ends of a drawn line are shaped.

use crate::codec::same_text;
use vstd::prelude::*;

verus! {

/// The shape of the end of a line.
#[derive(Clone, Copy, Debug, PartialEq, Eq, Structural)]
pub enum LineCap {
    Butt,
    Round,
    Square,
}

impl LineCap {
    /// The name of the shape.
    pub open spec fn name(self) -> Seq<char> {
        match self {
            LineCap::Butt => "butt"@,
            LineCap::Round => "round"@,
            LineCap::Square => "square"@,
        }
    }

    /// The shape that `value` names; the butt where it names none.
    pub open spec fn spec_from(value: Seq<char>) -> LineCap {
        if value == "round"@ {
            LineCap::Round
        } else if value == "square"@ {
            LineCap::Square
        } else {
            LineCap::Butt
        }
    }

    /// The shape that `value` names; the butt where it names none.
    pub fn from(value: &str) -> (r: Self)
        ensures
            r == Self::spec_from(value@),
    {
        if same_text(value, "round") {
            LineCap::Round
        } else if same_text(value, "square") {
            LineCap::Square
        } else {
            LineCap::Butt
        }
    }

    /// The name of the shape.
    pub fn to_string(&self) -> (r: &str)
        ensures
            r@ == self.name(),
    {
        match self {
            LineCap::Butt => "butt",
            LineCap::Round => "round",
            LineCap::Square => "square",
        }
    }
}

/// Every shape is the one that its name names.
pub proof fn lemma_name_round_trip(cap: LineCap)
    ensures
        LineCap::spec_from(cap.name()) == cap,
{
    reveal_strlit("butt");
    reveal_strlit("round");
    reveal_strlit("square");
    assert("butt"@.len() == 4 && "round"@.len() == 5 && "square"@.len() == 6);
}

} // verus!
