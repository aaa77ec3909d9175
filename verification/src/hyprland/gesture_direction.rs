//! The direction of a touchpad gesture.
use vstd::prelude::*;
use crate::text::{eq_str, fold, lemma_plain_word, string_from, trim, trimmed_folded};

verus! {

#[derive(Debug, Clone, Copy, PartialEq, Eq, Hash)]
pub enum GestureDirection {
    Swipe,
    Horizontal,
    Vertical,
    Left,
    Right,
    Up,
    Down,
    Pinch,
    PinchIn,
    PinchOut,
}

impl Default for GestureDirection {
    fn default() -> (r: Self)
        ensures
            r == GestureDirection::Swipe,
    {
        GestureDirection::Swipe
    }
}

impl GestureDirection {
    /// What `from_str` gives for the text `s`: the keyword, compared after trimming and without regard to case.
    pub open spec fn spec_from_str(s: Seq<char>) -> Result<Self, ()> {
        let t = fold(trim(s));
        if t == "swipe"@ {
            Ok(GestureDirection::Swipe)
        } else if t == "horizontal"@ {
            Ok(GestureDirection::Horizontal)
        } else if t == "vertical"@ {
            Ok(GestureDirection::Vertical)
        } else if t == "left"@ {
            Ok(GestureDirection::Left)
        } else if t == "right"@ {
            Ok(GestureDirection::Right)
        } else if t == "up"@ {
            Ok(GestureDirection::Up)
        } else if t == "down"@ {
            Ok(GestureDirection::Down)
        } else if t == "pinch"@ {
            Ok(GestureDirection::Pinch)
        } else if t == "pinchin"@ {
            Ok(GestureDirection::PinchIn)
        } else if t == "pinchout"@ {
            Ok(GestureDirection::PinchOut)
        } else {
            Err(())
        }
    }

    /// The keyword that `to_string` writes.
    pub open spec fn spec_to_string(self) -> Seq<char> {
        match self {
            GestureDirection::Swipe => "swipe"@,
            GestureDirection::Horizontal => "horizontal"@,
            GestureDirection::Vertical => "vertical"@,
            GestureDirection::Left => "left"@,
            GestureDirection::Right => "right"@,
            GestureDirection::Up => "up"@,
            GestureDirection::Down => "down"@,
            GestureDirection::Pinch => "pinch"@,
            GestureDirection::PinchIn => "pinchin"@,
            GestureDirection::PinchOut => "pinchout"@,
        }
    }

    pub fn from_str(s: &str) -> (r: Result<Self, ()>)
        ensures
            r == Self::spec_from_str(s@),
    {
        let t = trimmed_folded(s);
        if eq_str(&t, "swipe") {
            Ok(GestureDirection::Swipe)
        } else if eq_str(&t, "horizontal") {
            Ok(GestureDirection::Horizontal)
        } else if eq_str(&t, "vertical") {
            Ok(GestureDirection::Vertical)
        } else if eq_str(&t, "left") {
            Ok(GestureDirection::Left)
        } else if eq_str(&t, "right") {
            Ok(GestureDirection::Right)
        } else if eq_str(&t, "up") {
            Ok(GestureDirection::Up)
        } else if eq_str(&t, "down") {
            Ok(GestureDirection::Down)
        } else if eq_str(&t, "pinch") {
            Ok(GestureDirection::Pinch)
        } else if eq_str(&t, "pinchin") {
            Ok(GestureDirection::PinchIn)
        } else if eq_str(&t, "pinchout") {
            Ok(GestureDirection::PinchOut)
        } else {
            Err(())
        }
    }

    pub fn to_string(&self) -> (r: String)
        ensures
            r@ == self.spec_to_string(),
    {
        match self {
            GestureDirection::Swipe => string_from("swipe"),
            GestureDirection::Horizontal => string_from("horizontal"),
            GestureDirection::Vertical => string_from("vertical"),
            GestureDirection::Left => string_from("left"),
            GestureDirection::Right => string_from("right"),
            GestureDirection::Up => string_from("up"),
            GestureDirection::Down => string_from("down"),
            GestureDirection::Pinch => string_from("pinch"),
            GestureDirection::PinchIn => string_from("pinchin"),
            GestureDirection::PinchOut => string_from("pinchout"),
        }
    }

    /// Each keyword, trimmed, in any ASCII case, reads as its own value, and nothing else
    /// reads as that value; a text that is no keyword is refused; each value
    /// is written as its keyword.
    pub proof fn lemma_keywords(s: Seq<char>)
        ensures
            Self::spec_from_str(s) == Ok::<Self, ()>(GestureDirection::Swipe) <==> (fold(trim(s)) == "swipe"@),
            Self::spec_from_str(s) == Ok::<Self, ()>(GestureDirection::Horizontal) <==> (fold(trim(s)) == "horizontal"@),
            Self::spec_from_str(s) == Ok::<Self, ()>(GestureDirection::Vertical) <==> (fold(trim(s)) == "vertical"@),
            Self::spec_from_str(s) == Ok::<Self, ()>(GestureDirection::Left) <==> (fold(trim(s)) == "left"@),
            Self::spec_from_str(s) == Ok::<Self, ()>(GestureDirection::Right) <==> (fold(trim(s)) == "right"@),
            Self::spec_from_str(s) == Ok::<Self, ()>(GestureDirection::Up) <==> (fold(trim(s)) == "up"@),
            Self::spec_from_str(s) == Ok::<Self, ()>(GestureDirection::Down) <==> (fold(trim(s)) == "down"@),
            Self::spec_from_str(s) == Ok::<Self, ()>(GestureDirection::Pinch) <==> (fold(trim(s)) == "pinch"@),
            Self::spec_from_str(s) == Ok::<Self, ()>(GestureDirection::PinchIn) <==> (fold(trim(s)) == "pinchin"@),
            Self::spec_from_str(s) == Ok::<Self, ()>(GestureDirection::PinchOut) <==> (fold(trim(s)) == "pinchout"@),
            Self::spec_from_str(s) is Err <==> !(fold(trim(s)) == "swipe"@ || fold(trim(s)) == "horizontal"@ || fold(trim(s)) == "vertical"@ || fold(trim(s)) == "left"@ || fold(trim(s)) == "right"@ || fold(trim(s)) == "up"@ || fold(trim(s)) == "down"@ || fold(trim(s)) == "pinch"@ || fold(trim(s)) == "pinchin"@ || fold(trim(s)) == "pinchout"@),
            GestureDirection::Swipe.spec_to_string() == "swipe"@,
            GestureDirection::Horizontal.spec_to_string() == "horizontal"@,
            GestureDirection::Vertical.spec_to_string() == "vertical"@,
            GestureDirection::Left.spec_to_string() == "left"@,
            GestureDirection::Right.spec_to_string() == "right"@,
            GestureDirection::Up.spec_to_string() == "up"@,
            GestureDirection::Down.spec_to_string() == "down"@,
            GestureDirection::Pinch.spec_to_string() == "pinch"@,
            GestureDirection::PinchIn.spec_to_string() == "pinchin"@,
            GestureDirection::PinchOut.spec_to_string() == "pinchout"@,
    {
        reveal_strlit("swipe");
        reveal_strlit("horizontal");
        reveal_strlit("vertical");
        reveal_strlit("left");
        reveal_strlit("right");
        reveal_strlit("up");
        reveal_strlit("down");
        reveal_strlit("pinch");
        reveal_strlit("pinchin");
        reveal_strlit("pinchout");
        assert("swipe"@.len() != "horizontal"@.len());
        assert("swipe"@.len() != "vertical"@.len());
        assert("swipe"@.len() != "left"@.len());
        assert("swipe"@[0] != "right"@[0]);
        assert("swipe"@.len() != "up"@.len());
        assert("swipe"@.len() != "down"@.len());
        assert("swipe"@[0] != "pinch"@[0]);
        assert("swipe"@.len() != "pinchin"@.len());
        assert("swipe"@.len() != "pinchout"@.len());
        assert("horizontal"@.len() != "vertical"@.len());
        assert("horizontal"@.len() != "left"@.len());
        assert("horizontal"@.len() != "right"@.len());
        assert("horizontal"@.len() != "up"@.len());
        assert("horizontal"@.len() != "down"@.len());
        assert("horizontal"@.len() != "pinch"@.len());
        assert("horizontal"@.len() != "pinchin"@.len());
        assert("horizontal"@.len() != "pinchout"@.len());
        assert("vertical"@.len() != "left"@.len());
        assert("vertical"@.len() != "right"@.len());
        assert("vertical"@.len() != "up"@.len());
        assert("vertical"@.len() != "down"@.len());
        assert("vertical"@.len() != "pinch"@.len());
        assert("vertical"@.len() != "pinchin"@.len());
        assert("vertical"@[0] != "pinchout"@[0]);
        assert("left"@.len() != "right"@.len());
        assert("left"@.len() != "up"@.len());
        assert("left"@[0] != "down"@[0]);
        assert("left"@.len() != "pinch"@.len());
        assert("left"@.len() != "pinchin"@.len());
        assert("left"@.len() != "pinchout"@.len());
        assert("right"@.len() != "up"@.len());
        assert("right"@.len() != "down"@.len());
        assert("right"@[0] != "pinch"@[0]);
        assert("right"@.len() != "pinchin"@.len());
        assert("right"@.len() != "pinchout"@.len());
        assert("up"@.len() != "down"@.len());
        assert("up"@.len() != "pinch"@.len());
        assert("up"@.len() != "pinchin"@.len());
        assert("up"@.len() != "pinchout"@.len());
        assert("down"@.len() != "pinch"@.len());
        assert("down"@.len() != "pinchin"@.len());
        assert("down"@.len() != "pinchout"@.len());
        assert("pinch"@.len() != "pinchin"@.len());
        assert("pinch"@.len() != "pinchout"@.len());
        assert("pinchin"@.len() != "pinchout"@.len());
    }

    /// Reading back what `to_string` writes gives the same value.
    pub proof fn lemma_from_str_to_string(x: GestureDirection)
        ensures
            Self::spec_from_str(x.spec_to_string()) == Ok::<Self, ()>(x),
    {
        reveal_strlit("swipe");
        reveal_strlit("horizontal");
        reveal_strlit("vertical");
        reveal_strlit("left");
        reveal_strlit("right");
        reveal_strlit("up");
        reveal_strlit("down");
        reveal_strlit("pinch");
        reveal_strlit("pinchin");
        reveal_strlit("pinchout");
        lemma_plain_word(x.spec_to_string());
    }

}


} // verus!
