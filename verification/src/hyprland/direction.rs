//! A direction for focus and window movement: left, right, up or down.
use vstd::prelude::*;
use crate::text::{eq_str, fold, lemma_plain_word, string_from, trim, trimmed_folded};

verus! {

#[derive(Debug, Clone, Copy, PartialEq, Eq, Hash)]
pub enum Direction {
    Left,
    Right,
    Up,
    Down,
}

impl Default for Direction {
    fn default() -> (r: Self)
        ensures
            r == Direction::Left,
    {
        Direction::Left
    }
}

impl Direction {
    /// What `from_str` gives for the text `s`: the keyword, compared after trimming and without regard to case.
    pub open spec fn spec_from_str(s: Seq<char>) -> Result<Self, ()> {
        let t = fold(trim(s));
        if t == "l"@ || t == "left"@ {
            Ok(Direction::Left)
        } else if t == "r"@ || t == "right"@ {
            Ok(Direction::Right)
        } else if t == "u"@ || t == "up"@ {
            Ok(Direction::Up)
        } else if t == "d"@ || t == "down"@ {
            Ok(Direction::Down)
        } else {
            Err(())
        }
    }

    /// The keyword that `to_string` writes.
    pub open spec fn spec_to_string(self) -> Seq<char> {
        match self {
            Direction::Left => "left"@,
            Direction::Right => "right"@,
            Direction::Up => "up"@,
            Direction::Down => "down"@,
        }
    }

    pub fn from_str(s: &str) -> (r: Result<Self, ()>)
        ensures
            r == Self::spec_from_str(s@),
    {
        let t = trimmed_folded(s);
        if eq_str(&t, "l") || eq_str(&t, "left") {
            Ok(Direction::Left)
        } else if eq_str(&t, "r") || eq_str(&t, "right") {
            Ok(Direction::Right)
        } else if eq_str(&t, "u") || eq_str(&t, "up") {
            Ok(Direction::Up)
        } else if eq_str(&t, "d") || eq_str(&t, "down") {
            Ok(Direction::Down)
        } else {
            Err(())
        }
    }

    pub fn to_string(&self) -> (r: String)
        ensures
            r@ == self.spec_to_string(),
    {
        match self {
            Direction::Left => string_from("left"),
            Direction::Right => string_from("right"),
            Direction::Up => string_from("up"),
            Direction::Down => string_from("down"),
        }
    }

    /// Each keyword, trimmed, in any ASCII case, reads as its own value, and nothing else
    /// reads as that value; a text that is no keyword is refused; each value
    /// is written as its keyword.
    pub proof fn lemma_keywords(s: Seq<char>)
        ensures
            Self::spec_from_str(s) == Ok::<Self, ()>(Direction::Left) <==> (fold(trim(s)) == "l"@ || fold(trim(s)) == "left"@),
            Self::spec_from_str(s) == Ok::<Self, ()>(Direction::Right) <==> (fold(trim(s)) == "r"@ || fold(trim(s)) == "right"@),
            Self::spec_from_str(s) == Ok::<Self, ()>(Direction::Up) <==> (fold(trim(s)) == "u"@ || fold(trim(s)) == "up"@),
            Self::spec_from_str(s) == Ok::<Self, ()>(Direction::Down) <==> (fold(trim(s)) == "d"@ || fold(trim(s)) == "down"@),
            Self::spec_from_str(s) is Err <==> !(fold(trim(s)) == "l"@ || fold(trim(s)) == "left"@ || fold(trim(s)) == "r"@ || fold(trim(s)) == "right"@ || fold(trim(s)) == "u"@ || fold(trim(s)) == "up"@ || fold(trim(s)) == "d"@ || fold(trim(s)) == "down"@),
            Direction::Left.spec_to_string() == "left"@,
            Direction::Right.spec_to_string() == "right"@,
            Direction::Up.spec_to_string() == "up"@,
            Direction::Down.spec_to_string() == "down"@,
    {
        reveal_strlit("l");
        reveal_strlit("left");
        reveal_strlit("r");
        reveal_strlit("right");
        reveal_strlit("u");
        reveal_strlit("up");
        reveal_strlit("d");
        reveal_strlit("down");
        assert("l"@.len() != "left"@.len());
        assert("l"@[0] != "r"@[0]);
        assert("l"@.len() != "right"@.len());
        assert("l"@[0] != "u"@[0]);
        assert("l"@.len() != "up"@.len());
        assert("l"@[0] != "d"@[0]);
        assert("l"@.len() != "down"@.len());
        assert("left"@.len() != "r"@.len());
        assert("left"@.len() != "right"@.len());
        assert("left"@.len() != "u"@.len());
        assert("left"@.len() != "up"@.len());
        assert("left"@.len() != "d"@.len());
        assert("left"@[0] != "down"@[0]);
        assert("r"@.len() != "right"@.len());
        assert("r"@[0] != "u"@[0]);
        assert("r"@.len() != "up"@.len());
        assert("r"@[0] != "d"@[0]);
        assert("r"@.len() != "down"@.len());
        assert("right"@.len() != "u"@.len());
        assert("right"@.len() != "up"@.len());
        assert("right"@.len() != "d"@.len());
        assert("right"@.len() != "down"@.len());
        assert("u"@.len() != "up"@.len());
        assert("u"@[0] != "d"@[0]);
        assert("u"@.len() != "down"@.len());
        assert("up"@.len() != "d"@.len());
        assert("up"@.len() != "down"@.len());
        assert("d"@.len() != "down"@.len());
    }

    /// Reading back what `to_string` writes gives the same value.
    pub proof fn lemma_from_str_to_string(x: Direction)
        ensures
            Self::spec_from_str(x.spec_to_string()) == Ok::<Self, ()>(x),
    {
        reveal_strlit("l");
        reveal_strlit("left");
        reveal_strlit("r");
        reveal_strlit("right");
        reveal_strlit("u");
        reveal_strlit("up");
        reveal_strlit("d");
        reveal_strlit("down");
        lemma_plain_word(x.spec_to_string());
    }

}


} // verus!
