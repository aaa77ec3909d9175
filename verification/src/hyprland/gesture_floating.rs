//! What the `float` gesture action does; the empty text means toggle.
use vstd::prelude::*;
use crate::text::{eq_str, fold, lemma_plain_word, string_from, trim, trimmed_folded};

verus! {

#[derive(Debug, Clone, Copy, PartialEq, Eq, Hash)]
pub enum GestureFloating {
    Toggle,
    Float,
    Tile,
}

impl Default for GestureFloating {
    fn default() -> (r: Self)
        ensures
            r == GestureFloating::Toggle,
    {
        GestureFloating::Toggle
    }
}

impl GestureFloating {
    /// What `from_str` gives for the text `s`: the keyword, compared after trimming and without regard to case.
    pub open spec fn spec_from_str(s: Seq<char>) -> Result<Self, ()> {
        let t = fold(trim(s));
        if t == ""@ || t == "toggle"@ {
            Ok(GestureFloating::Toggle)
        } else if t == "float"@ {
            Ok(GestureFloating::Float)
        } else if t == "tile"@ {
            Ok(GestureFloating::Tile)
        } else {
            Err(())
        }
    }

    /// The keyword that `to_string` writes.
    pub open spec fn spec_to_string(self) -> Seq<char> {
        match self {
            GestureFloating::Toggle => ""@,
            GestureFloating::Float => "float"@,
            GestureFloating::Tile => "tile"@,
        }
    }

    pub fn from_str(s: &str) -> (r: Result<Self, ()>)
        ensures
            r == Self::spec_from_str(s@),
    {
        let t = trimmed_folded(s);
        if eq_str(&t, "") || eq_str(&t, "toggle") {
            Ok(GestureFloating::Toggle)
        } else if eq_str(&t, "float") {
            Ok(GestureFloating::Float)
        } else if eq_str(&t, "tile") {
            Ok(GestureFloating::Tile)
        } else {
            Err(())
        }
    }

    pub fn to_string(&self) -> (r: String)
        ensures
            r@ == self.spec_to_string(),
    {
        match self {
            GestureFloating::Toggle => string_from(""),
            GestureFloating::Float => string_from("float"),
            GestureFloating::Tile => string_from("tile"),
        }
    }

    /// Each keyword, trimmed, in any ASCII case, reads as its own value, and nothing else
    /// reads as that value; a text that is no keyword is refused; each value
    /// is written as its keyword.
    pub proof fn lemma_keywords(s: Seq<char>)
        ensures
            Self::spec_from_str(s) == Ok::<Self, ()>(GestureFloating::Toggle) <==> (fold(trim(s)) == ""@ || fold(trim(s)) == "toggle"@),
            Self::spec_from_str(s) == Ok::<Self, ()>(GestureFloating::Float) <==> (fold(trim(s)) == "float"@),
            Self::spec_from_str(s) == Ok::<Self, ()>(GestureFloating::Tile) <==> (fold(trim(s)) == "tile"@),
            Self::spec_from_str(s) is Err <==> !(fold(trim(s)) == ""@ || fold(trim(s)) == "toggle"@ || fold(trim(s)) == "float"@ || fold(trim(s)) == "tile"@),
            GestureFloating::Toggle.spec_to_string() == ""@,
            GestureFloating::Float.spec_to_string() == "float"@,
            GestureFloating::Tile.spec_to_string() == "tile"@,
    {
        reveal_strlit("");
        reveal_strlit("toggle");
        reveal_strlit("float");
        reveal_strlit("tile");
        assert(""@.len() != "toggle"@.len());
        assert(""@.len() != "float"@.len());
        assert(""@.len() != "tile"@.len());
        assert("toggle"@.len() != "float"@.len());
        assert("toggle"@.len() != "tile"@.len());
        assert("float"@.len() != "tile"@.len());
    }

    /// Reading back what `to_string` writes gives the same value.
    pub proof fn lemma_from_str_to_string(x: GestureFloating)
        ensures
            Self::spec_from_str(x.spec_to_string()) == Ok::<Self, ()>(x),
    {
        reveal_strlit("");
        reveal_strlit("toggle");
        reveal_strlit("float");
        reveal_strlit("tile");
        lemma_plain_word(x.spec_to_string());
    }

}


} // verus!
