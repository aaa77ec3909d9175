//! What the `fullscreen` gesture action does; the empty text means fullscreen.
use vstd::prelude::*;
use crate::text::{eq_str, fold, lemma_plain_word, string_from, trim, trimmed_folded};

verus! {

#[derive(Debug, Clone, Copy, PartialEq, Eq, Hash)]
pub enum GestureFullscreen {
    Fullscreen,
    Maximize,
}

impl Default for GestureFullscreen {
    fn default() -> (r: Self)
        ensures
            r == GestureFullscreen::Fullscreen,
    {
        GestureFullscreen::Fullscreen
    }
}

impl GestureFullscreen {
    /// What `from_str` gives for the text `s`: the keyword, compared after trimming and without regard to case.
    pub open spec fn spec_from_str(s: Seq<char>) -> Result<Self, ()> {
        let t = fold(trim(s));
        if t == ""@ || t == "fullscreen"@ {
            Ok(GestureFullscreen::Fullscreen)
        } else if t == "maximize"@ {
            Ok(GestureFullscreen::Maximize)
        } else {
            Err(())
        }
    }

    /// The keyword that `to_string` writes.
    pub open spec fn spec_to_string(self) -> Seq<char> {
        match self {
            GestureFullscreen::Fullscreen => ""@,
            GestureFullscreen::Maximize => "maximize"@,
        }
    }

    pub fn from_str(s: &str) -> (r: Result<Self, ()>)
        ensures
            r == Self::spec_from_str(s@),
    {
        let t = trimmed_folded(s);
        if eq_str(&t, "") || eq_str(&t, "fullscreen") {
            Ok(GestureFullscreen::Fullscreen)
        } else if eq_str(&t, "maximize") {
            Ok(GestureFullscreen::Maximize)
        } else {
            Err(())
        }
    }

    pub fn to_string(&self) -> (r: String)
        ensures
            r@ == self.spec_to_string(),
    {
        match self {
            GestureFullscreen::Fullscreen => string_from(""),
            GestureFullscreen::Maximize => string_from("maximize"),
        }
    }

    /// Each keyword, trimmed, in any ASCII case, reads as its own value, and nothing else
    /// reads as that value; a text that is no keyword is refused; each value
    /// is written as its keyword.
    pub proof fn lemma_keywords(s: Seq<char>)
        ensures
            Self::spec_from_str(s) == Ok::<Self, ()>(GestureFullscreen::Fullscreen) <==> (fold(trim(s)) == ""@ || fold(trim(s)) == "fullscreen"@),
            Self::spec_from_str(s) == Ok::<Self, ()>(GestureFullscreen::Maximize) <==> (fold(trim(s)) == "maximize"@),
            Self::spec_from_str(s) is Err <==> !(fold(trim(s)) == ""@ || fold(trim(s)) == "fullscreen"@ || fold(trim(s)) == "maximize"@),
            GestureFullscreen::Fullscreen.spec_to_string() == ""@,
            GestureFullscreen::Maximize.spec_to_string() == "maximize"@,
    {
        reveal_strlit("");
        reveal_strlit("fullscreen");
        reveal_strlit("maximize");
        assert(""@.len() != "fullscreen"@.len());
        assert(""@.len() != "maximize"@.len());
        assert("fullscreen"@.len() != "maximize"@.len());
    }

    /// Reading back what `to_string` writes gives the same value.
    pub proof fn lemma_from_str_to_string(x: GestureFullscreen)
        ensures
            Self::spec_from_str(x.spec_to_string()) == Ok::<Self, ()>(x),
    {
        reveal_strlit("");
        reveal_strlit("fullscreen");
        reveal_strlit("maximize");
        lemma_plain_word(x.spec_to_string());
    }

}


} // verus!
