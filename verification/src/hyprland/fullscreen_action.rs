//! Whether a fullscreen dispatcher toggles, sets or unsets its state.
use vstd::prelude::*;
use crate::text::{eq_str, fold, lemma_plain_word, string_from, trim, trimmed_folded};

verus! {

#[derive(Debug, Clone, Copy, PartialEq, Eq)]
pub enum FullscreenAction {
    Toggle,
    SetTo,
    Unset,
}

impl Default for FullscreenAction {
    fn default() -> (r: Self)
        ensures
            r == FullscreenAction::Toggle,
    {
        FullscreenAction::Toggle
    }
}

impl FullscreenAction {
    /// What `from_str` gives for the text `s`: the keyword, compared after trimming and without regard to case.
    pub open spec fn spec_from_str(s: Seq<char>) -> Result<Self, ()> {
        let t = fold(trim(s));
        if t == "toggle"@ {
            Ok(FullscreenAction::Toggle)
        } else if t == "set"@ {
            Ok(FullscreenAction::SetTo)
        } else if t == "unset"@ {
            Ok(FullscreenAction::Unset)
        } else {
            Err(())
        }
    }

    /// The keyword that `to_string` writes.
    pub open spec fn spec_to_string(self) -> Seq<char> {
        match self {
            FullscreenAction::Toggle => "toggle"@,
            FullscreenAction::SetTo => "set"@,
            FullscreenAction::Unset => "unset"@,
        }
    }

    pub fn from_str(s: &str) -> (r: Result<Self, ()>)
        ensures
            r == Self::spec_from_str(s@),
    {
        let t = trimmed_folded(s);
        if eq_str(&t, "toggle") {
            Ok(FullscreenAction::Toggle)
        } else if eq_str(&t, "set") {
            Ok(FullscreenAction::SetTo)
        } else if eq_str(&t, "unset") {
            Ok(FullscreenAction::Unset)
        } else {
            Err(())
        }
    }

    pub fn to_string(&self) -> (r: String)
        ensures
            r@ == self.spec_to_string(),
    {
        match self {
            FullscreenAction::Toggle => string_from("toggle"),
            FullscreenAction::SetTo => string_from("set"),
            FullscreenAction::Unset => string_from("unset"),
        }
    }

    /// Each keyword, trimmed, in any ASCII case, reads as its own value, and nothing else
    /// reads as that value; a text that is no keyword is refused; each value
    /// is written as its keyword.
    pub proof fn lemma_keywords(s: Seq<char>)
        ensures
            Self::spec_from_str(s) == Ok::<Self, ()>(FullscreenAction::Toggle) <==> (fold(trim(s)) == "toggle"@),
            Self::spec_from_str(s) == Ok::<Self, ()>(FullscreenAction::SetTo) <==> (fold(trim(s)) == "set"@),
            Self::spec_from_str(s) == Ok::<Self, ()>(FullscreenAction::Unset) <==> (fold(trim(s)) == "unset"@),
            Self::spec_from_str(s) is Err <==> !(fold(trim(s)) == "toggle"@ || fold(trim(s)) == "set"@ || fold(trim(s)) == "unset"@),
            FullscreenAction::Toggle.spec_to_string() == "toggle"@,
            FullscreenAction::SetTo.spec_to_string() == "set"@,
            FullscreenAction::Unset.spec_to_string() == "unset"@,
    {
        reveal_strlit("toggle");
        reveal_strlit("set");
        reveal_strlit("unset");
        assert("toggle"@.len() != "set"@.len());
        assert("toggle"@.len() != "unset"@.len());
        assert("set"@.len() != "unset"@.len());
    }

    /// Reading back what `to_string` writes gives the same value.
    pub proof fn lemma_from_str_to_string(x: FullscreenAction)
        ensures
            Self::spec_from_str(x.spec_to_string()) == Ok::<Self, ()>(x),
    {
        reveal_strlit("toggle");
        reveal_strlit("set");
        reveal_strlit("unset");
        lemma_plain_word(x.spec_to_string());
    }

}


} // verus!
