//! Whether the `fullscreenstate` dispatcher toggles or sets the state.
use vstd::prelude::*;
use crate::text::{eq_str, fold, lemma_plain_word, string_from, trim, trimmed_folded};

verus! {

#[derive(Debug, Clone, Copy, PartialEq, Eq)]
pub enum DispatcherFullscreenStateAction {
    Toggle,
    SetTo,
}

impl Default for DispatcherFullscreenStateAction {
    fn default() -> (r: Self)
        ensures
            r == DispatcherFullscreenStateAction::Toggle,
    {
        DispatcherFullscreenStateAction::Toggle
    }
}

impl DispatcherFullscreenStateAction {
    /// What `from_str` gives for the text `s`: the keyword, compared after trimming and without regard to case.
    pub open spec fn spec_from_str(s: Seq<char>) -> Result<Self, ()> {
        let t = fold(trim(s));
        if t == "toggle"@ {
            Ok(DispatcherFullscreenStateAction::Toggle)
        } else if t == "set"@ {
            Ok(DispatcherFullscreenStateAction::SetTo)
        } else {
            Err(())
        }
    }

    /// The keyword that `to_string` writes.
    pub open spec fn spec_to_string(self) -> Seq<char> {
        match self {
            DispatcherFullscreenStateAction::Toggle => "toggle"@,
            DispatcherFullscreenStateAction::SetTo => "set"@,
        }
    }

    pub fn from_str(s: &str) -> (r: Result<Self, ()>)
        ensures
            r == Self::spec_from_str(s@),
    {
        let t = trimmed_folded(s);
        if eq_str(&t, "toggle") {
            Ok(DispatcherFullscreenStateAction::Toggle)
        } else if eq_str(&t, "set") {
            Ok(DispatcherFullscreenStateAction::SetTo)
        } else {
            Err(())
        }
    }

    pub fn to_string(&self) -> (r: String)
        ensures
            r@ == self.spec_to_string(),
    {
        match self {
            DispatcherFullscreenStateAction::Toggle => string_from("toggle"),
            DispatcherFullscreenStateAction::SetTo => string_from("set"),
        }
    }

    /// Each keyword, trimmed, in any ASCII case, reads as its own value, and nothing else
    /// reads as that value; a text that is no keyword is refused; each value
    /// is written as its keyword.
    pub proof fn lemma_keywords(s: Seq<char>)
        ensures
            Self::spec_from_str(s) == Ok::<Self, ()>(DispatcherFullscreenStateAction::Toggle) <==> (fold(trim(s)) == "toggle"@),
            Self::spec_from_str(s) == Ok::<Self, ()>(DispatcherFullscreenStateAction::SetTo) <==> (fold(trim(s)) == "set"@),
            Self::spec_from_str(s) is Err <==> !(fold(trim(s)) == "toggle"@ || fold(trim(s)) == "set"@),
            DispatcherFullscreenStateAction::Toggle.spec_to_string() == "toggle"@,
            DispatcherFullscreenStateAction::SetTo.spec_to_string() == "set"@,
    {
        reveal_strlit("toggle");
        reveal_strlit("set");
        assert("toggle"@.len() != "set"@.len());
    }

    /// Reading back what `to_string` writes gives the same value.
    pub proof fn lemma_from_str_to_string(x: DispatcherFullscreenStateAction)
        ensures
            Self::spec_from_str(x.spec_to_string()) == Ok::<Self, ()>(x),
    {
        reveal_strlit("toggle");
        reveal_strlit("set");
        lemma_plain_word(x.spec_to_string());
    }

}


} // verus!
