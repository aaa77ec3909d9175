//! The tiling layout of the workspaces.
use vstd::prelude::*;
use crate::text::{eq_str, lemma_plain_word, push_str, string_from, trim, trimmed};

verus! {

#[derive(Debug, Clone, Copy, PartialEq, Eq)]
pub enum HyprLayout {
    Dwindle,
    Master,
    Scrolling,
    Monocle,
}

impl Default for HyprLayout {
    fn default() -> (r: Self)
        ensures
            r == HyprLayout::Dwindle,
    {
        HyprLayout::Dwindle
    }
}

impl HyprLayout {
    /// What `from_str` gives for `s`: the layout whose name is `s` trimmed
    /// (case matters), else an error that quotes `s` as it was given.
    pub open spec fn spec_from_str(s: Seq<char>) -> Result<Self, Seq<char>> {
        let t = trim(s);
        if t == "dwindle"@ {
            Ok(HyprLayout::Dwindle)
        } else if t == "master"@ {
            Ok(HyprLayout::Master)
        } else if t == "scrolling"@ {
            Ok(HyprLayout::Scrolling)
        } else if t == "monocle"@ {
            Ok(HyprLayout::Monocle)
        } else {
            Err("Invalid orientation: "@ + s)
        }
    }

    /// The name that `to_string` writes.
    pub open spec fn spec_to_string(self) -> Seq<char> {
        match self {
            HyprLayout::Dwindle => "dwindle"@,
            HyprLayout::Master => "master"@,
            HyprLayout::Scrolling => "scrolling"@,
            HyprLayout::Monocle => "monocle"@,
        }
    }

    pub fn from_str(s: &str) -> (r: Result<Self, String>)
        ensures
            r matches Ok(l) ==> Self::spec_from_str(s@) == Ok::<Self, Seq<char>>(l),
            r matches Err(e) ==> Self::spec_from_str(s@) == Err::<Self, Seq<char>>(e@),
    {
        let t = trimmed(s);
        if eq_str(&t, "dwindle") {
            Ok(HyprLayout::Dwindle)
        } else if eq_str(&t, "master") {
            Ok(HyprLayout::Master)
        } else if eq_str(&t, "scrolling") {
            Ok(HyprLayout::Scrolling)
        } else if eq_str(&t, "monocle") {
            Ok(HyprLayout::Monocle)
        } else {
            let mut e = string_from("Invalid orientation: ");
            push_str(&mut e, s);
            Err(e)
        }
    }

    pub fn to_string(&self) -> (r: String)
        ensures
            r@ == self.spec_to_string(),
    {
        match self {
            HyprLayout::Dwindle => string_from("dwindle"),
            HyprLayout::Master => string_from("master"),
            HyprLayout::Scrolling => string_from("scrolling"),
            HyprLayout::Monocle => string_from("monocle"),
        }
    }

    /// Each keyword, trimmed reads as its own value, and nothing else
    /// reads as that value; a text that is no keyword is refused; each value
    /// is written as its keyword.
    pub proof fn lemma_keywords(s: Seq<char>)
        ensures
            Self::spec_from_str(s) == Ok::<Self, Seq<char>>(HyprLayout::Dwindle) <==> (trim(s) == "dwindle"@),
            Self::spec_from_str(s) == Ok::<Self, Seq<char>>(HyprLayout::Master) <==> (trim(s) == "master"@),
            Self::spec_from_str(s) == Ok::<Self, Seq<char>>(HyprLayout::Scrolling) <==> (trim(s) == "scrolling"@),
            Self::spec_from_str(s) == Ok::<Self, Seq<char>>(HyprLayout::Monocle) <==> (trim(s) == "monocle"@),
            Self::spec_from_str(s) is Err <==> !(trim(s) == "dwindle"@ || trim(s) == "master"@ || trim(s) == "scrolling"@ || trim(s) == "monocle"@),
            HyprLayout::Dwindle.spec_to_string() == "dwindle"@,
            HyprLayout::Master.spec_to_string() == "master"@,
            HyprLayout::Scrolling.spec_to_string() == "scrolling"@,
            HyprLayout::Monocle.spec_to_string() == "monocle"@,
    {
        reveal_strlit("dwindle");
        reveal_strlit("master");
        reveal_strlit("scrolling");
        reveal_strlit("monocle");
        assert("dwindle"@.len() != "master"@.len());
        assert("dwindle"@.len() != "scrolling"@.len());
        assert("dwindle"@[0] != "monocle"@[0]);
        assert("master"@.len() != "scrolling"@.len());
        assert("master"@.len() != "monocle"@.len());
        assert("scrolling"@.len() != "monocle"@.len());
    }

    /// Reading back what `to_string` writes gives the same layout.
    pub proof fn lemma_from_str_to_string(x: HyprLayout)
        ensures
            Self::spec_from_str(x.spec_to_string()) == Ok::<Self, Seq<char>>(x),
    {
        reveal_strlit("dwindle");
        reveal_strlit("master");
        reveal_strlit("scrolling");
        reveal_strlit("monocle");
        lemma_plain_word(x.spec_to_string());
    }
}

} // verus!
