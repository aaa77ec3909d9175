//! Whether a group is locked, unlocked or toggled.
use vstd::prelude::*;
use crate::text::{eq_str, fold, lemma_plain_word, string_from, trim, trimmed_folded};

verus! {

#[derive(Debug, Clone, Copy, PartialEq, Eq, Hash)]
pub enum GroupLockAction {
    Lock,
    Unlock,
    Toggle,
}

impl Default for GroupLockAction {
    fn default() -> (r: Self)
        ensures
            r == GroupLockAction::Toggle,
    {
        GroupLockAction::Toggle
    }
}

impl GroupLockAction {
    /// What `from_str` gives for the text `s`: the keyword, compared after trimming and without regard to case.
    pub open spec fn spec_from_str(s: Seq<char>) -> Result<Self, ()> {
        let t = fold(trim(s));
        if t == "lock"@ {
            Ok(GroupLockAction::Lock)
        } else if t == "unlock"@ {
            Ok(GroupLockAction::Unlock)
        } else if t == "toggle"@ {
            Ok(GroupLockAction::Toggle)
        } else {
            Err(())
        }
    }

    /// The keyword that `to_string` writes.
    pub open spec fn spec_to_string(self) -> Seq<char> {
        match self {
            GroupLockAction::Lock => "lock"@,
            GroupLockAction::Unlock => "unlock"@,
            GroupLockAction::Toggle => "toggle"@,
        }
    }

    pub fn from_str(s: &str) -> (r: Result<Self, ()>)
        ensures
            r == Self::spec_from_str(s@),
    {
        let t = trimmed_folded(s);
        if eq_str(&t, "lock") {
            Ok(GroupLockAction::Lock)
        } else if eq_str(&t, "unlock") {
            Ok(GroupLockAction::Unlock)
        } else if eq_str(&t, "toggle") {
            Ok(GroupLockAction::Toggle)
        } else {
            Err(())
        }
    }

    pub fn to_string(&self) -> (r: String)
        ensures
            r@ == self.spec_to_string(),
    {
        match self {
            GroupLockAction::Lock => string_from("lock"),
            GroupLockAction::Unlock => string_from("unlock"),
            GroupLockAction::Toggle => string_from("toggle"),
        }
    }

    /// Each keyword, trimmed, in any ASCII case, reads as its own value, and nothing else
    /// reads as that value; a text that is no keyword is refused; each value
    /// is written as its keyword.
    pub proof fn lemma_keywords(s: Seq<char>)
        ensures
            Self::spec_from_str(s) == Ok::<Self, ()>(GroupLockAction::Lock) <==> (fold(trim(s)) == "lock"@),
            Self::spec_from_str(s) == Ok::<Self, ()>(GroupLockAction::Unlock) <==> (fold(trim(s)) == "unlock"@),
            Self::spec_from_str(s) == Ok::<Self, ()>(GroupLockAction::Toggle) <==> (fold(trim(s)) == "toggle"@),
            Self::spec_from_str(s) is Err <==> !(fold(trim(s)) == "lock"@ || fold(trim(s)) == "unlock"@ || fold(trim(s)) == "toggle"@),
            GroupLockAction::Lock.spec_to_string() == "lock"@,
            GroupLockAction::Unlock.spec_to_string() == "unlock"@,
            GroupLockAction::Toggle.spec_to_string() == "toggle"@,
    {
        reveal_strlit("lock");
        reveal_strlit("unlock");
        reveal_strlit("toggle");
        assert("lock"@.len() != "unlock"@.len());
        assert("lock"@.len() != "toggle"@.len());
        assert("unlock"@[0] != "toggle"@[0]);
    }

    /// Reading back what `to_string` writes gives the same value.
    pub proof fn lemma_from_str_to_string(x: GroupLockAction)
        ensures
            Self::spec_from_str(x.spec_to_string()) == Ok::<Self, ()>(x),
    {
        reveal_strlit("lock");
        reveal_strlit("unlock");
        reveal_strlit("toggle");
        lemma_plain_word(x.spec_to_string());
    }

}


} // verus!
