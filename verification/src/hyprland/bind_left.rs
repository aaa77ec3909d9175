//! The keyword on the left of a key binding: `bind` with its flags, or `unbind`.
use vstd::prelude::*;
use super::bind_flags::BindFlags;
use crate::text::{eq_str, push_str, string_from, strip_prefix_str, trim, trim_chars, trimmed};

verus! {

#[derive(Debug, Clone, Copy, PartialEq, Eq)]
pub enum BindLeft {
    Bind(BindFlags),
    Unbind,
}

impl BindLeft {
    /// What `from_str` gives: after trimming, `bind` followed by flag letters,
    /// or exactly `unbind`; anything else is an error.
    pub open spec fn spec_from_str(s: Seq<char>) -> Result<Self, ()> {
        let t = trim(s);
        if t.len() >= 4 && t.subrange(0, 4) == "bind"@ {
            Ok(BindLeft::Bind(BindFlags::of_letters(trim(t.subrange(4, t.len() as int)))))
        } else if t == "unbind"@ {
            Ok(BindLeft::Unbind)
        } else {
            Err(())
        }
    }

    /// What `to_string` writes: `bind` and the letters of the flags, or `unbind`.
    pub open spec fn spec_to_string(self) -> Seq<char> {
        match self {
            BindLeft::Bind(flags) => "bind"@ + flags.spec_to_string(),
            BindLeft::Unbind => "unbind"@,
        }
    }

    pub fn from_str(s: &str) -> (r: Result<Self, ()>)
        ensures
            r == Self::spec_from_str(s@),
    {
        let t = trimmed(s);
        proof {
            reveal_strlit("bind");
        }
        match strip_prefix_str(&t, "bind") {
            Some(rest) => {
                let flags = trim_chars(&rest);
                Ok(BindLeft::Bind(BindFlags::from_letters(&flags)))
            },
            None => {
                if eq_str(&t, "unbind") {
                    Ok(BindLeft::Unbind)
                } else {
                    Err(())
                }
            },
        }
    }

    pub fn to_string(&self) -> (r: String)
        ensures
            r@ == self.spec_to_string(),
    {
        match self {
            BindLeft::Bind(flags) => {
                let mut r = string_from("bind");
                flags.push_letters(&mut r);
                r
            },
            BindLeft::Unbind => string_from("unbind"),
        }
    }

    /// A trimmed text that starts with `bind` reads as a binding whose flags
    /// are those that the rest of the text reads as; exactly `unbind` reads as
    /// unbinding; any other text is refused. A binding is written as `bind`
    /// followed by the letters of its flags, unbinding as `unbind`.
    pub proof fn lemma_keywords(s: Seq<char>, rest: Seq<char>, f: BindFlags)
        ensures
            trim(s) == "bind"@ + rest ==> Self::spec_from_str(s) == Ok::<Self, ()>(
                BindLeft::Bind(BindFlags::spec_from_str(rest)->Ok_0),
            ),
            trim(s) == "unbind"@ ==> Self::spec_from_str(s) == Ok::<Self, ()>(BindLeft::Unbind),
            Self::spec_from_str(s) is Err <==> !((trim(s).len() >= 4 && trim(s).subrange(0, 4) == "bind"@)
                || trim(s) == "unbind"@),
            BindLeft::Bind(f).spec_to_string() == "bind"@ + f.spec_to_string(),
            BindLeft::Unbind.spec_to_string() == "unbind"@,
    {
        reveal_strlit("bind");
        reveal_strlit("unbind");
        if trim(s) == "bind"@ + rest {
            assert(trim(s).subrange(0, 4) =~= "bind"@);
            assert(trim(s).subrange(4, trim(s).len() as int) =~= rest);
        }
        if trim(s) == "unbind"@ {
            assert(trim(s).subrange(0, 4)[0] != "bind"@[0]);
        }
    }


    /// Reading back what `to_string` writes gives the same binding keyword.
    pub proof fn lemma_from_str_to_string(x: BindLeft)
        ensures
            Self::spec_from_str(x.spec_to_string()) == Ok::<Self, ()>(x),
    {
        reveal_strlit("bind");
        reveal_strlit("unbind");
        match x {
            BindLeft::Bind(flags) => {
                let l = flags.spec_to_string();
                let s = "bind"@ + l;
                BindFlags::lemma_from_str_to_string(flags);
                BindFlags::lemma_letters_no_ws(flags);
                assert forall|m: int| 0 <= m < s.len() implies !crate::text::is_ws(#[trigger] s[m]) by {
                    if m >= 4 {
                        assert(s[m] == l[m - 4]);
                    }
                }
                crate::text::lemma_no_ws_trim(s);
                assert(s.subrange(0, 4) =~= "bind"@);
                assert(s.subrange(4, s.len() as int) =~= l);
            },
            BindLeft::Unbind => {
                crate::text::lemma_plain_word("unbind"@);
                assert("unbind"@.subrange(0, 4)[0] != "bind"@[0]);
            },
        }
    }
}

} // verus!
