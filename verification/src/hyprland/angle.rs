//! An angle in whole degrees, written like `45deg`.
use vstd::prelude::*;
use crate::num::{u16_or_zero, decimal, lemma_decimal, lemma_parse_decimal, parse_u16, parse_unsigned, push_decimal};
use crate::text::{push_str, strip_suffix_str, trim, trimmed};

verus! {

#[derive(Debug, Clone, Copy, PartialEq, Eq)]
pub enum Angle {
    Degrees(u16),
}

impl Default for Angle {
    fn default() -> (r: Self)
        ensures
            r == Angle::Degrees(0),
    {
        Angle::Degrees(0)
    }
}

impl Angle {
    /// What `from_str` gives: the trimmed text must end with `deg`; what
    /// comes before it is read as a `u16`, 0 where it is none.
    pub open spec fn spec_from_str(s: Seq<char>) -> Result<Self, ()> {
        let t = trim(s);
        if t.len() == 0 {
            Err(())
        } else if t.len() >= 3 && t.subrange(t.len() - 3, t.len() as int) == "deg"@ {
            Ok(Angle::Degrees(u16_or_zero(t.subrange(0, t.len() - 3))))
        } else {
            Err(())
        }
    }

    /// What `to_string` writes: the degrees followed by `deg`.
    pub open spec fn spec_to_string(self) -> Seq<char> {
        match self {
            Angle::Degrees(d) => decimal(d as nat) + "deg"@,
        }
    }

    pub fn from_str(s: &str) -> (r: Result<Self, ()>)
        ensures
            r == Self::spec_from_str(s@),
    {
        let t = trimmed(s);
        if t.len() == 0 {
            return Err(());
        }
        proof {
            reveal_strlit("deg");
        }
        match strip_suffix_str(&t, "deg") {
            Some(body) => {
                let d: u16 = match parse_u16(&body) {
                    Some(n) => n,
                    None => 0,
                };
                Ok(Angle::Degrees(d))
            },
            None => Err(()),
        }
    }

    pub fn to_string(&self) -> (r: String)
        ensures
            r@ == self.spec_to_string(),
    {
        match self {
            Angle::Degrees(d) => {
                let mut r = String::new();
                push_decimal(&mut r, *d as u64);
                push_str(&mut r, "deg");
                proof {
                    assert(Seq::<char>::empty() + decimal(*d as nat) + "deg"@ =~= self.spec_to_string());
                }
                r
            },
        }
    }

    /// A trimmed text that ends in `deg` reads as the angle of the number
    /// before `deg` (0 where that is no `u16`); any other text is refused. An
    /// angle is written as its number followed by `deg`.
    pub proof fn lemma_degrees(s: Seq<char>, body: Seq<char>, n: u16)
        ensures
            trim(s) == body + "deg"@ && parse_unsigned(body, 10, 65535) == Some(n as nat) ==> Self::spec_from_str(s)
                == Ok::<Self, ()>(Angle::Degrees(n)),
            trim(s) == body + "deg"@ && parse_unsigned(body, 10, 65535) is None ==> Self::spec_from_str(s) == Ok::<
                Self,
                (),
            >(Angle::Degrees(0)),
            Self::spec_from_str(s) is Err <==> !(trim(s).len() >= 3 && trim(s).subrange(
                trim(s).len() - 3,
                trim(s).len() as int,
            ) == "deg"@),
            Angle::Degrees(n).spec_to_string() == decimal(n as nat) + "deg"@,
    {
        reveal_strlit("deg");
        if trim(s) == body + "deg"@ {
            let t = trim(s);
            assert(t.subrange(t.len() - 3, t.len() as int) =~= "deg"@);
            assert(t.subrange(0, t.len() - 3) =~= body);
        }
    }


    /// Reading back what `to_string` writes gives the same angle.
    pub proof fn lemma_from_str_to_string(x: Angle)
        ensures
            Self::spec_from_str(x.spec_to_string()) == Ok::<Self, ()>(x),
    {
        reveal_strlit("deg");
        match x {
            Angle::Degrees(d) => {
                let n = decimal(d as nat);
                let s = n + "deg"@;
                lemma_decimal(d as nat);
                lemma_parse_decimal(d as nat, 65535);
                assert forall|m: int| 0 <= m < s.len() implies !crate::text::is_ws(#[trigger] s[m]) by {
                    if m < n.len() {
                        assert(s[m] == n[m]);
                        assert(crate::num::digit_of(n[m], 10) is Some);
                    }
                }
                crate::text::lemma_no_ws_trim(s);
                assert(s.subrange(s.len() - 3, s.len() as int) =~= "deg"@);
                assert(s.subrange(0, s.len() - 3) =~= n);
            },
        }
    }
}

} // verus!
