//! The mode of the `fullscreen` dispatcher: real fullscreen or maximize.
use vstd::prelude::*;
use crate::num::{decimal, lemma_decimal_trim, lemma_parse_decimal, parse_u8, parse_unsigned, push_decimal};
use crate::text::{trim, trimmed};

verus! {

#[derive(Debug, Clone, Copy, PartialEq, Eq)]
pub enum FullscreenMode {
    Fullscreen,
    Maximize,
}

impl Default for FullscreenMode {
    fn default() -> (r: Self)
        ensures
            r == FullscreenMode::Fullscreen,
    {
        FullscreenMode::Fullscreen
    }
}

impl FullscreenMode {
    /// The number that stands for the mode.
    pub open spec fn spec_to_num(self) -> u8 {
        match self {
            FullscreenMode::Fullscreen => 0,
            FullscreenMode::Maximize => 1,
        }
    }

    /// The mode that `num` stands for; any number other than 1 means `Fullscreen`.
    pub open spec fn spec_from_num(num: u8) -> Self {
        if num == 1 {
            FullscreenMode::Maximize
        } else {
            FullscreenMode::Fullscreen
        }
    }

    /// What `from_str` gives: the trimmed text read as a `u8` and mapped by
    /// `from_num`, or an error where it is empty or no such number.
    pub open spec fn spec_from_str(s: Seq<char>) -> Result<Self, ()> {
        let t = trim(s);
        if t.len() == 0 {
            Err(())
        } else {
            match parse_unsigned(t, 10, 255) {
                Some(n) => Ok(Self::spec_from_num(n as u8)),
                None => Err(()),
            }
        }
    }

    pub fn from_num(num: u8) -> (r: Self)
        ensures
            r == Self::spec_from_num(num),
    {
        match num {
            0 => FullscreenMode::Fullscreen,
            1 => FullscreenMode::Maximize,
            _ => FullscreenMode::Fullscreen,
        }
    }

    pub fn to_num(self) -> (r: u8)
        ensures
            r == self.spec_to_num(),
    {
        match self {
            FullscreenMode::Fullscreen => 0,
            FullscreenMode::Maximize => 1,
        }
    }

    pub fn from_str(s: &str) -> (r: Result<Self, ()>)
        ensures
            r == Self::spec_from_str(s@),
    {
        let t = trimmed(s);
        if t.len() == 0 {
            return Err(());
        }
        match parse_u8(&t) {
            Some(n) => Ok(Self::from_num(n)),
            None => Err(()),
        }
    }

    /// Writes the number of the mode.
    pub fn to_string(&self) -> (r: String)
        ensures
            r@ == decimal(self.spec_to_num() as nat),
    {
        let mut r = String::new();
        push_decimal(&mut r, self.to_num() as u64);
        r
    }

    /// The numbers name the modes: 0 fullscreen, 1 maximize; any other number
    /// gives fullscreen. Reading gives the mode of the number that the trimmed
    /// text holds, and refuses a text that is no number. Each mode is written as
    /// its number.
    pub proof fn lemma_numbers(n: u8, s: Seq<char>)
        ensures
            Self::spec_from_num(n) == FullscreenMode::Fullscreen <==> (n != 1 || n == 0),
            Self::spec_from_num(n) == FullscreenMode::Maximize <==> n == 1,
            FullscreenMode::Fullscreen.spec_to_num() == 0,
            FullscreenMode::Maximize.spec_to_num() == 1,
            parse_unsigned(trim(s), 10, 255) == Some(n as nat) ==> Self::spec_from_str(s) == Ok::<Self, ()>(Self::spec_from_num(n)),
            Self::spec_from_str(s) is Err <==> parse_unsigned(trim(s), 10, 255) is None,
    {
        if trim(s).len() == 0 {
            assert(parse_unsigned(trim(s), 10, 255) is None);
        }
    }

    /// Each mode is found again from its number, and each number of a mode is
    /// the number of the mode found from it.
    pub proof fn lemma_from_num_to_num(x: FullscreenMode, n: u8)
        ensures
            Self::spec_from_num(x.spec_to_num()) == x,
            n < 2 ==> Self::spec_from_num(n).spec_to_num() == n,
    {
    }

    /// Reading back what `to_string` writes gives the same mode.
    pub proof fn lemma_from_str_to_string(x: FullscreenMode)
        ensures
            Self::spec_from_str(decimal(x.spec_to_num() as nat)) == Ok::<Self, ()>(x),
    {
        lemma_decimal_trim(x.spec_to_num() as nat);
        lemma_parse_decimal(x.spec_to_num() as nat, 255);
    }
}

} // verus!
