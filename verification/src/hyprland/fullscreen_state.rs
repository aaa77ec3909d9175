//! The fullscreen state of a window: windowed, maximized, fullscreen or both.
use vstd::prelude::*;
use crate::num::{decimal, lemma_decimal, lemma_decimal_trim, lemma_parse_decimal, parse_u8, parse_unsigned, push_decimal};
use crate::text::{fold, lemma_plain_word, trim, trimmed_folded};

verus! {

#[derive(Debug, Clone, Copy, PartialEq, Eq, Hash)]
pub enum FullscreenState {
    Windowed,
    Maximize,
    Fullscreen,
    MaximizeAndFullscreen,
}

impl Default for FullscreenState {
    fn default() -> (r: Self)
        ensures
            r == FullscreenState::Windowed,
    {
        FullscreenState::Windowed
    }
}

impl FullscreenState {
    /// The number that stands for the state.
    pub open spec fn spec_to_num(self) -> u8 {
        match self {
            FullscreenState::Windowed => 0,
            FullscreenState::Maximize => 1,
            FullscreenState::Fullscreen => 2,
            FullscreenState::MaximizeAndFullscreen => 3,
        }
    }

    /// The state that `num` stands for; any number above 3 means `Windowed`.
    pub open spec fn spec_from_num(num: u8) -> Self {
        if num == 1 {
            FullscreenState::Maximize
        } else if num == 2 {
            FullscreenState::Fullscreen
        } else if num == 3 {
            FullscreenState::MaximizeAndFullscreen
        } else {
            FullscreenState::Windowed
        }
    }

    /// What `from_str` gives: the trimmed, case-folded text read as a `u8` and
    /// mapped by `from_num`, or an error where it is no such number.
    pub open spec fn spec_from_str(s: Seq<char>) -> Result<Self, ()> {
        match parse_unsigned(fold(trim(s)), 10, 255) {
            Some(n) => Ok(Self::spec_from_num(n as u8)),
            None => Err(()),
        }
    }

    pub fn from_num(num: u8) -> (r: Self)
        ensures
            r == Self::spec_from_num(num),
    {
        match num {
            0 => FullscreenState::Windowed,
            1 => FullscreenState::Maximize,
            2 => FullscreenState::Fullscreen,
            3 => FullscreenState::MaximizeAndFullscreen,
            _ => FullscreenState::Windowed,
        }
    }

    pub fn to_num(self) -> (r: u8)
        ensures
            r == self.spec_to_num(),
    {
        match self {
            FullscreenState::Windowed => 0,
            FullscreenState::Maximize => 1,
            FullscreenState::Fullscreen => 2,
            FullscreenState::MaximizeAndFullscreen => 3,
        }
    }

    pub fn from_str(s: &str) -> (r: Result<Self, ()>)
        ensures
            r == Self::spec_from_str(s@),
    {
        let t = trimmed_folded(s);
        match parse_u8(&t) {
            Some(n) => Ok(Self::from_num(n)),
            None => Err(()),
        }
    }

    /// Writes the number of the state.
    pub fn to_string(&self) -> (r: String)
        ensures
            r@ == decimal(self.spec_to_num() as nat),
    {
        let mut r = String::new();
        push_decimal(&mut r, self.to_num() as u64);
        r
    }

    /// The numbers name the states: 0 windowed, 1 maximize, 2 fullscreen, 3
    /// both; any other number gives windowed. Reading gives the state of the
    /// number that the trimmed, lower-cased text holds, and refuses a text that
    /// is no number. Each state is written as its number.
    pub proof fn lemma_numbers(n: u8, s: Seq<char>)
        ensures
            Self::spec_from_num(n) == FullscreenState::Windowed <==> (n != 1 && n != 2 && n != 3 || n == 0),
            Self::spec_from_num(n) == FullscreenState::Maximize <==> n == 1,
            Self::spec_from_num(n) == FullscreenState::Fullscreen <==> n == 2,
            Self::spec_from_num(n) == FullscreenState::MaximizeAndFullscreen <==> n == 3,
            FullscreenState::Windowed.spec_to_num() == 0,
            FullscreenState::Maximize.spec_to_num() == 1,
            FullscreenState::Fullscreen.spec_to_num() == 2,
            FullscreenState::MaximizeAndFullscreen.spec_to_num() == 3,
            parse_unsigned(fold(trim(s)), 10, 255) == Some(n as nat) ==> Self::spec_from_str(s) == Ok::<Self, ()>(Self::spec_from_num(n)),
            Self::spec_from_str(s) is Err <==> parse_unsigned(fold(trim(s)), 10, 255) is None,
    {
    }

    /// Each state is found again from its number, and each number of a state
    /// is the number of the state found from it.
    pub proof fn lemma_from_num_to_num(x: FullscreenState, n: u8)
        ensures
            Self::spec_from_num(x.spec_to_num()) == x,
            n < 4 ==> Self::spec_from_num(n).spec_to_num() == n,
    {
    }

    /// Reading back what `to_string` writes gives the same state.
    pub proof fn lemma_from_str_to_string(x: FullscreenState)
        ensures
            Self::spec_from_str(decimal(x.spec_to_num() as nat)) == Ok::<Self, ()>(x),
    {
        let d = decimal(x.spec_to_num() as nat);
        lemma_decimal(x.spec_to_num() as nat);
        lemma_decimal_trim(x.spec_to_num() as nat);
        assert forall|i: int| 0 <= i < d.len() implies crate::text::is_plain(#[trigger] d[i]) by {
            assert(crate::num::digit_of(d[i], 10) is Some);
        }
        lemma_plain_word(d);
        lemma_parse_decimal(x.spec_to_num() as nat, 255);
    }
}

} // verus!
