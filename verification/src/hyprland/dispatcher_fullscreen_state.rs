//! The internal and client fullscreen states that the `fullscreenstate`
//! dispatcher sets; -1 keeps the current state.
use vstd::prelude::*;
use crate::num::{decimal_i8, lemma_decimal, lemma_parse_decimal_i8, parse_i8, parse_i8_exec, push_decimal_i8};
use crate::text::{trim, trimmed};

verus! {

#[derive(Debug, Clone, Copy, PartialEq, Eq, Hash)]
pub enum DispatcherFullscreenState {
    Current,
    Windowed,
    Maximize,
    Fullscreen,
    MaximizeAndFullscreen,
}

impl Default for DispatcherFullscreenState {
    fn default() -> (r: Self)
        ensures
            r == DispatcherFullscreenState::Windowed,
    {
        DispatcherFullscreenState::Windowed
    }
}

impl DispatcherFullscreenState {
    /// The number that stands for the state.
    pub open spec fn spec_to_num(self) -> i8 {
        match self {
            DispatcherFullscreenState::Current => -1i8,
            DispatcherFullscreenState::Windowed => 0,
            DispatcherFullscreenState::Maximize => 1,
            DispatcherFullscreenState::Fullscreen => 2,
            DispatcherFullscreenState::MaximizeAndFullscreen => 3,
        }
    }

    /// The state that `num` stands for; any number outside `-1..=3` means `Current`.
    pub open spec fn spec_from_num(num: i8) -> Self {
        if num == 0 {
            DispatcherFullscreenState::Windowed
        } else if num == 1 {
            DispatcherFullscreenState::Maximize
        } else if num == 2 {
            DispatcherFullscreenState::Fullscreen
        } else if num == 3 {
            DispatcherFullscreenState::MaximizeAndFullscreen
        } else {
            DispatcherFullscreenState::Current
        }
    }

    /// What `from_str` gives: the trimmed text read as an `i8`, or -1 where it
    /// is none, mapped by `from_num`; it never fails.
    pub open spec fn spec_from_str(s: Seq<char>) -> Result<Self, ()> {
        Ok(
            Self::spec_from_num(
                match parse_i8(trim(s)) {
                    Some(n) => n as i8,
                    None => -1i8,
                },
            ),
        )
    }

    pub fn from_num(num: i8) -> (r: Self)
        ensures
            r == Self::spec_from_num(num),
    {
        match num {
            -1 => DispatcherFullscreenState::Current,
            0 => DispatcherFullscreenState::Windowed,
            1 => DispatcherFullscreenState::Maximize,
            2 => DispatcherFullscreenState::Fullscreen,
            3 => DispatcherFullscreenState::MaximizeAndFullscreen,
            _ => DispatcherFullscreenState::Current,
        }
    }

    pub fn to_num(self) -> (r: i8)
        ensures
            r == self.spec_to_num(),
    {
        match self {
            DispatcherFullscreenState::Current => -1i8,
            DispatcherFullscreenState::Windowed => 0,
            DispatcherFullscreenState::Maximize => 1,
            DispatcherFullscreenState::Fullscreen => 2,
            DispatcherFullscreenState::MaximizeAndFullscreen => 3,
        }
    }

    pub fn from_str(s: &str) -> (r: Result<Self, ()>)
        ensures
            r == Self::spec_from_str(s@),
    {
        let t = trimmed(s);
        let n: i8 = match parse_i8_exec(&t) {
            Some(n) => n,
            None => -1,
        };
        Ok(Self::from_num(n))
    }

    /// Writes the number of the state.
    pub fn to_string(&self) -> (r: String)
        ensures
            r@ == decimal_i8(self.spec_to_num() as int),
    {
        let mut r = String::new();
        push_decimal_i8(&mut r, self.to_num());
        r
    }

    /// The numbers name the states: -1 current, 0 windowed, 1 maximize, 2
    /// fullscreen, 3 both; any other number gives current. Reading gives the
    /// state of the number that the trimmed text holds, and current for a text
    /// that is no number. Each state is written as its number.
    pub proof fn lemma_numbers(n: i8, s: Seq<char>)
        ensures
            Self::spec_from_num(n) == DispatcherFullscreenState::Current <==> (n != 0 && n != 1 && n != 2 && n != 3 || n == -1),
            Self::spec_from_num(n) == DispatcherFullscreenState::Windowed <==> n == 0,
            Self::spec_from_num(n) == DispatcherFullscreenState::Maximize <==> n == 1,
            Self::spec_from_num(n) == DispatcherFullscreenState::Fullscreen <==> n == 2,
            Self::spec_from_num(n) == DispatcherFullscreenState::MaximizeAndFullscreen <==> n == 3,
            DispatcherFullscreenState::Current.spec_to_num() == -1,
            DispatcherFullscreenState::Windowed.spec_to_num() == 0,
            DispatcherFullscreenState::Maximize.spec_to_num() == 1,
            DispatcherFullscreenState::Fullscreen.spec_to_num() == 2,
            DispatcherFullscreenState::MaximizeAndFullscreen.spec_to_num() == 3,
            parse_i8(trim(s)) == Some(n as int) ==> Self::spec_from_str(s) == Ok::<Self, ()>(Self::spec_from_num(n)),
            parse_i8(trim(s)) is None ==> Self::spec_from_str(s) == Ok::<Self, ()>(DispatcherFullscreenState::Current),
    {
    }

    /// Each state is found again from its number, and each number of a state
    /// is the number of the state found from it.
    pub proof fn lemma_from_num_to_num(x: DispatcherFullscreenState, n: i8)
        ensures
            Self::spec_from_num(x.spec_to_num()) == x,
            -1 <= n <= 3 ==> Self::spec_from_num(n).spec_to_num() == n,
    {
    }

    /// Reading back what `to_string` writes gives the same state.
    pub proof fn lemma_from_str_to_string(x: DispatcherFullscreenState)
        ensures
            Self::spec_from_str(decimal_i8(x.spec_to_num() as int)) == Ok::<Self, ()>(x),
    {
        let n = x.spec_to_num() as int;
        lemma_parse_decimal_i8(n);
        let s = decimal_i8(n);
        if n < 0 {
            lemma_decimal((0 - n) as nat);
            assert(s[0] == '-');
            assert forall|i: int| 0 <= i < s.len() implies !crate::text::is_ws(#[trigger] s[i]) by {
                if i > 0 {
                    assert(s[i] == crate::num::decimal((0 - n) as nat)[i - 1]);
                    assert(crate::num::digit_of(s[i], 10) is Some);
                }
            }
            crate::text::lemma_no_ws_trim(s);
        } else {
            crate::num::lemma_decimal_trim(n as nat);
        }
    }
}

} // verus!
