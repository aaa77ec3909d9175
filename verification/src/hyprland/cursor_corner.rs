//! The corner of a window that the cursor is moved to.
use vstd::prelude::*;
use crate::num::{decimal, lemma_parse_decimal, parse_u8, parse_unsigned, push_decimal};
use crate::text::chars_of;

verus! {

#[derive(Debug, Clone, Copy, PartialEq, Eq, Hash)]
pub enum CursorCorner {
    TopLeft,
    TopRight,
    BottomLeft,
    BottomRight,
}

impl Default for CursorCorner {
    fn default() -> (r: Self)
        ensures
            r == CursorCorner::TopLeft,
    {
        CursorCorner::TopLeft
    }
}

impl CursorCorner {
    /// The number that stands for the corner.
    pub open spec fn spec_to_num(self) -> u8 {
        match self {
            CursorCorner::TopLeft => 0,
            CursorCorner::TopRight => 1,
            CursorCorner::BottomLeft => 2,
            CursorCorner::BottomRight => 3,
        }
    }

    /// The corner that `num` stands for; any number above 3 means the top left corner.
    pub open spec fn spec_from_num(num: u8) -> Self {
        if num == 1 {
            CursorCorner::TopRight
        } else if num == 2 {
            CursorCorner::BottomLeft
        } else if num == 3 {
            CursorCorner::BottomRight
        } else {
            CursorCorner::TopLeft
        }
    }

    /// What `from_str` gives: the text (untrimmed) read as a `u8`, or 0 where
    /// it is none, mapped by `from_num`; it never fails.
    pub open spec fn spec_from_str(s: Seq<char>) -> Result<Self, ()> {
        Ok(
            Self::spec_from_num(
                match parse_unsigned(s, 10, 255) {
                    Some(n) => n as u8,
                    None => 0,
                },
            ),
        )
    }

    pub fn to_num(self) -> (r: u8)
        ensures
            r == self.spec_to_num(),
    {
        match self {
            CursorCorner::TopLeft => 0,
            CursorCorner::TopRight => 1,
            CursorCorner::BottomLeft => 2,
            CursorCorner::BottomRight => 3,
        }
    }

    pub fn from_num(num: u8) -> (r: Self)
        ensures
            r == Self::spec_from_num(num),
    {
        match num {
            0 => CursorCorner::TopLeft,
            1 => CursorCorner::TopRight,
            2 => CursorCorner::BottomLeft,
            3 => CursorCorner::BottomRight,
            _ => CursorCorner::TopLeft,
        }
    }

    pub fn from_str(s: &str) -> (r: Result<Self, ()>)
        ensures
            r == Self::spec_from_str(s@),
    {
        let v = chars_of(s);
        let n = match parse_u8(&v) {
            Some(n) => n,
            None => 0,
        };
        Ok(Self::from_num(n))
    }

    /// Writes the number of the corner.
    pub fn to_string(&self) -> (r: String)
        ensures
            r@ == decimal(self.spec_to_num() as nat),
    {
        let mut r = String::new();
        push_decimal(&mut r, self.to_num() as u64);
        r
    }

    /// The numbers name the corners: 0 top left, 1 top right, 2 bottom left,
    /// 3 bottom right; any other number gives top left. Reading (the text as it
    /// is, not trimmed) gives the corner of the number it holds, and top left for
    /// a text that is no number. Each corner is written as its number.
    pub proof fn lemma_numbers(n: u8, s: Seq<char>)
        ensures
            Self::spec_from_num(n) == CursorCorner::TopLeft <==> (n != 1 && n != 2 && n != 3 || n == 0),
            Self::spec_from_num(n) == CursorCorner::TopRight <==> n == 1,
            Self::spec_from_num(n) == CursorCorner::BottomLeft <==> n == 2,
            Self::spec_from_num(n) == CursorCorner::BottomRight <==> n == 3,
            CursorCorner::TopLeft.spec_to_num() == 0,
            CursorCorner::TopRight.spec_to_num() == 1,
            CursorCorner::BottomLeft.spec_to_num() == 2,
            CursorCorner::BottomRight.spec_to_num() == 3,
            parse_unsigned(s, 10, 255) == Some(n as nat) ==> Self::spec_from_str(s) == Ok::<Self, ()>(Self::spec_from_num(n)),
            parse_unsigned(s, 10, 255) is None ==> Self::spec_from_str(s) == Ok::<Self, ()>(CursorCorner::TopLeft),
    {
    }

    /// Each corner is found again from its number, and each number of a
    /// corner is the number of the corner found from it.
    pub proof fn lemma_from_num_to_num(x: CursorCorner, n: u8)
        ensures
            Self::spec_from_num(x.spec_to_num()) == x,
            n < 4 ==> Self::spec_from_num(n).spec_to_num() == n,
    {
    }

    /// Reading back what `to_string` writes gives the same corner.
    pub proof fn lemma_from_str_to_string(x: CursorCorner)
        ensures
            Self::spec_from_str(decimal(x.spec_to_num() as nat)) == Ok::<Self, ()>(x),
    {
        lemma_parse_decimal(x.spec_to_num() as nat, 255);
    }
}

} // verus!
