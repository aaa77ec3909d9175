//! Where a layer is drawn relative to the lock screen.
use vstd::prelude::*;
use crate::num::{decimal, lemma_decimal_trim, lemma_parse_decimal, parse_u8, parse_unsigned, push_decimal};
use crate::text::{trim, trimmed};

verus! {

#[derive(Debug, Clone, Copy, PartialEq, Eq, Hash)]
pub enum AboveLock {
    BelowLock,
    AboveLock,
    AboveLockInteractable,
}

impl Default for AboveLock {
    fn default() -> (r: Self)
        ensures
            r == AboveLock::BelowLock,
    {
        AboveLock::BelowLock
    }
}

impl AboveLock {
    /// The number that stands for the value in the configuration.
    pub open spec fn spec_to_u8(self) -> u8 {
        match self {
            AboveLock::BelowLock => 0,
            AboveLock::AboveLock => 1,
            AboveLock::AboveLockInteractable => 2,
        }
    }

    /// The value that the number `value` stands for, if any.
    pub open spec fn spec_try_from(value: u8) -> Result<Self, ()> {
        if value == 0 {
            Ok(AboveLock::BelowLock)
        } else if value == 1 {
            Ok(AboveLock::AboveLock)
        } else if value == 2 {
            Ok(AboveLock::AboveLockInteractable)
        } else {
            Err(())
        }
    }

    /// What `from_str` gives: the trimmed text read as a `u8`, then mapped by `try_from`.
    pub open spec fn spec_from_str(s: Seq<char>) -> Result<Self, ()> {
        let t = trim(s);
        if t.len() == 0 {
            Err(())
        } else {
            match parse_unsigned(t, 10, 255) {
                Some(n) => Self::spec_try_from(n as u8),
                None => Err(()),
            }
        }
    }

    pub fn try_from(value: u8) -> (r: Result<Self, ()>)
        ensures
            r == Self::spec_try_from(value),
    {
        match value {
            0 => Ok(AboveLock::BelowLock),
            1 => Ok(AboveLock::AboveLock),
            2 => Ok(AboveLock::AboveLockInteractable),
            _ => Err(()),
        }
    }

    pub fn from_str(s: &str) -> (r: Result<Self, ()>)
        ensures
            r == Self::spec_from_str(s@),
    {
        let t = trimmed(s);
        if t.len() == 0 {
            return Err(());
        }
        match parse_u8(&t) {
            Some(n) => Self::try_from(n),
            None => Err(()),
        }
    }

    /// Writes the number that stands for the value.
    pub fn to_string(&self) -> (r: String)
        ensures
            r@ == decimal(self.spec_to_u8() as nat),
    {
        let mut r = String::new();
        push_decimal(&mut r, u8::from(*self) as u64);
        r
    }

    /// The numbers name the layers: 0 below the lock, 1 above it, 2 above it
    /// and interactable; other numbers are refused. Reading gives the layer of
    /// the number that the trimmed text holds and refuses any other text. Each
    /// layer is written as its number.
    pub proof fn lemma_numbers(n: u8, s: Seq<char>)
        ensures
            Self::spec_try_from(n) == Ok::<Self, ()>(AboveLock::BelowLock) <==> n == 0,
            Self::spec_try_from(n) == Ok::<Self, ()>(AboveLock::AboveLock) <==> n == 1,
            Self::spec_try_from(n) == Ok::<Self, ()>(AboveLock::AboveLockInteractable) <==> n == 2,
            Self::spec_try_from(n) is Err <==> n > 2,
            AboveLock::BelowLock.spec_to_u8() == 0,
            AboveLock::AboveLock.spec_to_u8() == 1,
            AboveLock::AboveLockInteractable.spec_to_u8() == 2,
            parse_unsigned(trim(s), 10, 255) == Some(n as nat) ==> Self::spec_from_str(s) == Self::spec_try_from(n),
            parse_unsigned(trim(s), 10, 255) is None ==> Self::spec_from_str(s) is Err,
    {
    }

    /// Every value is read back from its number.
    pub proof fn lemma_try_from_to_u8(x: AboveLock)
        ensures
            Self::spec_try_from(x.spec_to_u8()) == Ok::<Self, ()>(x),
    {
    }

    /// Reading back what `to_string` writes gives the same value.
    pub proof fn lemma_from_str_to_string(x: AboveLock)
        ensures
            Self::spec_from_str(decimal(x.spec_to_u8() as nat)) == Ok::<Self, ()>(x),
    {
        lemma_decimal_trim(x.spec_to_u8() as nat);
        lemma_parse_decimal(x.spec_to_u8() as nat, 255);
    }
}

impl From<AboveLock> for u8 {
    fn from(value: AboveLock) -> (r: u8) {
        match value {
            AboveLock::BelowLock => 0,
            AboveLock::AboveLock => 1,
            AboveLock::AboveLockInteractable => 2,
        }
    }
}

impl vstd::std_specs::convert::FromSpecImpl<AboveLock> for u8 {
    open spec fn obeys_from_spec() -> bool {
        true
    }

    open spec fn from_spec(v: AboveLock) -> u8 {
        v.spec_to_u8()
    }
}

} // verus!
