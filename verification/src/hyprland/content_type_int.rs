//! The kind of content a window shows, written as its number.
use vstd::prelude::*;
use crate::num::{all_digits, decimal, digit_of, lemma_decimal_trim, lemma_parse_decimal, parse_u8, parse_unsigned, push_decimal};
use crate::text::{eq_str, trim, trimmed};

verus! {

#[derive(Debug, Clone, Copy, PartialEq, Eq, Hash)]
pub enum ContentTypeInt {
    NoContent,
    Photo,
    Video,
    Game,
}

impl Default for ContentTypeInt {
    fn default() -> (r: Self)
        ensures
            r == ContentTypeInt::NoContent,
    {
        ContentTypeInt::NoContent
    }
}

impl ContentTypeInt {
    /// The number that stands for the content type.
    pub open spec fn spec_to_u8(self) -> u8 {
        match self {
            ContentTypeInt::NoContent => 0,
            ContentTypeInt::Photo => 1,
            ContentTypeInt::Video => 2,
            ContentTypeInt::Game => 3,
        }
    }

    /// The name of the content type.
    pub open spec fn spec_keyword(self) -> Seq<char> {
        match self {
            ContentTypeInt::NoContent => "none"@,
            ContentTypeInt::Photo => "photo"@,
            ContentTypeInt::Video => "video"@,
            ContentTypeInt::Game => "game"@,
        }
    }

    /// The content type that the number `value` stands for, if any.
    pub open spec fn spec_try_from(value: u8) -> Result<Self, ()> {
        if value == 0 {
            Ok(ContentTypeInt::NoContent)
        } else if value == 1 {
            Ok(ContentTypeInt::Photo)
        } else if value == 2 {
            Ok(ContentTypeInt::Video)
        } else if value == 3 {
            Ok(ContentTypeInt::Game)
        } else {
            Err(())
        }
    }

    /// What `from_str` gives: the trimmed text read as the number of a content
    /// type, else as its name (case matters).
    pub open spec fn spec_from_str(s: Seq<char>) -> Result<Self, ()> {
        let t = trim(s);
        if t.len() == 0 {
            Err(())
        } else if parse_unsigned(t, 10, 255) is Some && Self::spec_try_from(
            parse_unsigned(t, 10, 255)->0 as u8,
        ) is Ok {
            Self::spec_try_from(parse_unsigned(t, 10, 255)->0 as u8)
        } else if t == "none"@ {
            Ok(ContentTypeInt::NoContent)
        } else if t == "photo"@ {
            Ok(ContentTypeInt::Photo)
        } else if t == "video"@ {
            Ok(ContentTypeInt::Video)
        } else if t == "game"@ {
            Ok(ContentTypeInt::Game)
        } else {
            Err(())
        }
    }

    pub fn try_from(value: u8) -> (r: Result<Self, ()>)
        ensures
            r == Self::spec_try_from(value),
    {
        match value {
            0 => Ok(ContentTypeInt::NoContent),
            1 => Ok(ContentTypeInt::Photo),
            2 => Ok(ContentTypeInt::Video),
            3 => Ok(ContentTypeInt::Game),
            _ => Err(()),
        }
    }

    pub fn from_str(s: &str) -> (r: Result<Self, ()>)
        ensures
            r == Self::spec_from_str(s@),
    {
        let t = trimmed(s);
        if t.len() == 0 {
            return Err(());
        }
        if let Some(n) = parse_u8(&t) {
            if let Ok(c) = Self::try_from(n) {
                return Ok(c);
            }
        }
        if eq_str(&t, "none") {
            Ok(ContentTypeInt::NoContent)
        } else if eq_str(&t, "photo") {
            Ok(ContentTypeInt::Photo)
        } else if eq_str(&t, "video") {
            Ok(ContentTypeInt::Video)
        } else if eq_str(&t, "game") {
            Ok(ContentTypeInt::Game)
        } else {
            Err(())
        }
    }
    /// Writes the number of the content type.
    pub fn to_string(&self) -> (r: String)
        ensures
            r@ == decimal(self.spec_to_u8() as nat),
    {
        let mut r = String::new();
        push_decimal(&mut r, u8::from(*self) as u64);
        r
    }

    /// The numbers name the content types: 0 none, 1 photo, 2 video, 3 game;
    /// other numbers are refused. Reading takes the trimmed text as a number
    /// 0 to 3, else as one of the names `none`, `photo`, `video`, `game` (case
    /// matters), and refuses anything else. Each content type is written as its number.
    pub proof fn lemma_numbers(n: u8, s: Seq<char>)
        ensures
            Self::spec_try_from(n) == Ok::<Self, ()>(ContentTypeInt::NoContent) <==> n == 0,
            Self::spec_try_from(n) == Ok::<Self, ()>(ContentTypeInt::Photo) <==> n == 1,
            Self::spec_try_from(n) == Ok::<Self, ()>(ContentTypeInt::Video) <==> n == 2,
            Self::spec_try_from(n) == Ok::<Self, ()>(ContentTypeInt::Game) <==> n == 3,
            Self::spec_try_from(n) is Err <==> n > 3,
            ContentTypeInt::NoContent.spec_to_u8() == 0,
            ContentTypeInt::Photo.spec_to_u8() == 1,
            ContentTypeInt::Video.spec_to_u8() == 2,
            ContentTypeInt::Game.spec_to_u8() == 3,
            parse_unsigned(trim(s), 10, 255) == Some(n as nat) && n <= 3 ==> Self::spec_from_str(s) == Self::spec_try_from(n),
            trim(s) == "none"@ ==> Self::spec_from_str(s) == Ok::<Self, ()>(ContentTypeInt::NoContent),
            trim(s) == "photo"@ ==> Self::spec_from_str(s) == Ok::<Self, ()>(ContentTypeInt::Photo),
            trim(s) == "video"@ ==> Self::spec_from_str(s) == Ok::<Self, ()>(ContentTypeInt::Video),
            trim(s) == "game"@ ==> Self::spec_from_str(s) == Ok::<Self, ()>(ContentTypeInt::Game),
            Self::spec_from_str(s) is Err <==> !(trim(s) == "none"@ || trim(s) == "photo"@ || trim(s) == "video"@ || trim(s) == "game"@ || (parse_unsigned(trim(s), 10, 255) matches Some(m) && m <= 3)),
            ContentTypeInt::NoContent.spec_keyword() == "none"@,
            ContentTypeInt::Photo.spec_keyword() == "photo"@,
            ContentTypeInt::Video.spec_keyword() == "video"@,
            ContentTypeInt::Game.spec_keyword() == "game"@,
    {
        reveal_strlit("none");
        assert(digit_of("none"@[0], 10) is None);
        assert(!all_digits("none"@, 10));
        assert("none"@[0] != '+');
        reveal_strlit("photo");
        assert(digit_of("photo"@[0], 10) is None);
        assert(!all_digits("photo"@, 10));
        assert("photo"@[0] != '+');
        reveal_strlit("video");
        assert(digit_of("video"@[0], 10) is None);
        assert(!all_digits("video"@, 10));
        assert("video"@[0] != '+');
        reveal_strlit("game");
        assert(digit_of("game"@[0], 10) is None);
        assert(!all_digits("game"@, 10));
        assert("game"@[0] != '+');
        assert("none"@.len() != "photo"@.len());
        assert("none"@.len() != "video"@.len());
        assert("none"@[0] != "game"@[0]);
        assert("photo"@[0] != "video"@[0]);
        assert("photo"@.len() != "game"@.len());
        assert("video"@.len() != "game"@.len());
    }

    /// Reading back what `to_string` writes gives the same content type.
    pub proof fn lemma_from_str_to_string(x: ContentTypeInt)
        ensures
            Self::spec_from_str(decimal(x.spec_to_u8() as nat)) == Ok::<Self, ()>(x),
    {
        lemma_decimal_trim(x.spec_to_u8() as nat);
        lemma_parse_decimal(x.spec_to_u8() as nat, 255);
        crate::num::lemma_decimal(x.spec_to_u8() as nat);
    }
    /// Every content type is read back from its number.
    pub proof fn lemma_try_from_to_u8(x: ContentTypeInt)
        ensures
            Self::spec_try_from(x.spec_to_u8()) == Ok::<Self, ()>(x),
    {
    }
}

impl From<ContentTypeInt> for u8 {
    fn from(value: ContentTypeInt) -> (r: u8) {
        match value {
            ContentTypeInt::NoContent => 0,
            ContentTypeInt::Photo => 1,
            ContentTypeInt::Video => 2,
            ContentTypeInt::Game => 3,
        }
    }
}

impl vstd::std_specs::convert::FromSpecImpl<ContentTypeInt> for u8 {
    open spec fn obeys_from_spec() -> bool {
        true
    }

    open spec fn from_spec(v: ContentTypeInt) -> u8 {
        v.spec_to_u8()
    }
}

} // verus!
