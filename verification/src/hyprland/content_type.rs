//! The kind of content a window shows, written by name.
use vstd::prelude::*;
use crate::num::{all_digits, decimal, digit_of, lemma_decimal_trim, lemma_parse_decimal, parse_u8, parse_unsigned};
use crate::text::{eq_str, lemma_plain_word, string_from, trim, trimmed};

verus! {

#[derive(Debug, Clone, Copy, PartialEq, Eq, Hash)]
pub enum ContentType {
    NoContent,
    Photo,
    Video,
    Game,
}

impl Default for ContentType {
    fn default() -> (r: Self)
        ensures
            r == ContentType::NoContent,
    {
        ContentType::NoContent
    }
}

impl ContentType {
    /// The number that stands for the content type.
    pub open spec fn spec_to_u8(self) -> u8 {
        match self {
            ContentType::NoContent => 0,
            ContentType::Photo => 1,
            ContentType::Video => 2,
            ContentType::Game => 3,
        }
    }

    /// The name of the content type.
    pub open spec fn spec_keyword(self) -> Seq<char> {
        match self {
            ContentType::NoContent => "none"@,
            ContentType::Photo => "photo"@,
            ContentType::Video => "video"@,
            ContentType::Game => "game"@,
        }
    }

    /// The content type that the number `value` stands for, if any.
    pub open spec fn spec_try_from(value: u8) -> Result<Self, ()> {
        if value == 0 {
            Ok(ContentType::NoContent)
        } else if value == 1 {
            Ok(ContentType::Photo)
        } else if value == 2 {
            Ok(ContentType::Video)
        } else if value == 3 {
            Ok(ContentType::Game)
        } else {
            Err(())
        }
    }

    /// What `from_str` gives: the trimmed text read as the number of a content
    /// type, else as its name (case matters).
    pub open spec fn spec_from_str(s: Seq<char>) -> Result<Self, ()> {
        let t = trim(s);
        if t.len() == 0 {
            Err(())
        } else if parse_unsigned(t, 10, 255) is Some && Self::spec_try_from(
            parse_unsigned(t, 10, 255)->0 as u8,
        ) is Ok {
            Self::spec_try_from(parse_unsigned(t, 10, 255)->0 as u8)
        } else if t == "none"@ {
            Ok(ContentType::NoContent)
        } else if t == "photo"@ {
            Ok(ContentType::Photo)
        } else if t == "video"@ {
            Ok(ContentType::Video)
        } else if t == "game"@ {
            Ok(ContentType::Game)
        } else {
            Err(())
        }
    }

    pub fn try_from(value: u8) -> (r: Result<Self, ()>)
        ensures
            r == Self::spec_try_from(value),
    {
        match value {
            0 => Ok(ContentType::NoContent),
            1 => Ok(ContentType::Photo),
            2 => Ok(ContentType::Video),
            3 => Ok(ContentType::Game),
            _ => Err(()),
        }
    }

    pub fn from_str(s: &str) -> (r: Result<Self, ()>)
        ensures
            r == Self::spec_from_str(s@),
    {
        let t = trimmed(s);
        if t.len() == 0 {
            return Err(());
        }
        if let Some(n) = parse_u8(&t) {
            if let Ok(c) = Self::try_from(n) {
                return Ok(c);
            }
        }
        if eq_str(&t, "none") {
            Ok(ContentType::NoContent)
        } else if eq_str(&t, "photo") {
            Ok(ContentType::Photo)
        } else if eq_str(&t, "video") {
            Ok(ContentType::Video)
        } else if eq_str(&t, "game") {
            Ok(ContentType::Game)
        } else {
            Err(())
        }
    }
    /// Writes the name of the content type.
    pub fn to_string(&self) -> (r: String)
        ensures
            r@ == self.spec_keyword(),
    {
        match self {
            ContentType::NoContent => string_from("none"),
            ContentType::Photo => string_from("photo"),
            ContentType::Video => string_from("video"),
            ContentType::Game => string_from("game"),
        }
    }

    /// The numbers name the content types: 0 none, 1 photo, 2 video, 3 game;
    /// other numbers are refused. Reading takes the trimmed text as a number
    /// 0 to 3, else as one of the names `none`, `photo`, `video`, `game` (case
    /// matters), and refuses anything else. Each content type is written as its name.
    pub proof fn lemma_numbers(n: u8, s: Seq<char>)
        ensures
            Self::spec_try_from(n) == Ok::<Self, ()>(ContentType::NoContent) <==> n == 0,
            Self::spec_try_from(n) == Ok::<Self, ()>(ContentType::Photo) <==> n == 1,
            Self::spec_try_from(n) == Ok::<Self, ()>(ContentType::Video) <==> n == 2,
            Self::spec_try_from(n) == Ok::<Self, ()>(ContentType::Game) <==> n == 3,
            Self::spec_try_from(n) is Err <==> n > 3,
            ContentType::NoContent.spec_to_u8() == 0,
            ContentType::Photo.spec_to_u8() == 1,
            ContentType::Video.spec_to_u8() == 2,
            ContentType::Game.spec_to_u8() == 3,
            parse_unsigned(trim(s), 10, 255) == Some(n as nat) && n <= 3 ==> Self::spec_from_str(s) == Self::spec_try_from(n),
            trim(s) == "none"@ ==> Self::spec_from_str(s) == Ok::<Self, ()>(ContentType::NoContent),
            trim(s) == "photo"@ ==> Self::spec_from_str(s) == Ok::<Self, ()>(ContentType::Photo),
            trim(s) == "video"@ ==> Self::spec_from_str(s) == Ok::<Self, ()>(ContentType::Video),
            trim(s) == "game"@ ==> Self::spec_from_str(s) == Ok::<Self, ()>(ContentType::Game),
            Self::spec_from_str(s) is Err <==> !(trim(s) == "none"@ || trim(s) == "photo"@ || trim(s) == "video"@ || trim(s) == "game"@ || (parse_unsigned(trim(s), 10, 255) matches Some(m) && m <= 3)),
            ContentType::NoContent.spec_keyword() == "none"@,
            ContentType::Photo.spec_keyword() == "photo"@,
            ContentType::Video.spec_keyword() == "video"@,
            ContentType::Game.spec_keyword() == "game"@,
    {
        reveal_strlit("none");
        assert(digit_of("none"@[0], 10) is None);
        assert(!all_digits("none"@, 10));
        assert("none"@[0] != '+');
        reveal_strlit("photo");
        assert(digit_of("photo"@[0], 10) is None);
        assert(!all_digits("photo"@, 10));
        assert("photo"@[0] != '+');
        reveal_strlit("video");
        assert(digit_of("video"@[0], 10) is None);
        assert(!all_digits("video"@, 10));
        assert("video"@[0] != '+');
        reveal_strlit("game");
        assert(digit_of("game"@[0], 10) is None);
        assert(!all_digits("game"@, 10));
        assert("game"@[0] != '+');
        assert("none"@.len() != "photo"@.len());
        assert("none"@.len() != "video"@.len());
        assert("none"@[0] != "game"@[0]);
        assert("photo"@[0] != "video"@[0]);
        assert("photo"@.len() != "game"@.len());
        assert("video"@.len() != "game"@.len());
    }

    /// Reading back what `to_string` writes gives the same content type.
    pub proof fn lemma_from_str_to_string(x: ContentType)
        ensures
            Self::spec_from_str(x.spec_keyword()) == Ok::<Self, ()>(x),
    {
        reveal_strlit("none");
        reveal_strlit("photo");
        reveal_strlit("video");
        reveal_strlit("game");
        lemma_plain_word(x.spec_keyword());
        let k = x.spec_keyword();
        assert(crate::num::digit_of(k[0], 10) is None);
        assert(!crate::num::all_digits(k, 10));
    }
    /// Every content type is read back from its number.
    pub proof fn lemma_try_from_to_u8(x: ContentType)
        ensures
            Self::spec_try_from(x.spec_to_u8()) == Ok::<Self, ()>(x),
    {
    }
}

impl From<ContentType> for u8 {
    fn from(value: ContentType) -> (r: u8) {
        match value {
            ContentType::NoContent => 0,
            ContentType::Photo => 1,
            ContentType::Video => 2,
            ContentType::Game => 3,
        }
    }
}

impl vstd::std_specs::convert::FromSpecImpl<ContentType> for u8 {
    open spec fn obeys_from_spec() -> bool {
        true
    }

    open spec fn from_spec(v: ContentType) -> u8 {
        v.spec_to_u8()
    }
}

} // verus!
