//! The colour management preset of a monitor.
use vstd::prelude::*;
use crate::text::{eq_str, fold, lemma_plain_word, string_from, trim, trimmed_folded};

verus! {

#[derive(Debug, Clone, Copy, PartialEq, Eq)]
pub enum Cm {
    Auto,
    Srgb,
    Dcip3,
    Dp3,
    Adobe,
    Wide,
    Edid,
    Hdr,
    Hdredid,
}

impl Cm {
    /// What `from_str` gives for the text `s`: the keyword, compared after trimming and without regard to case.
    pub open spec fn spec_from_str(s: Seq<char>) -> Result<Self, ()> {
        let t = fold(trim(s));
        if t == "auto"@ {
            Ok(Cm::Auto)
        } else if t == "srgb"@ {
            Ok(Cm::Srgb)
        } else if t == "dcip3"@ {
            Ok(Cm::Dcip3)
        } else if t == "dp3"@ {
            Ok(Cm::Dp3)
        } else if t == "adobe"@ {
            Ok(Cm::Adobe)
        } else if t == "wide"@ {
            Ok(Cm::Wide)
        } else if t == "edid"@ {
            Ok(Cm::Edid)
        } else if t == "hdr"@ {
            Ok(Cm::Hdr)
        } else if t == "hdredid"@ {
            Ok(Cm::Hdredid)
        } else {
            Err(())
        }
    }

    /// The keyword that `to_string` writes.
    pub open spec fn spec_to_string(self) -> Seq<char> {
        match self {
            Cm::Auto => "auto"@,
            Cm::Srgb => "srgb"@,
            Cm::Dcip3 => "dcip3"@,
            Cm::Dp3 => "dp3"@,
            Cm::Adobe => "adobe"@,
            Cm::Wide => "wide"@,
            Cm::Edid => "edid"@,
            Cm::Hdr => "hdr"@,
            Cm::Hdredid => "hdredid"@,
        }
    }

    pub fn from_str(s: &str) -> (r: Result<Self, ()>)
        ensures
            r == Self::spec_from_str(s@),
    {
        let t = trimmed_folded(s);
        if eq_str(&t, "auto") {
            Ok(Cm::Auto)
        } else if eq_str(&t, "srgb") {
            Ok(Cm::Srgb)
        } else if eq_str(&t, "dcip3") {
            Ok(Cm::Dcip3)
        } else if eq_str(&t, "dp3") {
            Ok(Cm::Dp3)
        } else if eq_str(&t, "adobe") {
            Ok(Cm::Adobe)
        } else if eq_str(&t, "wide") {
            Ok(Cm::Wide)
        } else if eq_str(&t, "edid") {
            Ok(Cm::Edid)
        } else if eq_str(&t, "hdr") {
            Ok(Cm::Hdr)
        } else if eq_str(&t, "hdredid") {
            Ok(Cm::Hdredid)
        } else {
            Err(())
        }
    }

    pub fn to_string(&self) -> (r: String)
        ensures
            r@ == self.spec_to_string(),
    {
        match self {
            Cm::Auto => string_from("auto"),
            Cm::Srgb => string_from("srgb"),
            Cm::Dcip3 => string_from("dcip3"),
            Cm::Dp3 => string_from("dp3"),
            Cm::Adobe => string_from("adobe"),
            Cm::Wide => string_from("wide"),
            Cm::Edid => string_from("edid"),
            Cm::Hdr => string_from("hdr"),
            Cm::Hdredid => string_from("hdredid"),
        }
    }

    /// Each keyword, trimmed, in any ASCII case, reads as its own value, and nothing else
    /// reads as that value; a text that is no keyword is refused; each value
    /// is written as its keyword.
    pub proof fn lemma_keywords(s: Seq<char>)
        ensures
            Self::spec_from_str(s) == Ok::<Self, ()>(Cm::Auto) <==> (fold(trim(s)) == "auto"@),
            Self::spec_from_str(s) == Ok::<Self, ()>(Cm::Srgb) <==> (fold(trim(s)) == "srgb"@),
            Self::spec_from_str(s) == Ok::<Self, ()>(Cm::Dcip3) <==> (fold(trim(s)) == "dcip3"@),
            Self::spec_from_str(s) == Ok::<Self, ()>(Cm::Dp3) <==> (fold(trim(s)) == "dp3"@),
            Self::spec_from_str(s) == Ok::<Self, ()>(Cm::Adobe) <==> (fold(trim(s)) == "adobe"@),
            Self::spec_from_str(s) == Ok::<Self, ()>(Cm::Wide) <==> (fold(trim(s)) == "wide"@),
            Self::spec_from_str(s) == Ok::<Self, ()>(Cm::Edid) <==> (fold(trim(s)) == "edid"@),
            Self::spec_from_str(s) == Ok::<Self, ()>(Cm::Hdr) <==> (fold(trim(s)) == "hdr"@),
            Self::spec_from_str(s) == Ok::<Self, ()>(Cm::Hdredid) <==> (fold(trim(s)) == "hdredid"@),
            Self::spec_from_str(s) is Err <==> !(fold(trim(s)) == "auto"@ || fold(trim(s)) == "srgb"@ || fold(trim(s)) == "dcip3"@ || fold(trim(s)) == "dp3"@ || fold(trim(s)) == "adobe"@ || fold(trim(s)) == "wide"@ || fold(trim(s)) == "edid"@ || fold(trim(s)) == "hdr"@ || fold(trim(s)) == "hdredid"@),
            Cm::Auto.spec_to_string() == "auto"@,
            Cm::Srgb.spec_to_string() == "srgb"@,
            Cm::Dcip3.spec_to_string() == "dcip3"@,
            Cm::Dp3.spec_to_string() == "dp3"@,
            Cm::Adobe.spec_to_string() == "adobe"@,
            Cm::Wide.spec_to_string() == "wide"@,
            Cm::Edid.spec_to_string() == "edid"@,
            Cm::Hdr.spec_to_string() == "hdr"@,
            Cm::Hdredid.spec_to_string() == "hdredid"@,
    {
        reveal_strlit("auto");
        reveal_strlit("srgb");
        reveal_strlit("dcip3");
        reveal_strlit("dp3");
        reveal_strlit("adobe");
        reveal_strlit("wide");
        reveal_strlit("edid");
        reveal_strlit("hdr");
        reveal_strlit("hdredid");
        assert("auto"@[0] != "srgb"@[0]);
        assert("auto"@.len() != "dcip3"@.len());
        assert("auto"@.len() != "dp3"@.len());
        assert("auto"@.len() != "adobe"@.len());
        assert("auto"@[0] != "wide"@[0]);
        assert("auto"@[0] != "edid"@[0]);
        assert("auto"@.len() != "hdr"@.len());
        assert("auto"@.len() != "hdredid"@.len());
        assert("srgb"@.len() != "dcip3"@.len());
        assert("srgb"@.len() != "dp3"@.len());
        assert("srgb"@.len() != "adobe"@.len());
        assert("srgb"@[0] != "wide"@[0]);
        assert("srgb"@[0] != "edid"@[0]);
        assert("srgb"@.len() != "hdr"@.len());
        assert("srgb"@.len() != "hdredid"@.len());
        assert("dcip3"@.len() != "dp3"@.len());
        assert("dcip3"@[0] != "adobe"@[0]);
        assert("dcip3"@.len() != "wide"@.len());
        assert("dcip3"@.len() != "edid"@.len());
        assert("dcip3"@.len() != "hdr"@.len());
        assert("dcip3"@.len() != "hdredid"@.len());
        assert("dp3"@.len() != "adobe"@.len());
        assert("dp3"@.len() != "wide"@.len());
        assert("dp3"@.len() != "edid"@.len());
        assert("dp3"@[0] != "hdr"@[0]);
        assert("dp3"@.len() != "hdredid"@.len());
        assert("adobe"@.len() != "wide"@.len());
        assert("adobe"@.len() != "edid"@.len());
        assert("adobe"@.len() != "hdr"@.len());
        assert("adobe"@.len() != "hdredid"@.len());
        assert("wide"@[0] != "edid"@[0]);
        assert("wide"@.len() != "hdr"@.len());
        assert("wide"@.len() != "hdredid"@.len());
        assert("edid"@.len() != "hdr"@.len());
        assert("edid"@.len() != "hdredid"@.len());
        assert("hdr"@.len() != "hdredid"@.len());
    }

    /// Reading back what `to_string` writes gives the same value.
    pub proof fn lemma_from_str_to_string(x: Cm)
        ensures
            Self::spec_from_str(x.spec_to_string()) == Ok::<Self, ()>(x),
    {
        reveal_strlit("auto");
        reveal_strlit("srgb");
        reveal_strlit("dcip3");
        reveal_strlit("dp3");
        reveal_strlit("adobe");
        reveal_strlit("wide");
        reveal_strlit("edid");
        reveal_strlit("hdr");
        reveal_strlit("hdredid");
        lemma_plain_word(x.spec_to_string());
    }

    /// The names that the interface shows, in the order of `from_id`.
    pub fn get_fancy_list() -> (r: [&'static str; 9])
        ensures
            r@[0]@ == "Auto"@,
            r@[1]@ == "SRGB"@,
            r@[2]@ == "CDI-P3"@,
            r@[3]@ == "DP3"@,
            r@[4]@ == "AdobeRGB"@,
            r@[5]@ == "WideGamut"@,
            r@[6]@ == "EDID"@,
            r@[7]@ == "HDR"@,
            r@[8]@ == "HDR-EDID"@,
    {
        ["Auto", "SRGB", "CDI-P3", "DP3", "AdobeRGB", "WideGamut", "EDID", "HDR", "HDR-EDID"]
    }

    /// The mode at position `id` of the list; any other id means `Auto`.
    pub open spec fn spec_from_id(id: u32) -> Self {
        if id == 1 {
            Cm::Srgb
        } else if id == 2 {
            Cm::Dcip3
        } else if id == 3 {
            Cm::Dp3
        } else if id == 4 {
            Cm::Adobe
        } else if id == 5 {
            Cm::Wide
        } else if id == 6 {
            Cm::Edid
        } else if id == 7 {
            Cm::Hdr
        } else if id == 8 {
            Cm::Hdredid
        } else {
            Cm::Auto
        }
    }

    /// The position of the mode in the list.
    pub open spec fn spec_id(self) -> u32 {
        match self {
            Cm::Auto => 0,
            Cm::Srgb => 1,
            Cm::Dcip3 => 2,
            Cm::Dp3 => 3,
            Cm::Adobe => 4,
            Cm::Wide => 5,
            Cm::Edid => 6,
            Cm::Hdr => 7,
            Cm::Hdredid => 8,
        }
    }

    pub fn from_id(id: u32) -> (r: Self)
        ensures
            r == Self::spec_from_id(id),
    {
        match id {
            0 => Cm::Auto,
            1 => Cm::Srgb,
            2 => Cm::Dcip3,
            3 => Cm::Dp3,
            4 => Cm::Adobe,
            5 => Cm::Wide,
            6 => Cm::Edid,
            7 => Cm::Hdr,
            8 => Cm::Hdredid,
            _ => Cm::Auto,
        }
    }

    /// The ids number the modes in the order of the list: 0 auto, 1 sRGB, 2
    /// DCI-P3, 3 DP3, 4 Adobe, 5 wide gamut, 6 EDID, 7 HDR, 8 HDR-EDID; any
    /// other id gives auto.
    pub proof fn lemma_ids(id: u32)
        ensures
            Self::spec_from_id(id) == Cm::Auto <==> (id == 0 || id > 8),
            Self::spec_from_id(id) == Cm::Srgb <==> id == 1,
            Self::spec_from_id(id) == Cm::Dcip3 <==> id == 2,
            Self::spec_from_id(id) == Cm::Dp3 <==> id == 3,
            Self::spec_from_id(id) == Cm::Adobe <==> id == 4,
            Self::spec_from_id(id) == Cm::Wide <==> id == 5,
            Self::spec_from_id(id) == Cm::Edid <==> id == 6,
            Self::spec_from_id(id) == Cm::Hdr <==> id == 7,
            Self::spec_from_id(id) == Cm::Hdredid <==> id == 8,
    {
    }


    /// Each mode stands at its own position of the list.
    pub proof fn lemma_from_id_id(x: Cm)
        ensures
            Self::spec_from_id(x.spec_id()) == x,
            x.spec_id() < 9,
    {
    }

}


} // verus!
