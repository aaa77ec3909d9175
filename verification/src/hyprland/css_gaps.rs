//! Gaps around windows in the CSS style: one value for all sides, or two,
//! three or four comma-separated values.
use vstd::prelude::*;
use crate::num::{decimal, lemma_decimal_no_comma, lemma_u32_or_zero_decimal, parse_u32, push_decimal, u32_or_zero};
use crate::text::{chars_of, lemma_split_append, lemma_split_len, lemma_split_single, push_char, split, split_chars, trim, trim_chars, views};

verus! {

#[derive(Debug, Clone, Copy, PartialEq, Eq, Hash)]
pub enum CssGaps {
    All(u32),
    VerticalHorizontal(u32, u32),
    TopSidesBottom(u32, u32, u32),
    TopRightBottomLeft(u32, u32, u32, u32),
}

/// The variants of `CssGaps` without their values.
#[derive(Debug, Clone, Copy, PartialEq, Eq, Hash)]
pub enum CssGapsDiscriminant {
    All,
    VerticalHorizontal,
    TopSidesBottom,
    TopRightBottomLeft,
}

impl Default for CssGaps {
    fn default() -> (r: Self)
        ensures
            r == CssGaps::All(0),
    {
        CssGaps::All(0)
    }
}

/// The values of the comma-separated pieces of `s`, each trimmed and read as
/// a `u32` (0 where it is none).
pub open spec fn gap_values(s: Seq<char>) -> Seq<u32> {
    split(s, ',').map_values(|p: Seq<char>| u32_or_zero(trim(p)))
}

/// The value at `i`, or 0 where there is none.
pub open spec fn value_or_zero(n: Seq<u32>, i: int) -> u32 {
    if 0 <= i < n.len() {
        n[i]
    } else {
        0
    }
}

/// The numbers joined by commas.
pub open spec fn join_decimals(n: Seq<u32>) -> Seq<char>
    decreases n.len(),
{
    if n.len() <= 1 {
        if n.len() == 1 {
            decimal(n[0] as nat)
        } else {
            Seq::empty()
        }
    } else {
        join_decimals(n.drop_last()) + seq![','] + decimal(n.last() as nat)
    }
}

/// Joining numbers by commas and reading the pieces back gives the numbers.
pub proof fn lemma_gap_values_join(n: Seq<u32>)
    requires
        n.len() >= 1,
    ensures
        gap_values(join_decimals(n)) == n,
    decreases n.len(),
{
    let f = |p: Seq<char>| u32_or_zero(trim(p));
    if n.len() == 1 {
        lemma_decimal_no_comma(n[0] as nat);
        lemma_split_single(decimal(n[0] as nat), ',');
        lemma_u32_or_zero_decimal(n[0]);
        assert(gap_values(join_decimals(n)) =~= n);
    } else {
        let m = n.drop_last();
        lemma_gap_values_join(m);
        lemma_decimal_no_comma(n.last() as nat);
        lemma_split_append(join_decimals(m), ',', decimal(n.last() as nat));
        lemma_u32_or_zero_decimal(n.last());
        let sp = split(join_decimals(m), ',');
        assert(split(join_decimals(n), ',') == sp.push(decimal(n.last() as nat)));
        assert(sp.push(decimal(n.last() as nat)).map_values(f) =~= sp.map_values(f).push(
            f(decimal(n.last() as nat)),
        ));
        assert(gap_values(join_decimals(n)) =~= n);
    }
}

impl CssGaps {
    /// The gap values in the order in which they are written.
    pub open spec fn values(self) -> Seq<u32> {
        match self {
            CssGaps::All(a) => seq![a],
            CssGaps::VerticalHorizontal(a, b) => seq![a, b],
            CssGaps::TopSidesBottom(a, b, c) => seq![a, b, c],
            CssGaps::TopRightBottomLeft(a, b, c, d) => seq![a, b, c, d],
        }
    }

    /// What `from_str` gives: one to three values make the variant of that
    /// many values; more make the four-value variant from the first four.
    pub open spec fn spec_from_str(s: Seq<char>) -> Result<Self, ()> {
        let n = gap_values(s);
        if n.len() == 0 {
            Err(())
        } else if n.len() == 1 {
            Ok(CssGaps::All(n[0]))
        } else if n.len() == 2 {
            Ok(CssGaps::VerticalHorizontal(n[0], n[1]))
        } else if n.len() == 3 {
            Ok(CssGaps::TopSidesBottom(n[0], n[1], n[2]))
        } else {
            Ok(CssGaps::TopRightBottomLeft(n[0], n[1], n[2], n[3]))
        }
    }

    /// What `to_string` writes: the values joined by commas.
    pub open spec fn spec_to_string(self) -> Seq<char> {
        join_decimals(self.values())
    }

    pub open spec fn spec_discriminant(self) -> CssGapsDiscriminant {
        match self {
            CssGaps::All(..) => CssGapsDiscriminant::All,
            CssGaps::VerticalHorizontal(..) => CssGapsDiscriminant::VerticalHorizontal,
            CssGaps::TopSidesBottom(..) => CssGapsDiscriminant::TopSidesBottom,
            CssGaps::TopRightBottomLeft(..) => CssGapsDiscriminant::TopRightBottomLeft,
        }
    }

    /// The variant `d` with every value 0.
    pub open spec fn spec_from_discriminant(d: CssGapsDiscriminant) -> Self {
        match d {
            CssGapsDiscriminant::All => CssGaps::All(0),
            CssGapsDiscriminant::VerticalHorizontal => CssGaps::VerticalHorizontal(0, 0),
            CssGapsDiscriminant::TopSidesBottom => CssGaps::TopSidesBottom(0, 0, 0),
            CssGapsDiscriminant::TopRightBottomLeft => CssGaps::TopRightBottomLeft(0, 0, 0, 0),
        }
    }

    /// The variant `d`, its values taken in order from the comma-separated
    /// values of `s` (0 for each one missing).
    pub open spec fn spec_from_discriminant_and_str(d: CssGapsDiscriminant, s: Seq<char>) -> Self {
        let n = gap_values(s);
        match d {
            CssGapsDiscriminant::All => CssGaps::All(value_or_zero(n, 0)),
            CssGapsDiscriminant::VerticalHorizontal => CssGaps::VerticalHorizontal(
                value_or_zero(n, 0),
                value_or_zero(n, 1),
            ),
            CssGapsDiscriminant::TopSidesBottom => CssGaps::TopSidesBottom(
                value_or_zero(n, 0),
                value_or_zero(n, 1),
                value_or_zero(n, 2),
            ),
            CssGapsDiscriminant::TopRightBottomLeft => CssGaps::TopRightBottomLeft(
                value_or_zero(n, 0),
                value_or_zero(n, 1),
                value_or_zero(n, 2),
                value_or_zero(n, 3),
            ),
        }
    }

    /// Reads the comma-separated values of `s`.
    fn values_of(s: &str) -> (r: Vec<u32>)
        ensures
            r@ == gap_values(s@),
    {
        let v = chars_of(s);
        let parts = split_chars(&v, ',');
        let mut r: Vec<u32> = Vec::new();
        let mut k: usize = 0;
        while k < parts.len()
            invariant
                k <= parts.len(),
                views(parts@) == split(v@, ','),
                v@ == s@,
                r@ == views(parts@).subrange(0, k as int).map_values(
                    |p: Seq<char>| u32_or_zero(trim(p)),
                ),
            decreases parts.len() - k,
        {
            let t = trim_chars(&parts[k]);
            let n: u32 = match parse_u32(&t) {
                Some(n) => n,
                None => 0,
            };
            r.push(n);
            proof {
                assert(views(parts@)[k as int] == parts@[k as int]@);
                assert(t@ == trim(parts@[k as int]@));
                assert(n == u32_or_zero(t@));
                assert(views(parts@).subrange(0, k + 1).map_values(
                    |p: Seq<char>| u32_or_zero(trim(p)),
                ) =~= views(parts@).subrange(0, k as int).map_values(
                    |p: Seq<char>| u32_or_zero(trim(p)),
                ).push(n));
            }
            k += 1;
        }
        proof {
            assert(views(parts@).subrange(0, parts@.len() as int) =~= views(parts@));
        }
        r
    }

    pub fn from_str(s: &str) -> (r: Result<Self, ()>)
        ensures
            r == Self::spec_from_str(s@),
    {
        let n = Self::values_of(s);
        if n.len() == 0 {
            Err(())
        } else if n.len() == 1 {
            Ok(CssGaps::All(n[0]))
        } else if n.len() == 2 {
            Ok(CssGaps::VerticalHorizontal(n[0], n[1]))
        } else if n.len() == 3 {
            Ok(CssGaps::TopSidesBottom(n[0], n[1], n[2]))
        } else {
            Ok(CssGaps::TopRightBottomLeft(n[0], n[1], n[2], n[3]))
        }
    }

    fn push_values(r: &mut String, n: &Vec<u32>)
        requires
            n@.len() >= 1,
        ensures
            final(r)@ == old(r)@ + join_decimals(n@),
    {
        let ghost r0 = r@;
        push_decimal(r, n[0] as u64);
        let mut k: usize = 1;
        proof {
            assert(n@.subrange(0, 1) =~= seq![n@[0]]);
        }
        while k < n.len()
            invariant
                1 <= k <= n.len(),
                r@ == r0 + join_decimals(n@.subrange(0, k as int)),
            decreases n.len() - k,
        {
            let ghost before = r@;
            push_char(r, ',');
            push_decimal(r, n[k] as u64);
            proof {
                let m = n@.subrange(0, k + 1);
                assert(m.drop_last() =~= n@.subrange(0, k as int));
                assert(m.last() == n@[k as int]);
                assert(r@ =~= r0 + join_decimals(m));
            }
            k += 1;
        }
        proof {
            assert(n@.subrange(0, n@.len() as int) =~= n@);
        }
    }

    pub fn to_string(&self) -> (r: String)
        ensures
            r@ == self.spec_to_string(),
    {
        let n: Vec<u32> = match self {
            CssGaps::All(a) => vec![*a],
            CssGaps::VerticalHorizontal(a, b) => vec![*a, *b],
            CssGaps::TopSidesBottom(a, b, c) => vec![*a, *b, *c],
            CssGaps::TopRightBottomLeft(a, b, c, d) => vec![*a, *b, *c, *d],
        };
        proof {
            assert(n@ =~= self.values());
        }
        let mut r = String::new();
        Self::push_values(&mut r, &n);
        proof {
            assert(Seq::<char>::empty() + join_decimals(n@) =~= join_decimals(n@));
        }
        r
    }

    pub fn to_discriminant(&self) -> (r: CssGapsDiscriminant)
        ensures
            r == self.spec_discriminant(),
    {
        match self {
            CssGaps::All(..) => CssGapsDiscriminant::All,
            CssGaps::VerticalHorizontal(..) => CssGapsDiscriminant::VerticalHorizontal,
            CssGaps::TopSidesBottom(..) => CssGapsDiscriminant::TopSidesBottom,
            CssGaps::TopRightBottomLeft(..) => CssGapsDiscriminant::TopRightBottomLeft,
        }
    }

    pub fn from_discriminant(d: CssGapsDiscriminant) -> (r: Self)
        ensures
            r == Self::spec_from_discriminant(d),
    {
        match d {
            CssGapsDiscriminant::All => CssGaps::All(0),
            CssGapsDiscriminant::VerticalHorizontal => CssGaps::VerticalHorizontal(0, 0),
            CssGapsDiscriminant::TopSidesBottom => CssGaps::TopSidesBottom(0, 0, 0),
            CssGapsDiscriminant::TopRightBottomLeft => CssGaps::TopRightBottomLeft(0, 0, 0, 0),
        }
    }

    pub fn from_discriminant_and_str(d: CssGapsDiscriminant, s: &str) -> (r: Self)
        ensures
            r == Self::spec_from_discriminant_and_str(d, s@),
    {
        let n = Self::values_of(s);
        let a = if n.len() > 0 { n[0] } else { 0 };
        let b = if n.len() > 1 { n[1] } else { 0 };
        let c = if n.len() > 2 { n[2] } else { 0 };
        let e = if n.len() > 3 { n[3] } else { 0 };
        match d {
            CssGapsDiscriminant::All => CssGaps::All(a),
            CssGapsDiscriminant::VerticalHorizontal => CssGaps::VerticalHorizontal(a, b),
            CssGapsDiscriminant::TopSidesBottom => CssGaps::TopSidesBottom(a, b, c),
            CssGapsDiscriminant::TopRightBottomLeft => CssGaps::TopRightBottomLeft(a, b, c, e),
        }
    }

    /// The values without the variant: what `to_string` writes.
    pub fn to_str_without_discriminant(&self) -> (r: Option<String>)
        ensures
            r matches Some(t) && t@ == self.spec_to_string(),
    {
        Some(self.to_string())
    }

    /// Reading splits the text at commas and reads each trimmed piece as a
    /// number (0 where it is none), in order: one piece gives the same gap on
    /// all sides, two give vertical then horizontal, three give top, sides,
    /// bottom, and four (or more, of which the first four count) give top,
    /// right, bottom, left. Writing puts the numbers in that order, separated
    /// by commas.
    pub proof fn lemma_pieces(p0: Seq<char>, p1: Seq<char>, p2: Seq<char>, p3: Seq<char>, p4: Seq<char>, a: u32, b: u32, c: u32, d: u32)
        requires
            !p0.contains(','),
            !p1.contains(','),
            !p2.contains(','),
            !p3.contains(','),
            !p4.contains(','),
        ensures
            Self::spec_from_str(p0) == Ok::<Self, ()>(CssGaps::All(u32_or_zero(trim(p0)))),
            Self::spec_from_str(p0 + seq![','] + p1) == Ok::<Self, ()>(
                CssGaps::VerticalHorizontal(u32_or_zero(trim(p0)), u32_or_zero(trim(p1))),
            ),
            Self::spec_from_str(p0 + seq![','] + p1 + seq![','] + p2) == Ok::<Self, ()>(
                CssGaps::TopSidesBottom(u32_or_zero(trim(p0)), u32_or_zero(trim(p1)), u32_or_zero(trim(p2))),
            ),
            Self::spec_from_str(p0 + seq![','] + p1 + seq![','] + p2 + seq![','] + p3) == Ok::<Self, ()>(
                CssGaps::TopRightBottomLeft(
                    u32_or_zero(trim(p0)),
                    u32_or_zero(trim(p1)),
                    u32_or_zero(trim(p2)),
                    u32_or_zero(trim(p3)),
                ),
            ),
            Self::spec_from_str(p0 + seq![','] + p1 + seq![','] + p2 + seq![','] + p3 + seq![','] + p4) == Ok::<
                Self,
                (),
            >(
                CssGaps::TopRightBottomLeft(
                    u32_or_zero(trim(p0)),
                    u32_or_zero(trim(p1)),
                    u32_or_zero(trim(p2)),
                    u32_or_zero(trim(p3)),
                ),
            ),
            CssGaps::All(a).spec_to_string() == decimal(a as nat),
            CssGaps::VerticalHorizontal(a, b).spec_to_string() == decimal(a as nat) + seq![','] + decimal(b as nat),
            CssGaps::TopSidesBottom(a, b, c).spec_to_string() == decimal(a as nat) + seq![','] + decimal(b as nat)
                + seq![','] + decimal(c as nat),
            CssGaps::TopRightBottomLeft(a, b, c, d).spec_to_string() == decimal(a as nat) + seq![','] + decimal(
                b as nat,
            ) + seq![','] + decimal(c as nat) + seq![','] + decimal(d as nat),
    {
        let s1 = p0;
        let s2 = s1 + seq![','] + p1;
        let s3 = s2 + seq![','] + p2;
        let s4 = s3 + seq![','] + p3;
        let s5 = s4 + seq![','] + p4;
        lemma_split_single(p0, ',');
        lemma_split_append(s1, ',', p1);
        lemma_split_append(s2, ',', p2);
        lemma_split_append(s3, ',', p3);
        lemma_split_append(s4, ',', p4);
        let f = |p: Seq<char>| u32_or_zero(trim(p));
        assert(gap_values(s1) =~= seq![f(p0)]);
        assert(gap_values(s2) =~= seq![f(p0), f(p1)]);
        assert(gap_values(s3) =~= seq![f(p0), f(p1), f(p2)]);
        assert(gap_values(s4) =~= seq![f(p0), f(p1), f(p2), f(p3)]);
        assert(gap_values(s5) =~= seq![f(p0), f(p1), f(p2), f(p3), f(p4)]);
        let n2 = seq![a, b];
        let n3 = seq![a, b, c];
        let n4 = seq![a, b, c, d];
        assert(n2.drop_last() =~= seq![a]);
        assert(n3.drop_last() =~= n2);
        assert(n4.drop_last() =~= n3);
        assert(join_decimals(seq![a]) == decimal(a as nat));
        assert(join_decimals(n2) == decimal(a as nat) + seq![','] + decimal(b as nat));
        assert(n3.last() == c);
        assert(join_decimals(n3) == join_decimals(n2) + seq![','] + decimal(c as nat));
        assert(n4.last() == d);
        assert(join_decimals(n4) == join_decimals(n3) + seq![','] + decimal(d as nat));
    }

    /// The discriminants name the variants, whose values start at 0; a value
    /// is made from a discriminant and a text by taking the text's
    /// comma-separated numbers in order, 0 for each one missing.
    pub proof fn lemma_discriminant_names(p0: Seq<char>, p1: Seq<char>, a: u32, b: u32, c: u32, d: u32)
        requires
            !p0.contains(','),
            !p1.contains(','),
        ensures
            CssGaps::All(a).spec_discriminant() == CssGapsDiscriminant::All,
            CssGaps::VerticalHorizontal(a, b).spec_discriminant() == CssGapsDiscriminant::VerticalHorizontal,
            CssGaps::TopSidesBottom(a, b, c).spec_discriminant() == CssGapsDiscriminant::TopSidesBottom,
            CssGaps::TopRightBottomLeft(a, b, c, d).spec_discriminant() == CssGapsDiscriminant::TopRightBottomLeft,
            Self::spec_from_discriminant(CssGapsDiscriminant::All) == CssGaps::All(0),
            Self::spec_from_discriminant(CssGapsDiscriminant::VerticalHorizontal) == CssGaps::VerticalHorizontal(0, 0),
            Self::spec_from_discriminant(CssGapsDiscriminant::TopSidesBottom) == CssGaps::TopSidesBottom(0, 0, 0),
            Self::spec_from_discriminant(CssGapsDiscriminant::TopRightBottomLeft) == CssGaps::TopRightBottomLeft(
                0,
                0,
                0,
                0,
            ),
            Self::spec_from_discriminant_and_str(CssGapsDiscriminant::All, p0 + seq![','] + p1) == CssGaps::All(
                u32_or_zero(trim(p0)),
            ),
            Self::spec_from_discriminant_and_str(CssGapsDiscriminant::VerticalHorizontal, p0 + seq![','] + p1)
                == CssGaps::VerticalHorizontal(u32_or_zero(trim(p0)), u32_or_zero(trim(p1))),
            Self::spec_from_discriminant_and_str(CssGapsDiscriminant::TopRightBottomLeft, p0 + seq![','] + p1)
                == CssGaps::TopRightBottomLeft(u32_or_zero(trim(p0)), u32_or_zero(trim(p1)), 0, 0),
    {
        lemma_split_single(p0, ',');
        lemma_split_append(p0, ',', p1);
        let f = |p: Seq<char>| u32_or_zero(trim(p));
        assert(gap_values(p0 + seq![','] + p1) =~= seq![f(p0), f(p1)]);
    }


    /// Reading back what `to_string` writes gives the same gaps.
    pub proof fn lemma_from_str_to_string(x: CssGaps)
        ensures
            Self::spec_from_str(x.spec_to_string()) == Ok::<Self, ()>(x),
    {
        lemma_gap_values_join(x.values());
    }

    /// Each variant keeps its discriminant, and gaps are rebuilt from their
    /// discriminant and their values as `to_string` writes them.
    pub proof fn lemma_discriminant(x: CssGaps, d: CssGapsDiscriminant)
        ensures
            Self::spec_from_discriminant(d).spec_discriminant() == d,
            Self::spec_from_discriminant_and_str(x.spec_discriminant(), x.spec_to_string()) == x,
    {
        lemma_gap_values_join(x.values());
    }
}

} // verus!
