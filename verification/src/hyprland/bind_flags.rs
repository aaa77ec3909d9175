//! The flags that follow `bind` in a key binding, one letter each.
use vstd::prelude::*;
use crate::text::{chars_of, push_char, trim, trim_chars};

verus! {

#[derive(Debug, Clone, Copy, PartialEq, Eq)]
pub struct BindFlags {
    pub locked: bool,
    pub release: bool,
    pub click: bool,
    pub drag: bool,
    pub long_press: bool,
    pub repeat: bool,
    pub non_consuming: bool,
    pub mouse: bool,
    pub transparent: bool,
    pub ignore_mods: bool,
    pub separate: bool,
    pub has_description: bool,
    pub bypass: bool,
}

/// The letters of the flags, in the order in which they are written.
pub open spec fn flag_letters() -> Seq<char> {
    seq!['l', 'r', 'c', 'g', 'o', 'e', 'n', 'm', 't', 'i', 's', 'd', 'p']
}

impl Default for BindFlags {
    fn default() -> (r: Self)
        ensures
            r == BindFlags::none(),
    {
        BindFlags {
            locked: false,
            release: false,
            click: false,
            drag: false,
            long_press: false,
            repeat: false,
            non_consuming: false,
            mouse: false,
            transparent: false,
            ignore_mods: false,
            separate: false,
            has_description: false,
            bypass: false,
        }
    }
}

impl BindFlags {
    /// No flag set.
    pub open spec fn none() -> Self {
        BindFlags {
            locked: false,
            release: false,
            click: false,
            drag: false,
            long_press: false,
            repeat: false,
            non_consuming: false,
            mouse: false,
            transparent: false,
            ignore_mods: false,
            separate: false,
            has_description: false,
            bypass: false,
        }
    }

    /// The flags in the order of `flag_letters`.
    pub open spec fn as_seq(self) -> Seq<bool> {
        seq![
            self.locked,
            self.release,
            self.click,
            self.drag,
            self.long_press,
            self.repeat,
            self.non_consuming,
            self.mouse,
            self.transparent,
            self.ignore_mods,
            self.separate,
            self.has_description,
            self.bypass,
        ]
    }

    /// The flags whose letters occur in `t`.
    pub open spec fn of_letters(t: Seq<char>) -> Self {
        BindFlags {
            locked: t.contains('l'),
            release: t.contains('r'),
            click: t.contains('c'),
            drag: t.contains('g'),
            long_press: t.contains('o'),
            repeat: t.contains('e'),
            non_consuming: t.contains('n'),
            mouse: t.contains('m'),
            transparent: t.contains('t'),
            ignore_mods: t.contains('i'),
            separate: t.contains('s'),
            has_description: t.contains('d'),
            bypass: t.contains('p'),
        }
    }

    /// What `from_str` gives: each flag whose letter occurs in the trimmed
    /// text is set, other chars are ignored; it never fails.
    pub open spec fn spec_from_str(s: Seq<char>) -> Result<Self, ()> {
        Ok(Self::of_letters(trim(s)))
    }

    /// The letters of the first `k` flags (in the order of `flag_letters`) that are set.
    pub open spec fn letters_upto(self, k: int) -> Seq<char>
        decreases k,
    {
        if k <= 0 {
            Seq::empty()
        } else if self.as_seq()[k - 1] {
            self.letters_upto(k - 1).push(flag_letters()[k - 1])
        } else {
            self.letters_upto(k - 1)
        }
    }

    /// What `to_string` writes: the letters of the set flags, in the order of `flag_letters`.
    pub open spec fn spec_to_string(self) -> Seq<char> {
        self.letters_upto(13)
    }

    /// The flags with the flag of the letter `c` set, if `c` is one.
    pub open spec fn with_letter(self, c: char) -> Self {
        BindFlags {
            locked: self.locked || c == 'l',
            release: self.release || c == 'r',
            click: self.click || c == 'c',
            drag: self.drag || c == 'g',
            long_press: self.long_press || c == 'o',
            repeat: self.repeat || c == 'e',
            non_consuming: self.non_consuming || c == 'n',
            mouse: self.mouse || c == 'm',
            transparent: self.transparent || c == 't',
            ignore_mods: self.ignore_mods || c == 'i',
            separate: self.separate || c == 's',
            has_description: self.has_description || c == 'd',
            bypass: self.bypass || c == 'p',
        }
    }

    fn set_letter(&mut self, c: char)
        ensures
            *final(self) == old(self).with_letter(c),
    {
        *self = BindFlags {
            locked: self.locked || c == 'l',
            release: self.release || c == 'r',
            click: self.click || c == 'c',
            drag: self.drag || c == 'g',
            long_press: self.long_press || c == 'o',
            repeat: self.repeat || c == 'e',
            non_consuming: self.non_consuming || c == 'n',
            mouse: self.mouse || c == 'm',
            transparent: self.transparent || c == 't',
            ignore_mods: self.ignore_mods || c == 'i',
            separate: self.separate || c == 's',
            has_description: self.has_description || c == 'd',
            bypass: self.bypass || c == 'p',
        };
    }

    /// The flags whose letters occur in `v` (already trimmed).
    pub fn from_letters(v: &Vec<char>) -> (r: Self)
        ensures
            r == Self::of_letters(v@),
    {
        let mut flags = BindFlags::default();
        let mut k: usize = 0;
        while k < v.len()
            invariant
                k <= v.len(),
                flags == Self::of_letters(v@.subrange(0, k as int)),
            decreases v.len() - k,
        {
            let ghost pre = v@.subrange(0, k as int);
            let ghost pre1 = v@.subrange(0, k + 1);
            proof {
                assert(pre1 =~= pre.push(v@[k as int]));
                lemma_contains_push(pre, v@[k as int]);
                assert(Self::of_letters(pre1) == Self::of_letters(pre).with_letter(v@[k as int]));
            }
            flags.set_letter(v[k]);
            k += 1;
        }
        proof {
            assert(v@.subrange(0, v@.len() as int) =~= v@);
        }
        flags
    }

    pub fn from_str(s: &str) -> (r: Result<Self, ()>)
        ensures
            r == Self::spec_from_str(s@),
    {
        let v = chars_of(s);
        let t = trim_chars(&v);
        Ok(Self::from_letters(&t))
    }

    pub fn to_string(&self) -> (r: String)
        ensures
            r@ == self.spec_to_string(),
    {
        let mut r = String::new();
        self.push_letters(&mut r);
        proof {
            assert(Seq::<char>::empty() + self.spec_to_string() =~= self.spec_to_string());
        }
        r
    }

    /// Appends the letters of the set flags to `r`.
    pub fn push_letters(&self, r: &mut String)
        ensures
            final(r)@ == old(r)@ + self.spec_to_string(),
    {
        let ghost r0 = r@;
        let flags = [
            self.locked,
            self.release,
            self.click,
            self.drag,
            self.long_press,
            self.repeat,
            self.non_consuming,
            self.mouse,
            self.transparent,
            self.ignore_mods,
            self.separate,
            self.has_description,
            self.bypass,
        ];
        let letters = ['l', 'r', 'c', 'g', 'o', 'e', 'n', 'm', 't', 'i', 's', 'd', 'p'];
        proof {
            assert(flags@ =~= self.as_seq());
            assert(letters@ =~= flag_letters());
        }
        let mut k: usize = 0;
        while k < 13
            invariant
                k <= 13,
                flags@ == self.as_seq(),
                letters@ == flag_letters(),
                r@ == r0 + self.letters_upto(k as int),
            decreases 13 - k,
        {
            if flags[k] {
                push_char(r, letters[k]);
                proof {
                    assert(r0 + self.letters_upto(k + 1) =~= (r0 + self.letters_upto(k as int)).push(
                        flag_letters()[k as int],
                    ));
                }
            }
            k += 1;
        }
    }

    /// A letter occurs in what `to_string` writes exactly when its flag is set.
    pub proof fn lemma_letters_upto(self, k: int, j: int)
        requires
            0 <= j < 13,
            0 <= k <= 13,
        ensures
            self.letters_upto(k).contains(flag_letters()[j]) <==> (j < k && self.as_seq()[j]),
            forall|m: int| 0 <= m < self.letters_upto(k).len() ==> flag_letters().contains(
                #[trigger] self.letters_upto(k)[m],
            ),
        decreases k,
    {
        if k > 0 {
            self.lemma_letters_upto(k - 1, j);
            let p = self.letters_upto(k - 1);
            if self.as_seq()[k - 1] {
                lemma_contains_push(p, flag_letters()[k - 1]);
                assert forall|m: int| 0 <= m < self.letters_upto(k).len() implies flag_letters().contains(
                    #[trigger] self.letters_upto(k)[m],
                ) by {
                    if m < p.len() {
                        assert(self.letters_upto(k)[m] == p[m]);
                    } else {
                        assert(flag_letters()[k - 1] == self.letters_upto(k)[m]);
                    }
                }
            }
        }
    }

    /// What `to_string` writes holds no whitespace.
    pub proof fn lemma_letters_no_ws(x: BindFlags)
        ensures
            forall|m: int| 0 <= m < x.spec_to_string().len() ==> !crate::text::is_ws(
                #[trigger] x.spec_to_string()[m],
            ),
    {
        let s = x.spec_to_string();
        assert forall|m: int| 0 <= m < s.len() implies !crate::text::is_ws(#[trigger] s[m]) by {
            x.lemma_letters_upto(13, 0);
            let c = s[m];
            assert(flag_letters().contains(c));
        }
    }

    /// Reading never fails and sets each flag exactly when its letter occurs
    /// in the trimmed text: `l` locked, `r` release, `c` click, `g` drag, `o`
    /// long press, `e` repeat, `n` non-consuming, `m` mouse, `t` transparent,
    /// `i` ignore mods, `s` separate, `d` has description, `p` bypass.
    pub proof fn lemma_read_letters(s: Seq<char>)
        ensures
            Self::spec_from_str(s) is Ok,
            Self::spec_from_str(s)->Ok_0.locked == trim(s).contains('l'),
            Self::spec_from_str(s)->Ok_0.release == trim(s).contains('r'),
            Self::spec_from_str(s)->Ok_0.click == trim(s).contains('c'),
            Self::spec_from_str(s)->Ok_0.drag == trim(s).contains('g'),
            Self::spec_from_str(s)->Ok_0.long_press == trim(s).contains('o'),
            Self::spec_from_str(s)->Ok_0.repeat == trim(s).contains('e'),
            Self::spec_from_str(s)->Ok_0.non_consuming == trim(s).contains('n'),
            Self::spec_from_str(s)->Ok_0.mouse == trim(s).contains('m'),
            Self::spec_from_str(s)->Ok_0.transparent == trim(s).contains('t'),
            Self::spec_from_str(s)->Ok_0.ignore_mods == trim(s).contains('i'),
            Self::spec_from_str(s)->Ok_0.separate == trim(s).contains('s'),
            Self::spec_from_str(s)->Ok_0.has_description == trim(s).contains('d'),
            Self::spec_from_str(s)->Ok_0.bypass == trim(s).contains('p'),
    {
    }

    /// What `to_string` writes holds each flag's letter exactly when the flag
    /// is set (the letters as above), and nothing but those letters.
    pub proof fn lemma_written_letters(x: BindFlags)
        ensures
            x.spec_to_string().contains('l') == x.locked,
            x.spec_to_string().contains('r') == x.release,
            x.spec_to_string().contains('c') == x.click,
            x.spec_to_string().contains('g') == x.drag,
            x.spec_to_string().contains('o') == x.long_press,
            x.spec_to_string().contains('e') == x.repeat,
            x.spec_to_string().contains('n') == x.non_consuming,
            x.spec_to_string().contains('m') == x.mouse,
            x.spec_to_string().contains('t') == x.transparent,
            x.spec_to_string().contains('i') == x.ignore_mods,
            x.spec_to_string().contains('s') == x.separate,
            x.spec_to_string().contains('d') == x.has_description,
            x.spec_to_string().contains('p') == x.bypass,
            forall|m: int| 0 <= m < x.spec_to_string().len() ==> "lrcgoenmtisdp"@.contains(
                #[trigger] x.spec_to_string()[m],
            ),
    {
        reveal_strlit("lrcgoenmtisdp");
        assert(flag_letters() =~= "lrcgoenmtisdp"@);
        x.lemma_letters_upto(13, 0);
        x.lemma_letters_upto(13, 1);
        x.lemma_letters_upto(13, 2);
        x.lemma_letters_upto(13, 3);
        x.lemma_letters_upto(13, 4);
        x.lemma_letters_upto(13, 5);
        x.lemma_letters_upto(13, 6);
        x.lemma_letters_upto(13, 7);
        x.lemma_letters_upto(13, 8);
        x.lemma_letters_upto(13, 9);
        x.lemma_letters_upto(13, 10);
        x.lemma_letters_upto(13, 11);
        x.lemma_letters_upto(13, 12);
    }


    /// The positions in `flag_letters` of the letters of the first `k` set flags.
    pub open spec fn positions_upto(self, k: int) -> Seq<int>
        decreases k,
    {
        if k <= 0 {
            Seq::empty()
        } else if self.as_seq()[k - 1] {
            self.positions_upto(k - 1).push(k - 1)
        } else {
            self.positions_upto(k - 1)
        }
    }

    proof fn lemma_positions(self, k: int)
        requires
            0 <= k <= 13,
        ensures
            self.positions_upto(k).len() == self.letters_upto(k).len(),
            forall|m: int| 0 <= m < self.positions_upto(k).len() ==> {
                &&& 0 <= #[trigger] self.positions_upto(k)[m] < k
                &&& self.letters_upto(k)[m] == flag_letters()[self.positions_upto(k)[m]]
            },
            forall|a: int, b: int|
                0 <= a < b < self.positions_upto(k).len() ==> #[trigger] self.positions_upto(k)[a]
                    < #[trigger] self.positions_upto(k)[b],
        decreases k,
    {
        if k > 0 {
            self.lemma_positions(k - 1);
        }
    }

    /// The position of a flag letter in the order `l r c g o e n m t i s d p`
    /// (13 for any other char).
    pub open spec fn letter_rank(c: char) -> int {
        if c == 'l' {
            0
        } else if c == 'r' {
            1
        } else if c == 'c' {
            2
        } else if c == 'g' {
            3
        } else if c == 'o' {
            4
        } else if c == 'e' {
            5
        } else if c == 'n' {
            6
        } else if c == 'm' {
            7
        } else if c == 't' {
            8
        } else if c == 'i' {
            9
        } else if c == 's' {
            10
        } else if c == 'd' {
            11
        } else if c == 'p' {
            12
        } else {
            13
        }
    }

    /// The letters are written in the order `l r c g o e n m t i s d p`, each
    /// at most once.
    pub proof fn lemma_written_order(x: BindFlags)
        ensures
            forall|i: int, j: int|
                0 <= i < j < x.spec_to_string().len() ==> Self::letter_rank(#[trigger] x.spec_to_string()[i])
                    < Self::letter_rank(#[trigger] x.spec_to_string()[j]),
    {
        x.lemma_positions(13);
        let p = x.positions_upto(13);
        assert forall|k: int| 0 <= k < 13 implies Self::letter_rank(#[trigger] flag_letters()[k]) == k by {}
        assert forall|i: int, j: int|
            0 <= i < j < x.spec_to_string().len() implies Self::letter_rank(#[trigger] x.spec_to_string()[i])
            < Self::letter_rank(#[trigger] x.spec_to_string()[j]) by {
            assert(p[i] < p[j]);
            assert(Self::letter_rank(flag_letters()[p[i]]) == p[i]);
            assert(Self::letter_rank(flag_letters()[p[j]]) == p[j]);
        }
    }

    /// Reading back what `to_string` writes gives the same flags.
    pub proof fn lemma_from_str_to_string(x: BindFlags)
        ensures
            Self::spec_from_str(x.spec_to_string()) == Ok::<Self, ()>(x),
    {
        let s = x.spec_to_string();
        assert forall|m: int| 0 <= m < s.len() implies !crate::text::is_ws(#[trigger] s[m]) by {
            x.lemma_letters_upto(13, 0);
            let c = s[m];
            assert(flag_letters().contains(c));
        }
        crate::text::lemma_no_ws_trim(s);
        let l = flag_letters();
        x.lemma_letters_upto(13, 0);
        x.lemma_letters_upto(13, 1);
        x.lemma_letters_upto(13, 2);
        x.lemma_letters_upto(13, 3);
        x.lemma_letters_upto(13, 4);
        x.lemma_letters_upto(13, 5);
        x.lemma_letters_upto(13, 6);
        x.lemma_letters_upto(13, 7);
        x.lemma_letters_upto(13, 8);
        x.lemma_letters_upto(13, 9);
        x.lemma_letters_upto(13, 10);
        x.lemma_letters_upto(13, 11);
        x.lemma_letters_upto(13, 12);
    }
}

/// `t` with `c` appended contains `x` exactly when `t` does or `c` is `x`.
pub proof fn lemma_contains_push(t: Seq<char>, c: char)
    ensures
        forall|x: char| #[trigger] t.push(c).contains(x) <==> (t.contains(x) || c == x),
{
    assert forall|x: char| #[trigger] t.push(c).contains(x) <==> (t.contains(x) || c == x) by {
        if t.contains(x) {
            let i = choose|i: int| 0 <= i < t.len() && t[i] == x;
            assert(t.push(c)[i] == x);
        }
        if c == x {
            assert(t.push(c)[t.len() as int] == x);
        }
        if t.push(c).contains(x) {
            let i = choose|i: int| 0 <= i < t.push(c).len() && t.push(c)[i] == x;
            if i < t.len() {
                assert(t[i] == x);
            }
        }
    }
}

} // verus!
