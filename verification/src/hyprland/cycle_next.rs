//! The arguments of the `cyclenext` dispatcher: direction and window filters.
use vstd::prelude::*;
use crate::text::{eq_str, is_word, join_with, lemma_join_ends, lemma_trim_ends, lemma_plain_is_word, lemma_seq_contains_push, lemma_words_join, push_joined, str_views, trim, trimmed, views, words, words_of};

verus! {

#[derive(Debug, Clone, Copy, PartialEq, Eq, Hash)]
pub struct CycleNext {
    pub is_prev: bool,
    pub is_tiled: bool,
    pub is_floating: bool,
    pub is_visible: bool,
    pub is_hist: bool,
}

impl Default for CycleNext {
    fn default() -> (r: Self)
        ensures
            r == (CycleNext {
                is_prev: false,
                is_tiled: false,
                is_floating: false,
                is_visible: false,
                is_hist: false,
            }),
    {
        CycleNext { is_prev: false, is_tiled: false, is_floating: false, is_visible: false, is_hist: false }
    }
}

/// The first word of `ws` that is `a` or `b`, if any.
pub open spec fn first_of(ws: Seq<Seq<char>>, a: Seq<char>, b: Seq<char>) -> Option<Seq<char>>
    decreases ws.len(),
{
    if ws.len() == 0 {
        None
    } else {
        let f = first_of(ws.drop_last(), a, b);
        if f is Some {
            f
        } else if ws.last() == a || ws.last() == b {
            Some(ws.last())
        } else {
            None
        }
    }
}

/// The word that `first_of` finds is one of the two it looks for.
pub proof fn lemma_first_of(ws: Seq<Seq<char>>, a: Seq<char>, b: Seq<char>)
    ensures
        first_of(ws, a, b) is Some ==> (first_of(ws, a, b)->0 == a || first_of(ws, a, b)->0 == b),
    decreases ws.len(),
{
    if ws.len() > 0 {
        lemma_first_of(ws.drop_last(), a, b);
    }
}

/// `x` occurs in `ws` with no `y` before it.
pub open spec fn occurs_before(ws: Seq<Seq<char>>, x: Seq<char>, y: Seq<char>) -> bool {
    exists|i: int| 0 <= i < ws.len() && #[trigger] ws[i] == x && forall|j: int| 0 <= j < i ==> ws[j] != y
}

/// `first_of` finds `b` exactly when `b` comes before any `a`, finds `a`
/// exactly when `a` comes before any `b`, and finds nothing when neither occurs.
pub proof fn lemma_first_of_occurs(ws: Seq<Seq<char>>, a: Seq<char>, b: Seq<char>)
    requires
        a != b,
    ensures
        (first_of(ws, a, b) == Some(b)) == occurs_before(ws, b, a),
        (first_of(ws, a, b) == Some(a)) == occurs_before(ws, a, b),
        (first_of(ws, a, b) is None) == (!ws.contains(a) && !ws.contains(b)),
    decreases ws.len(),
{
    if ws.len() == 0 {
        return;
    }
    let p = ws.drop_last();
    let n = p.len() as int;
    lemma_first_of_occurs(p, a, b);
    lemma_first_of(p, a, b);
    assert forall|i: int| 0 <= i < n implies #[trigger] ws[i] == p[i] by {}
    if first_of(p, a, b) == Some(b) {
        let i0 = choose|i: int| 0 <= i < p.len() && #[trigger] p[i] == b && forall|j: int| 0 <= j < i ==> p[j] != a;
        assert(ws[i0] == b);
        assert(occurs_before(ws, b, a));
        if occurs_before(ws, a, b) {
            let i = choose|i: int| 0 <= i < ws.len() && #[trigger] ws[i] == a && forall|j: int| 0 <= j < i ==> ws[j] != b;
            if i < i0 {
                assert(p[i] == a);
            } else {
                assert(ws[i0] == b);
            }
        }
        assert(ws.contains(b));
    } else if first_of(p, a, b) == Some(a) {
        let i0 = choose|i: int| 0 <= i < p.len() && #[trigger] p[i] == a && forall|j: int| 0 <= j < i ==> p[j] != b;
        assert(ws[i0] == a);
        assert(occurs_before(ws, a, b));
        if occurs_before(ws, b, a) {
            let i = choose|i: int| 0 <= i < ws.len() && #[trigger] ws[i] == b && forall|j: int| 0 <= j < i ==> ws[j] != a;
            if i < i0 {
                assert(p[i] == b);
            } else {
                assert(ws[i0] == a);
            }
        }
        assert(ws.contains(a));
    } else {
        assert(!p.contains(a) && !p.contains(b));
        assert forall|i: int| 0 <= i < n implies #[trigger] ws[i] != a && ws[i] != b by {
            assert(p[i] == ws[i]);
        }
        assert(ws[n] == ws.last());
        if occurs_before(ws, b, a) {
            let i = choose|i: int| 0 <= i < ws.len() && #[trigger] ws[i] == b && forall|j: int| 0 <= j < i ==> ws[j] != a;
            assert(i == n);
        }
        if occurs_before(ws, a, b) {
            let i = choose|i: int| 0 <= i < ws.len() && #[trigger] ws[i] == a && forall|j: int| 0 <= j < i ==> ws[j] != b;
            assert(i == n);
        }
        if ws.last() == b {
            assert(occurs_before(ws, b, a));
        }
        if ws.last() == a {
            assert(occurs_before(ws, a, b));
        }
        if ws.contains(a) {
            let i = choose|i: int| 0 <= i < ws.len() && ws[i] == a;
            assert(i == n);
        }
        if ws.contains(b) {
            let i = choose|i: int| 0 <= i < ws.len() && ws[i] == b;
            assert(i == n);
        }
    }
}

impl CycleNext {
    /// What `from_str` gives for the words of the trimmed text: of `next` and
    /// `prev`, and of `tiled` and `floating`, the first to come counts;
    /// `visible` and `hist` count wherever they come; other words are
    /// ignored. Empty text is an error.
    pub open spec fn spec_from_str(s: Seq<char>) -> Result<Self, ()> {
        let t = trim(s);
        if t.len() == 0 {
            Err(())
        } else {
            let w = words(t);
            Ok(
                CycleNext {
                    is_prev: first_of(w, "next"@, "prev"@) == Some("prev"@),
                    is_tiled: first_of(w, "tiled"@, "floating"@) == Some("tiled"@),
                    is_floating: first_of(w, "tiled"@, "floating"@) == Some("floating"@),
                    is_visible: w.contains("visible"@),
                    is_hist: w.contains("hist"@),
                },
            )
        }
    }

    /// The words that `to_string` writes, in order.
    pub open spec fn display_words(self) -> Seq<Seq<char>> {
        (if self.is_visible {
            seq!["visible"@]
        } else {
            Seq::empty()
        }) + seq![if self.is_prev { "prev"@ } else { "next"@ }] + (if self.is_tiled {
            seq!["tiled"@]
        } else if self.is_floating {
            seq!["floating"@]
        } else {
            Seq::empty()
        }) + (if self.is_hist {
            seq!["hist"@]
        } else {
            Seq::empty()
        })
    }

    /// What `to_string` writes: `visible`, `prev` or `next`, `tiled` or
    /// `floating`, and `hist`, as far as they apply, separated by spaces.
    pub open spec fn spec_to_string(self) -> Seq<char> {
        join_with(self.display_words(), ' ')
    }

    pub fn from_str(s: &str) -> (r: Result<Self, ()>)
        ensures
            r == Self::spec_from_str(s@),
    {
        let t = trimmed(s);
        if t.len() == 0 {
            return Err(());
        }
        let ws = words_of(&t);
        let mut direction: Option<bool> = None;
        let mut filter: Option<bool> = None;
        let mut is_visible = false;
        let mut is_hist = false;
        let mut k: usize = 0;
        while k < ws.len()
            invariant
                k <= ws.len(),
                views(ws@) == words(t@),
                direction == (match first_of(views(ws@).subrange(0, k as int), "next"@, "prev"@) {
                    Some(w) => Some(w == "prev"@),
                    None => None::<bool>,
                }),
                filter == (match first_of(views(ws@).subrange(0, k as int), "tiled"@, "floating"@) {
                    Some(w) => Some(w == "floating"@),
                    None => None::<bool>,
                }),
                is_visible == views(ws@).subrange(0, k as int).contains("visible"@),
                is_hist == views(ws@).subrange(0, k as int).contains("hist"@),
            decreases ws.len() - k,
        {
            let ghost pre = views(ws@).subrange(0, k as int);
            let ghost pre1 = views(ws@).subrange(0, k + 1);
            proof {
                assert(pre1.drop_last() =~= pre);
                assert(pre1.last() == ws@[k as int]@);
                assert(pre1 =~= pre.push(ws@[k as int]@));
                lemma_seq_contains_push(pre, ws@[k as int]@);
            }
            let w = &ws[k];
            if direction.is_none() {
                if eq_str(w, "next") {
                    direction = Some(false);
                } else if eq_str(w, "prev") {
                    direction = Some(true);
                }
            }
            if filter.is_none() {
                if eq_str(w, "tiled") {
                    filter = Some(false);
                } else if eq_str(w, "floating") {
                    filter = Some(true);
                }
            }
            if eq_str(w, "visible") {
                is_visible = true;
            }
            if eq_str(w, "hist") {
                is_hist = true;
            }
            proof {
                reveal_strlit("next");
                reveal_strlit("prev");
                reveal_strlit("tiled");
                reveal_strlit("floating");
                assert("next"@[0] != "prev"@[0]);
            }
            k += 1;
        }
        proof {
            assert(views(ws@).subrange(0, ws@.len() as int) =~= views(ws@));
            lemma_first_of(views(ws@), "tiled"@, "floating"@);
            lemma_first_of(views(ws@), "next"@, "prev"@);
            reveal_strlit("tiled");
            reveal_strlit("floating");
            reveal_strlit("prev");
            reveal_strlit("next");
            let w = words(trim(s@));
            assert(views(ws@) == w);
            assert((direction == Some(true)) == (first_of(w, "next"@, "prev"@) == Some("prev"@)));
            assert("tiled"@.len() != "floating"@.len());
            assert((filter == Some(false)) == (first_of(w, "tiled"@, "floating"@) == Some("tiled"@)));
            assert((filter == Some(true)) == (first_of(w, "tiled"@, "floating"@) == Some("floating"@)));
            assert(is_visible == w.contains("visible"@));
            assert(is_hist == w.contains("hist"@));
        }
        Ok(
            CycleNext {
                is_prev: direction == Some(true),
                is_tiled: filter == Some(false),
                is_floating: filter == Some(true),
                is_visible,
                is_hist,
            },
        )
    }

    pub fn to_string(&self) -> (r: String)
        ensures
            r@ == self.spec_to_string(),
    {
        let mut ws: Vec<&str> = Vec::new();
        if self.is_visible {
            ws.push("visible");
        }
        if self.is_prev {
            ws.push("prev");
        } else {
            ws.push("next");
        }
        if self.is_tiled {
            ws.push("tiled");
        } else if self.is_floating {
            ws.push("floating");
        }
        if self.is_hist {
            ws.push("hist");
        }
        proof {
            assert(str_views(ws@) =~= self.display_words());
        }
        let mut r = String::new();
        push_joined(&mut r, &ws, ' ');
        proof {
            assert(Seq::<char>::empty() + join_with(str_views(ws@), ' ') =~= self.spec_to_string());
        }
        r
    }

    /// Reading looks at the words of the trimmed text, in any order: the
    /// direction is `prev` when a `prev` comes before any `next`; the filter is
    /// `tiled` (or `floating`) when that word comes before the other one;
    /// `visible` and `hist` are set when the word occurs anywhere. Only an
    /// empty (or all-whitespace) text is refused.
    pub proof fn lemma_read_words(s: Seq<char>)
        ensures
            Self::spec_from_str(s) is Err <==> trim(s).len() == 0,
            Self::spec_from_str(s) is Ok ==> {
                let w = words(trim(s));
                let r = Self::spec_from_str(s)->Ok_0;
                &&& r.is_visible == w.contains("visible"@)
                &&& r.is_hist == w.contains("hist"@)
                &&& r.is_prev == occurs_before(w, "prev"@, "next"@)
                &&& r.is_tiled == occurs_before(w, "tiled"@, "floating"@)
                &&& r.is_floating == occurs_before(w, "floating"@, "tiled"@)
                &&& !(r.is_tiled && r.is_floating)
            },
    {
        reveal_strlit("next");
        reveal_strlit("prev");
        reveal_strlit("tiled");
        reveal_strlit("floating");
        assert("next"@[0] != "prev"@[0]);
        assert("tiled"@.len() != "floating"@.len());
        let w = words(trim(s));
        lemma_first_of_occurs(w, "next"@, "prev"@);
        lemma_first_of_occurs(w, "tiled"@, "floating"@);
    }

    /// What `to_string` writes holds the word `visible` exactly when visible
    /// is set, and then first; `prev` when the direction is back and `next`
    /// otherwise; `tiled` when tiled is set, `floating` when only floating is
    /// set; and `hist` exactly when hist is set.
    pub proof fn lemma_written_words(x: CycleNext)
        ensures
            words(x.spec_to_string()).contains("visible"@) == x.is_visible,
            x.is_visible ==> words(x.spec_to_string())[0] == "visible"@,
            words(x.spec_to_string()).contains("prev"@) == x.is_prev,
            words(x.spec_to_string()).contains("next"@) == !x.is_prev,
            words(x.spec_to_string()).contains("tiled"@) == x.is_tiled,
            words(x.spec_to_string()).contains("floating"@) == (x.is_floating && !x.is_tiled),
            words(x.spec_to_string()).contains("hist"@) == x.is_hist,
    {
        let lits = seq!["visible"@, "prev"@, "next"@, "tiled"@, "floating"@, "hist"@];
        reveal_strlit("visible");
        reveal_strlit("prev");
        reveal_strlit("next");
        reveal_strlit("tiled");
        reveal_strlit("floating");
        reveal_strlit("hist");
        assert("visible"@.len() != "prev"@.len());
        assert("visible"@.len() != "next"@.len());
        assert("visible"@.len() != "tiled"@.len());
        assert("visible"@.len() != "floating"@.len());
        assert("visible"@.len() != "hist"@.len());
        assert("prev"@[0] != "next"@[0]);
        assert("prev"@.len() != "tiled"@.len());
        assert("prev"@.len() != "floating"@.len());
        assert("prev"@[0] != "hist"@[0]);
        assert("next"@.len() != "tiled"@.len());
        assert("next"@.len() != "floating"@.len());
        assert("next"@[0] != "hist"@[0]);
        assert("tiled"@.len() != "floating"@.len());
        assert("tiled"@.len() != "hist"@.len());
        assert("floating"@.len() != "hist"@.len());
        let dw = x.display_words();
        lemma_plain_is_word("visible"@);
        lemma_plain_is_word("prev"@);
        lemma_plain_is_word("next"@);
        lemma_plain_is_word("tiled"@);
        lemma_plain_is_word("floating"@);
        lemma_plain_is_word("hist"@);
        assert forall|i: int| 0 <= i < dw.len() implies is_word(#[trigger] dw[i]) by {}
        lemma_words_join(dw);
        assert(words(x.spec_to_string()) == dw);
        let v: Seq<Seq<char>> = if x.is_visible { seq!["visible"@] } else { Seq::empty() };
        let d: Seq<Seq<char>> = seq![if x.is_prev { "prev"@ } else { "next"@ }];
        let f: Seq<Seq<char>> = if x.is_tiled {
            seq!["tiled"@]
        } else if x.is_floating {
            seq!["floating"@]
        } else {
            Seq::empty()
        };
        let h: Seq<Seq<char>> = if x.is_hist { seq!["hist"@] } else { Seq::empty() };
        assert(dw == v + d + f + h);
        assert forall|c: Seq<char>| #[trigger] dw.contains(c) <==> (v.contains(c) || d.contains(c) || f.contains(c)
            || h.contains(c)) by {
            if dw.contains(c) {
                let i = choose|i: int| 0 <= i < dw.len() && dw[i] == c;
                if i < v.len() {
                    assert(v[i] == c);
                } else if i < v.len() + d.len() {
                    assert(d[i - v.len()] == c);
                } else if i < v.len() + d.len() + f.len() {
                    assert(f[i - v.len() - d.len()] == c);
                } else {
                    assert(h[i - v.len() - d.len() - f.len()] == c);
                }
            }
            if v.contains(c) {
                let i = choose|i: int| 0 <= i < v.len() && v[i] == c;
                assert(dw[i] == c);
            }
            if d.contains(c) {
                let i = choose|i: int| 0 <= i < d.len() && d[i] == c;
                assert(dw[v.len() + i] == c);
            }
            if f.contains(c) {
                let i = choose|i: int| 0 <= i < f.len() && f[i] == c;
                assert(dw[v.len() + d.len() + i] == c);
            }
            if h.contains(c) {
                let i = choose|i: int| 0 <= i < h.len() && h[i] == c;
                assert(dw[v.len() + d.len() + f.len() + i] == c);
            }
        }
        assert(v.contains("visible"@) == x.is_visible) by {
            if x.is_visible {
                assert(v[0] == "visible"@);
            }
        }
        assert(d[0] == (if x.is_prev { "prev"@ } else { "next"@ }));
        assert(d.contains("prev"@) == x.is_prev) by {
            if x.is_prev {
                assert(d[0] == "prev"@);
            }
        }
        assert(d.contains("next"@) == !x.is_prev) by {
            if !x.is_prev {
                assert(d[0] == "next"@);
            }
        }
        assert(f.contains("tiled"@) == x.is_tiled) by {
            if x.is_tiled {
                assert(f[0] == "tiled"@);
            }
        }
        assert(f.contains("floating"@) == (x.is_floating && !x.is_tiled)) by {
            if x.is_floating && !x.is_tiled {
                assert(f[0] == "floating"@);
            }
        }
        assert(h.contains("hist"@) == x.is_hist) by {
            if x.is_hist {
                assert(h[0] == "hist"@);
            }
        }
        if x.is_visible {
            assert(dw[0] == v[0]);
        }
    }

    /// Reading back what `to_string` writes gives the same arguments, unless
    /// both `tiled` and `floating` are set (only `tiled` is written then).
    pub proof fn lemma_from_str_to_string(x: CycleNext)
        requires
            !(x.is_tiled && x.is_floating),
        ensures
            Self::spec_from_str(x.spec_to_string()) == Ok::<Self, ()>(x),
    {
        reveal_strlit("visible");
        reveal_strlit("prev");
        reveal_strlit("next");
        reveal_strlit("tiled");
        reveal_strlit("floating");
        reveal_strlit("hist");
        let dw = x.display_words();
        lemma_plain_is_word("visible"@);
        lemma_plain_is_word("prev"@);
        lemma_plain_is_word("next"@);
        lemma_plain_is_word("tiled"@);
        lemma_plain_is_word("floating"@);
        lemma_plain_is_word("hist"@);
        assert forall|i: int| 0 <= i < dw.len() implies is_word(#[trigger] dw[i]) by {}
        lemma_words_join(dw);
        let j = join_with(dw, ' ');
        lemma_join_ends(dw, ' ');
        assert(is_word(dw[0]));
        assert(is_word(dw[dw.len() - 1]));
        assert(!crate::text::is_ws(dw[0][0]));
        assert(!crate::text::is_ws(dw.last()[dw.last().len() - 1]));
        lemma_trim_ends(j);
        assert("hist"@[0] != "next"@[0]);
        assert("hist"@[0] != "prev"@[0]);
        assert("next"@[0] != "prev"@[0]);
        reveal_with_fuel(first_of, 5);
        assert(dw.contains("visible"@) == x.is_visible) by {
            if x.is_visible {
                assert(dw[0] == "visible"@);
            }
        }
        assert(dw.contains("hist"@) == x.is_hist) by {
            if x.is_hist {
                assert(dw[dw.len() - 1] == "hist"@);
            }
        }
    }
}

} // verus!
