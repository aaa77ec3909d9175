//! Char-level text handling: whitespace trimming, ASCII case folding,
//! splitting, and building strings, each specified over `Seq<char>`.
use vstd::prelude::*;

verus! {

/// The chars that `char::is_whitespace` accepts (the Unicode `White_Space` property).
pub open spec fn is_ws(c: char) -> bool {
    ||| ('\u{9}' <= c && c <= '\u{d}')
    ||| c == ' '
    ||| c == '\u{85}'
    ||| c == '\u{a0}'
    ||| c == '\u{1680}'
    ||| ('\u{2000}' <= c && c <= '\u{200a}')
    ||| c == '\u{2028}'
    ||| c == '\u{2029}'
    ||| c == '\u{202f}'
    ||| c == '\u{205f}'
    ||| c == '\u{3000}'
}

/// `s` without its leading whitespace (`str::trim_start`).
pub open spec fn trim_start(s: Seq<char>) -> Seq<char>
    decreases s.len(),
{
    if s.len() > 0 && is_ws(s[0]) {
        trim_start(s.drop_first())
    } else {
        s
    }
}

/// `s` without its trailing whitespace (`str::trim_end`).
pub open spec fn trim_end(s: Seq<char>) -> Seq<char>
    decreases s.len(),
{
    if s.len() > 0 && is_ws(s.last()) {
        trim_end(s.drop_last())
    } else {
        s
    }
}

/// `s` without leading and trailing whitespace (`str::trim`).
pub open spec fn trim(s: Seq<char>) -> Seq<char> {
    trim_end(trim_start(s))
}

fn is_ws_exec(c: char) -> (b: bool)
    ensures
        b == is_ws(c),
{
    ('\u{9}' <= c && c <= '\u{d}') || c == ' ' || c == '\u{85}' || c == '\u{a0}' || c
        == '\u{1680}' || ('\u{2000}' <= c && c <= '\u{200a}') || c == '\u{2028}' || c
        == '\u{2029}' || c == '\u{202f}' || c == '\u{205f}' || c == '\u{3000}'
}

/// The chars of a string slice, in order.
pub fn chars_of(s: &str) -> (v: Vec<char>)
    ensures
        v@ == s@,
{
    let mut v: Vec<char> = Vec::new();
    for c in it: s.chars()
        invariant
            v@ == it.seq().take(it.index() as int),
            it.seq() == s@,
    {
        v.push(c);
    }
    v
}


/// A copy of `v[a..b]`.
pub fn sub_chars(v: &Vec<char>, a: usize, b: usize) -> (r: Vec<char>)
    requires
        a <= b <= v.len(),
    ensures
        r@ == v@.subrange(a as int, b as int),
{
    let mut r: Vec<char> = Vec::new();
    let mut k = a;
    while k < b
        invariant
            a <= k <= b <= v.len(),
            r@ == v@.subrange(a as int, k as int),
        decreases b - k,
    {
        r.push(v[k]);
        proof {
            assert(v@.subrange(a as int, k + 1) =~= v@.subrange(a as int, k as int).push(v@[k as int]));
        }
        k += 1;
    }
    r
}

/// The chars of `v` without leading and trailing whitespace.
pub fn trim_chars(v: &Vec<char>) -> (r: Vec<char>)
    ensures
        r@ == trim(v@),
{
    let n = v.len();
    let mut i: usize = 0;
    proof {
        assert(v@.subrange(0, n as int) =~= v@);
    }
    while i < n && is_ws_exec(v[i])
        invariant
            i <= n,
            n == v.len(),
            trim_start(v@) == trim_start(v@.subrange(i as int, n as int)),
        decreases n - i,
    {
        proof {
            assert(v@.subrange(i as int, n as int).drop_first() =~= v@.subrange(i + 1, n as int));
        }
        i += 1;
    }
    let mut j: usize = n;
    while j > i && is_ws_exec(v[j - 1])
        invariant
            i <= j <= n,
            n == v.len(),
            trim_start(v@) == v@.subrange(i as int, n as int),
            trim_end(v@.subrange(i as int, n as int)) == trim_end(v@.subrange(i as int, j as int)),
        decreases j - i,
    {
        proof {
            assert(v@.subrange(i as int, j as int).drop_last() =~= v@.subrange(i as int, j - 1));
        }
        j -= 1;
    }
    sub_chars(v, i, j)
}

/// ASCII case folding, with the Kelvin sign folded to `k`.
///
/// For any `k` made only of ASCII chars other than the uppercase letters,
/// `t.to_lowercase() == k` holds exactly when `t` folded char by char is `k`:
/// `'A'..='Z'` and U+212A are the only chars whose lowercase form is an ASCII
/// char, and every other char lowers to chars outside ASCII.
pub open spec fn fold_char(c: char) -> char {
    if 'A' <= c && c <= 'Z' {
        ((c as u32) + 32) as char
    } else if c == '\u{212a}' {
        'k'
    } else {
        c
    }
}

/// `fold_char` applied to every char of `s`.
pub open spec fn fold(s: Seq<char>) -> Seq<char> {
    s.map_values(|c: char| fold_char(c))
}

fn fold_char_exec(c: char) -> (r: char)
    ensures
        r == fold_char(c),
{
    if 'A' <= c && c <= 'Z' {
        let b: u8 = (c as u8) + 32;
        b as char
    } else if c == '\u{212a}' {
        'k'
    } else {
        c
    }
}

/// The chars of `v`, case-folded.
pub fn fold_chars(v: &Vec<char>) -> (r: Vec<char>)
    ensures
        r@ == fold(v@),
{
    let mut r: Vec<char> = Vec::new();
    let mut k: usize = 0;
    while k < v.len()
        invariant
            k <= v.len(),
            r@ == fold(v@.subrange(0, k as int)),
        decreases v.len() - k,
    {
        let c = fold_char_exec(v[k]);
        r.push(c);
        proof {
            assert(fold(v@.subrange(0, k + 1)) =~= fold(v@.subrange(0, k as int)).push(fold_char(v@[k as int])));
        }
        k += 1;
    }
    proof {
        assert(v@.subrange(0, v.len() as int) =~= v@);
    }
    r
}

/// The chars of `s`, trimmed and case-folded.
pub fn trimmed_folded(s: &str) -> (r: Vec<char>)
    ensures
        r@ == fold(trim(s@)),
{
    let v = chars_of(s);
    let t = trim_chars(&v);
    fold_chars(&t)
}

/// The chars of `s`, trimmed.
pub fn trimmed(s: &str) -> (r: Vec<char>)
    ensures
        r@ == trim(s@),
{
    let v = chars_of(s);
    trim_chars(&v)
}

/// Whether `v` holds exactly the chars of `lit`.
pub fn eq_str(v: &Vec<char>, lit: &str) -> (b: bool)
    ensures
        b == (v@ == lit@),
{
    let w = chars_of(lit);
    if v.len() != w.len() {
        return false;
    }
    let mut k: usize = 0;
    while k < v.len()
        invariant
            k <= v.len(),
            v.len() == w.len(),
            w@ == lit@,
            forall|m: int| 0 <= m < k ==> v@[m] == w@[m],
        decreases v.len() - k,
    {
        if v[k] != w[k] {
            return false;
        }
        k += 1;
    }
    proof {
        assert(v@ =~= w@);
    }
    true
}

/// Appends `c` to `s` by `String::push`, whose contract here claims that
/// the chars of `s` afterwards are those before it followed by `c`.
#[verifier::external_body]
pub(crate) fn push_char(s: &mut String, c: char)
    ensures
        final(s)@ == old(s)@.push(c),
{
    s.push(c);
}

/// Appends the chars of `v` to `s`.
pub fn push_chars(s: &mut String, v: &Vec<char>)
    ensures
        final(s)@ == old(s)@ + v@,
{
    let ghost s0 = s@;
    let mut k: usize = 0;
    while k < v.len()
        invariant
            k <= v.len(),
            s@ == s0 + v@.subrange(0, k as int),
        decreases v.len() - k,
    {
        push_char(s, v[k]);
        proof {
            assert(s0 + v@.subrange(0, k + 1) =~= (s0 + v@.subrange(0, k as int)).push(v@[k as int]));
        }
        k += 1;
    }
    proof {
        assert(v@.subrange(0, v.len() as int) =~= v@);
    }
}

/// Appends the chars of `lit` to `s`.
pub fn push_str(s: &mut String, lit: &str)
    ensures
        final(s)@ == old(s)@ + lit@,
{
    let v = chars_of(lit);
    push_chars(s, &v);
}

/// A string holding the chars of `v`.
pub fn string_of(v: &Vec<char>) -> (r: String)
    ensures
        r@ == v@,
{
    let mut r = String::new();
    push_chars(&mut r, v);
    proof {
        assert(Seq::<char>::empty() + v@ =~= v@);
    }
    r
}

/// A string holding the chars of `lit`.
pub fn string_from(lit: &str) -> (r: String)
    ensures
        r@ == lit@,
{
    let v = chars_of(lit);
    string_of(&v)
}

} // verus!

verus! {

/// A char that neither trimming nor case folding touches.
pub open spec fn is_plain(c: char) -> bool {
    ('a' <= c && c <= 'z') || ('0' <= c && c <= '9') || c == '-' || c == '_' || c == '.' || c == ','
}

/// A word made of plain chars is its own trimmed, case-folded form.
pub proof fn lemma_plain_word(s: Seq<char>)
    requires
        forall|i: int| 0 <= i < s.len() ==> is_plain(#[trigger] s[i]),
    ensures
        trim(s) == s,
        fold(s) == s,
        trim_start(s) == s,
        trim_end(s) == s,
{
    assert(fold(s) =~= s);
}

} // verus!

verus! {

/// A sequence that neither starts nor ends with whitespace is its own trimmed form.
pub proof fn lemma_no_ws_trim(s: Seq<char>)
    requires
        forall|i: int| 0 <= i < s.len() ==> !is_ws(#[trigger] s[i]),
    ensures
        trim(s) == s,
{
}

} // verus!

verus! {

/// Whether `v` begins with the chars of `lit`; if so, also the chars after them.
pub fn strip_prefix_str(v: &Vec<char>, lit: &str) -> (r: Option<Vec<char>>)
    ensures
        r is Some <==> (lit@.len() <= v@.len() && v@.subrange(0, lit@.len() as int) == lit@),
        r matches Some(rest) ==> rest@ == v@.subrange(lit@.len() as int, v@.len() as int),
{
    let w = chars_of(lit);
    if w.len() > v.len() {
        return None;
    }
    let mut k: usize = 0;
    while k < w.len()
        invariant
            k <= w.len() <= v.len(),
            w@ == lit@,
            forall|m: int| 0 <= m < k ==> v@[m] == w@[m],
        decreases w.len() - k,
    {
        if v[k] != w[k] {
            proof {
                assert(v@.subrange(0, w@.len() as int)[k as int] != lit@[k as int]);
            }
            return None;
        }
        k += 1;
    }
    proof {
        assert(v@.subrange(0, w@.len() as int) =~= lit@);
    }
    Some(sub_chars(v, w.len(), v.len()))
}

/// Whether `v` ends with the chars of `lit`; if so, also the chars before them.
pub fn strip_suffix_str(v: &Vec<char>, lit: &str) -> (r: Option<Vec<char>>)
    ensures
        r is Some <==> (lit@.len() <= v@.len() && v@.subrange(v@.len() - lit@.len(), v@.len() as int)
            == lit@),
        r matches Some(rest) ==> rest@ == v@.subrange(0, v@.len() - lit@.len()),
{
    let w = chars_of(lit);
    if w.len() > v.len() {
        return None;
    }
    let start = v.len() - w.len();
    let mut k: usize = 0;
    while k < w.len()
        invariant
            k <= w.len() <= v.len(),
            start == v.len() - w.len(),
            w@ == lit@,
            forall|m: int| 0 <= m < k ==> v@[start + m] == w@[m],
        decreases w.len() - k,
    {
        if v[start + k] != w[k] {
            proof {
                assert(v@.subrange(start as int, v@.len() as int)[k as int] != lit@[k as int]);
            }
            return None;
        }
        k += 1;
    }
    proof {
        assert(v@.subrange(start as int, v@.len() as int) =~= lit@);
    }
    Some(sub_chars(v, 0, start))
}

} // verus!

verus! {

/// The pieces of `s` between the occurrences of `sep`, as `str::split` gives
/// them (empty pieces included; no `sep` gives `s` alone).
pub open spec fn split(s: Seq<char>, sep: char) -> Seq<Seq<char>>
    decreases s.len(),
{
    if s.len() == 0 {
        seq![Seq::empty()]
    } else {
        let p = split(s.drop_last(), sep);
        if s.last() == sep {
            p.push(Seq::empty())
        } else {
            p.update(p.len() - 1, p.last().push(s.last()))
        }
    }
}

/// The views of a sequence of char vectors.
pub open spec fn views(p: Seq<Vec<char>>) -> Seq<Seq<char>> {
    p.map_values(|x: Vec<char>| x@)
}

pub proof fn lemma_split_len(s: Seq<char>, sep: char)
    ensures
        split(s, sep).len() >= 1,
    decreases s.len(),
{
    if s.len() > 0 {
        lemma_split_len(s.drop_last(), sep);
    }
}

/// A piece free of `sep` after `p` and a `sep` adds itself as the last piece.
pub proof fn lemma_split_append(p: Seq<char>, sep: char, w: Seq<char>)
    requires
        !w.contains(sep),
    ensures
        split(p + seq![sep] + w, sep) == split(p, sep).push(w),
    decreases w.len(),
{
    let s = p + seq![sep] + w;
    if w.len() == 0 {
        assert(s.drop_last() =~= p);
        assert(s.last() == sep);
        assert(w =~= Seq::<char>::empty());
        assert(split(s, sep) == split(p, sep).push(Seq::empty()));
    } else {
        let w1 = w.drop_last();
        assert(s.drop_last() =~= p + seq![sep] + w1);
        assert(!w1.contains(sep)) by {
            if w1.contains(sep) {
                let i = choose|i: int| 0 <= i < w1.len() && w1[i] == sep;
                assert(w[i] == sep);
            }
        }
        lemma_split_append(p, sep, w1);
        assert(s.last() == w.last());
        assert(w.last() != sep) by {
            assert(w[w.len() - 1] == w.last());
        }
        assert(w1.push(w.last()) =~= w);
        assert(split(s, sep) =~= split(p, sep).push(w));
    }
}

/// A text free of `sep` is a single piece.
pub proof fn lemma_split_single(w: Seq<char>, sep: char)
    requires
        !w.contains(sep),
    ensures
        split(w, sep) == seq![w],
    decreases w.len(),
{
    if w.len() > 0 {
        let w1 = w.drop_last();
        assert(!w1.contains(sep)) by {
            if w1.contains(sep) {
                let i = choose|i: int| 0 <= i < w1.len() && w1[i] == sep;
                assert(w[i] == sep);
            }
        }
        lemma_split_single(w1, sep);
        assert(w.last() != sep) by {
            assert(w[w.len() - 1] == w.last());
        }
        assert(w1.push(w.last()) =~= w);
        assert(split(w, sep) =~= seq![w]);
    } else {
        assert(w =~= Seq::<char>::empty());
        assert(split(w, sep) =~= seq![w]);
    }
}

/// The pieces of `v` between the occurrences of `sep` (`str::split`).
pub fn split_chars(v: &Vec<char>, sep: char) -> (r: Vec<Vec<char>>)
    ensures
        views(r@) == split(v@, sep),
{
    let mut pieces: Vec<Vec<char>> = Vec::new();
    let mut cur: Vec<char> = Vec::new();
    let mut k: usize = 0;
    proof {
        assert(v@.subrange(0, 0) =~= Seq::<char>::empty());
        assert(views(pieces@).push(cur@) =~= split(Seq::<char>::empty(), sep));
    }
    while k < v.len()
        invariant
            k <= v.len(),
            split(v@.subrange(0, k as int), sep) == views(pieces@).push(cur@),
        decreases v.len() - k,
    {
        let ghost pre = v@.subrange(0, k as int);
        let ghost old_pieces = pieces@;
        let ghost old_cur = cur@;
        proof {
            assert(v@.subrange(0, k + 1).drop_last() =~= pre);
            assert(v@.subrange(0, k + 1).last() == v@[k as int]);
        }
        if v[k] == sep {
            let done = cur;
            cur = Vec::new();
            pieces.push(done);
            proof {
                assert(views(pieces@) =~= views(old_pieces).push(old_cur));
                assert(split(v@.subrange(0, k + 1), sep) =~= views(pieces@).push(cur@));
            }
        } else {
            cur.push(v[k]);
            proof {
                assert(split(v@.subrange(0, k + 1), sep) =~= views(pieces@).push(cur@));
            }
        }
        k += 1;
    }
    proof {
        assert(v@.subrange(0, v@.len() as int) =~= v@);
    }
    let ghost before = pieces@;
    pieces.push(cur);
    proof {
        assert(views(pieces@) =~= views(before).push(pieces@.last()@));
    }
    pieces
}

/// The words of `s`: the pieces between whitespace, without empty ones
/// (`str::split_whitespace`).
pub open spec fn words(s: Seq<char>) -> Seq<Seq<char>>
    decreases s.len(),
{
    if s.len() == 0 {
        Seq::empty()
    } else if is_ws(s.last()) {
        words(s.drop_last())
    } else if s.len() == 1 || is_ws(s[s.len() - 2]) {
        words(s.drop_last()).push(seq![s.last()])
    } else {
        let w = words(s.drop_last());
        w.update(w.len() - 1, w.last().push(s.last()))
    }
}

/// A text that ends in a non-whitespace char has a word.
pub proof fn lemma_words_nonempty(s: Seq<char>)
    requires
        s.len() > 0,
        !is_ws(s.last()),
    ensures
        words(s).len() > 0,
    decreases s.len(),
{
    if s.len() > 1 && !is_ws(s[s.len() - 2]) {
        assert(s.drop_last().last() == s[s.len() - 2]);
        lemma_words_nonempty(s.drop_last());
    }
}

/// The words of `v` (`str::split_whitespace`).
pub fn words_of(v: &Vec<char>) -> (r: Vec<Vec<char>>)
    ensures
        views(r@) == words(v@),
{
    let mut pieces: Vec<Vec<char>> = Vec::new();
    let mut cur: Vec<char> = Vec::new();
    let mut k: usize = 0;
    proof {
        assert(v@.subrange(0, 0) =~= Seq::<char>::empty());
        assert(views(pieces@) =~= words(Seq::<char>::empty()));
    }
    while k < v.len()
        invariant
            k <= v.len(),
            cur@.len() == 0 ==> words(v@.subrange(0, k as int)) == views(pieces@),
            cur@.len() > 0 ==> words(v@.subrange(0, k as int)) == views(pieces@).push(cur@),
            cur@.len() > 0 <==> (k > 0 && !is_ws(v@[k - 1])),
        decreases v.len() - k,
    {
        let ghost pre = v@.subrange(0, k as int);
        let ghost old_pieces = pieces@;
        let ghost old_cur = cur@;
        proof {
            assert(v@.subrange(0, k + 1).drop_last() =~= pre);
            assert(v@.subrange(0, k + 1).last() == v@[k as int]);
            if k > 0 {
                assert(v@.subrange(0, k + 1)[k - 1] == v@[k - 1]);
            }
        }
        if is_ws_exec(v[k]) {
            if cur.len() > 0 {
                let done = cur;
                cur = Vec::new();
                pieces.push(done);
                proof {
                    assert(views(pieces@) =~= views(old_pieces).push(old_cur));
                }
            }
        } else {
            cur.push(v[k]);
            proof {
                if old_cur.len() == 0 {
                    assert(cur@ =~= seq![v@[k as int]]);
                }
                assert(words(v@.subrange(0, k + 1)) =~= views(pieces@).push(cur@));
            }
        }
        k += 1;
    }
    proof {
        assert(v@.subrange(0, v@.len() as int) =~= v@);
    }
    if cur.len() > 0 {
        let ghost before = pieces@;
        pieces.push(cur);
        proof {
            assert(views(pieces@) =~= views(before).push(pieces@.last()@));
        }
    }
    pieces
}

} // verus!

verus! {

/// `t` with `c` appended contains `x` exactly when `t` does or `c` is `x`.
pub proof fn lemma_seq_contains_push<A>(t: Seq<A>, c: A)
    ensures
        forall|x: A| #[trigger] t.push(c).contains(x) <==> (t.contains(x) || c == x),
{
    assert forall|x: A| #[trigger] t.push(c).contains(x) <==> (t.contains(x) || c == x) by {
        if t.contains(x) {
            let i = choose|i: int| 0 <= i < t.len() && t[i] == x;
            assert(t.push(c)[i] == x);
        }
        if c == x {
            assert(t.push(c)[t.len() as int] == x);
        }
        if t.push(c).contains(x) {
            let i = choose|i: int| 0 <= i < t.push(c).len() && t.push(c)[i] == x;
            if i < t.len() {
                assert(t[i] == x);
            }
        }
    }
}

/// A nonempty word free of whitespace.
pub open spec fn is_word(w: Seq<char>) -> bool {
    w.len() > 0 && forall|i: int| 0 <= i < w.len() ==> !is_ws(#[trigger] w[i])
}

/// The pieces joined by `sep`.
pub open spec fn join_with(ws: Seq<Seq<char>>, sep: char) -> Seq<char>
    decreases ws.len(),
{
    if ws.len() == 0 {
        Seq::empty()
    } else if ws.len() == 1 {
        ws[0]
    } else {
        join_with(ws.drop_last(), sep) + seq![sep] + ws.last()
    }
}

/// The views of a sequence of string slices.
pub open spec fn str_views(p: Seq<&str>) -> Seq<Seq<char>> {
    p.map_values(|x: &str| x@)
}

/// Appends the strings of `ws` to `r`, joined by `sep`.
pub fn push_joined(r: &mut String, ws: &Vec<&str>, sep: char)
    ensures
        final(r)@ == old(r)@ + join_with(str_views(ws@), sep),
{
    let ghost r0 = r@;
    let mut k: usize = 0;
    proof {
        assert(str_views(ws@).subrange(0, 0) =~= Seq::<Seq<char>>::empty());
        assert(r0 + join_with(Seq::<Seq<char>>::empty(), sep) =~= r0);
    }
    while k < ws.len()
        invariant
            k <= ws.len(),
            r@ == r0 + join_with(str_views(ws@).subrange(0, k as int), sep),
        decreases ws.len() - k,
    {
        let ghost before = r@;
        let ghost m = str_views(ws@).subrange(0, k + 1);
        proof {
            assert(m.drop_last() =~= str_views(ws@).subrange(0, k as int));
            assert(m.last() == ws@[k as int]@);
        }
        if k > 0 {
            push_char(r, sep);
        }
        push_str(r, ws[k]);
        proof {
            if k == 0 {
                assert(m =~= seq![ws@[0]@]);
                assert(r@ =~= r0 + join_with(m, sep));
            } else {
                assert(r@ =~= r0 + join_with(m, sep));
            }
        }
        k += 1;
    }
    proof {
        assert(str_views(ws@).subrange(0, ws@.len() as int) =~= str_views(ws@));
    }
}

/// A word after a space is the last word.
pub proof fn lemma_words_append(p: Seq<char>, w: Seq<char>)
    requires
        is_word(w),
    ensures
        words(p + seq![' '] + w) == words(p).push(w),
    decreases w.len(),
{
    let s = p + seq![' '] + w;
    assert(s.last() == w[w.len() - 1]);
    assert(!is_ws(s.last()));
    assert(is_ws(' '));
    if w.len() == 1 {
        assert(s.drop_last() =~= p + seq![' ']);
        assert((p + seq![' ']).drop_last() =~= p);
        assert((p + seq![' ']).last() == ' ');
        assert(s[s.len() - 2] == ' ');
        assert(seq![s.last()] =~= w);
        assert(words(p + seq![' ']) == words(p));
        assert(words(s) == words(s.drop_last()).push(seq![s.last()]));
    } else {
        let w1 = w.drop_last();
        assert(is_word(w1)) by {
            assert forall|i: int| 0 <= i < w1.len() implies !is_ws(#[trigger] w1[i]) by {
                assert(w1[i] == w[i]);
            }
        }
        lemma_words_append(p, w1);
        assert(s.drop_last() =~= p + seq![' '] + w1);
        assert(s[s.len() - 2] == w[w.len() - 2]);
        assert(!is_ws(s[s.len() - 2]));
        assert(w1.push(s.last()) =~= w);
        let ww = words(s.drop_last());
        assert(ww == words(p).push(w1));
        assert(words(s) == ww.update(ww.len() - 1, ww.last().push(s.last())));
        assert(words(s) =~= words(p).push(w));
    }
}

/// A single word is its own only word.
pub proof fn lemma_words_single(w: Seq<char>)
    requires
        is_word(w),
    ensures
        words(w) == seq![w],
    decreases w.len(),
{
    assert(w.last() == w[w.len() - 1]);
    assert(!is_ws(w.last()));
    if w.len() == 1 {
        assert(w.drop_last() =~= Seq::<char>::empty());
        assert(words(w.drop_last()) =~= Seq::<Seq<char>>::empty());
        assert(seq![w.last()] =~= w);
    } else {
        let w1 = w.drop_last();
        assert(is_word(w1)) by {
            assert forall|i: int| 0 <= i < w1.len() implies !is_ws(#[trigger] w1[i]) by {
                assert(w1[i] == w[i]);
            }
        }
        lemma_words_single(w1);
        assert(w[w.len() - 2] == w1.last());
        assert(!is_ws(w[w.len() - 2]));
        assert(w1.push(w.last()) =~= w);
        assert(words(w) =~= seq![w]);
    }
}

/// Splitting words joined by spaces gives the words back.
pub proof fn lemma_words_join(ws: Seq<Seq<char>>)
    requires
        forall|i: int| 0 <= i < ws.len() ==> is_word(#[trigger] ws[i]),
    ensures
        words(join_with(ws, ' ')) == ws,
    decreases ws.len(),
{
    if ws.len() == 0 {
        assert(words(Seq::<char>::empty()) =~= ws);
    } else if ws.len() == 1 {
        lemma_words_single(ws[0]);
        assert(seq![ws[0]] =~= ws);
    } else {
        let w1 = ws.drop_last();
        assert forall|i: int| 0 <= i < w1.len() implies is_word(#[trigger] w1[i]) by {
            assert(w1[i] == ws[i]);
        }
        lemma_words_join(w1);
        assert(is_word(ws[ws.len() - 1]));
        lemma_words_append(join_with(w1, ' '), ws.last());
        assert(w1.push(ws.last()) =~= ws);
    }
}

/// A word made of plain chars is a word.
pub proof fn lemma_plain_is_word(w: Seq<char>)
    requires
        w.len() > 0,
        forall|i: int| 0 <= i < w.len() ==> is_plain(#[trigger] w[i]),
    ensures
        is_word(w),
{
}

} // verus!

verus! {

/// Text that neither starts nor ends with whitespace is its own trimmed form.
pub proof fn lemma_trim_ends(s: Seq<char>)
    requires
        s.len() > 0,
        !is_ws(s[0]),
        !is_ws(s.last()),
    ensures
        trim(s) == s,
{
    assert(trim_start(s) == s);
}

/// Joined pieces start with the first char of the first piece and end with
/// the last char of the last piece.
pub proof fn lemma_join_ends(ws: Seq<Seq<char>>, sep: char)
    requires
        ws.len() > 0,
        forall|i: int| 0 <= i < ws.len() ==> (#[trigger] ws[i]).len() > 0,
    ensures
        join_with(ws, sep).len() > 0,
        join_with(ws, sep)[0] == ws[0][0],
        join_with(ws, sep).last() == ws.last().last(),
    decreases ws.len(),
{
    if ws.len() > 1 {
        let w1 = ws.drop_last();
        assert forall|i: int| 0 <= i < w1.len() implies (#[trigger] w1[i]).len() > 0 by {
            assert(w1[i] == ws[i]);
        }
        lemma_join_ends(w1, sep);
        assert(ws[ws.len() - 1].len() > 0);
        let j = join_with(ws, sep);
        assert(j == join_with(w1, sep) + seq![sep] + ws.last());
        assert(j[0] == join_with(w1, sep)[0]);
        assert(j.last() == ws.last()[ws.last().len() - 1]);
    }
}

} // verus!

verus! {

/// `s` begins with `p`.
pub open spec fn starts_with(s: Seq<char>, p: Seq<char>) -> bool {
    p.len() <= s.len() && s.subrange(0, p.len() as int) == p
}

/// Every char of `s` is ASCII.
pub open spec fn all_ascii(s: Seq<char>) -> bool {
    forall|i: int| 0 <= i < s.len() ==> (#[trigger] s[i] as u32) < 128
}

/// Whether `v` begins with the chars of `lit` (`str::starts_with`).
pub fn starts_with_str(v: &Vec<char>, lit: &str) -> (b: bool)
    ensures
        b == starts_with(v@, lit@),
{
    strip_prefix_str(v, lit).is_some()
}

/// Whether every char of `v` is ASCII (`str::is_ascii`).
pub fn all_ascii_chars(v: &Vec<char>) -> (b: bool)
    ensures
        b == all_ascii(v@),
{
    let mut k: usize = 0;
    while k < v.len()
        invariant
            k <= v.len(),
            forall|i: int| 0 <= i < k ==> (#[trigger] v@[i] as u32) < 128,
        decreases v.len() - k,
    {
        if (v[k] as u32) >= 128 {
            return false;
        }
        k += 1;
    }
    true
}

} // verus!

verus! {

/// Two pieces joined.
pub proof fn lemma_join2(a: Seq<char>, b: Seq<char>, sep: char)
    ensures
        join_with(seq![a, b], sep) == a + seq![sep] + b,
{
    assert(seq![a, b].drop_last() =~= seq![a]);
    assert(seq![a, b].last() == b);
    assert(join_with(seq![a], sep) == a);
}

/// Three pieces joined.
pub proof fn lemma_join3(a: Seq<char>, b: Seq<char>, c: Seq<char>, sep: char)
    ensures
        join_with(seq![a, b, c], sep) == a + seq![sep] + b + seq![sep] + c,
{
    assert(seq![a, b, c].drop_last() =~= seq![a, b]);
    lemma_join2(a, b, sep);
}

/// Four pieces joined.
pub proof fn lemma_join4(a: Seq<char>, b: Seq<char>, c: Seq<char>, d: Seq<char>, sep: char)
    ensures
        join_with(seq![a, b, c, d], sep) == a + seq![sep] + b + seq![sep] + c + seq![sep] + d,
{
    assert(seq![a, b, c, d].drop_last() =~= seq![a, b, c]);
    lemma_join3(a, b, c, sep);
}

} // verus!

verus! {

/// Joined text is ASCII when both parts are.
pub proof fn lemma_ascii_concat(a: Seq<char>, b: Seq<char>)
    requires
        all_ascii(a),
        all_ascii(b),
    ensures
        all_ascii(a + b),
{
    assert forall|i: int| 0 <= i < (a + b).len() implies ((#[trigger] (a + b)[i]) as u32) < 128 by {
        if i < a.len() {
            assert((a + b)[i] == a[i]);
        } else {
            assert((a + b)[i] == b[i - a.len()]);
        }
    }
}

} // verus!

verus! {

/// `s` holds no whitespace.
pub open spec fn no_ws(s: Seq<char>) -> bool {
    forall|i: int| 0 <= i < s.len() ==> !is_ws(#[trigger] s[i])
}

/// Text without whitespace joined to text without whitespace has none.
pub proof fn lemma_no_ws_concat(a: Seq<char>, b: Seq<char>)
    requires
        no_ws(a),
        no_ws(b),
    ensures
        no_ws(a + b),
{
    assert forall|i: int| 0 <= i < (a + b).len() implies !is_ws(#[trigger] (a + b)[i]) by {
        if i < a.len() {
            assert((a + b)[i] == a[i]);
        } else {
            assert((a + b)[i] == b[i - a.len()]);
        }
    }
}

} // verus!

verus! {

/// Pieces free of `sep`, joined by `sep`, split back into themselves.
pub proof fn lemma_split_join(ws: Seq<Seq<char>>, sep: char)
    requires
        ws.len() > 0,
        forall|i: int| 0 <= i < ws.len() ==> !(#[trigger] ws[i]).contains(sep),
    ensures
        split(join_with(ws, sep), sep) == ws,
    decreases ws.len(),
{
    if ws.len() == 1 {
        assert(!ws[0].contains(sep));
        lemma_split_single(ws[0], sep);
        assert(seq![ws[0]] =~= ws);
    } else {
        let w1 = ws.drop_last();
        assert forall|i: int| 0 <= i < w1.len() implies !(#[trigger] w1[i]).contains(sep) by {
            assert(w1[i] == ws[i]);
        }
        lemma_split_join(w1, sep);
        assert(!ws[ws.len() - 1].contains(sep));
        lemma_split_append(join_with(w1, sep), sep, ws.last());
        assert(w1.push(ws.last()) =~= ws);
    }
}

/// Joining two nonempty lists of pieces is joining each and putting `sep`
/// between them.
pub proof fn lemma_join_concat(a: Seq<Seq<char>>, b: Seq<Seq<char>>, sep: char)
    requires
        a.len() > 0,
        b.len() > 0,
    ensures
        join_with(a + b, sep) == join_with(a, sep) + seq![sep] + join_with(b, sep),
    decreases b.len(),
{
    if b.len() == 1 {
        assert((a + b).drop_last() =~= a);
        assert((a + b).last() == b[0]);
    } else {
        let b1 = b.drop_last();
        lemma_join_concat(a, b1, sep);
        assert((a + b).drop_last() =~= a + b1);
        assert((a + b).last() == b.last());
        assert(join_with(a + b, sep) =~= join_with(a, sep) + seq![sep] + join_with(b, sep));
    }
}

/// A space before text that neither starts nor ends with whitespace is
/// trimmed away.
pub proof fn lemma_trim_space_prefix(r: Seq<char>)
    requires
        r.len() > 0,
        !is_ws(r[0]),
        !is_ws(r.last()),
    ensures
        trim(seq![' '] + r) == r,
{
    let s = seq![' '] + r;
    assert(is_ws(s[0]));
    assert(s.drop_first() =~= r);
    assert(trim_start(r) == r);
    assert(trim_start(s) == r);
}

} // verus!
