//! Reading and writing integers the way `str::parse`, `from_str_radix` and
//! the `Display` / `{:02X}` formatting of std's integer types do.
use vstd::prelude::*;
use crate::text::push_char;

verus! {

/// The value of `c` as a digit in base `radix` (`char::to_digit`).
pub open spec fn digit_of(c: char, radix: nat) -> Option<nat> {
    let d: int = if '0' <= c && c <= '9' {
        c as int - '0' as int
    } else if 'a' <= c && c <= 'z' {
        c as int - 'a' as int + 10
    } else if 'A' <= c && c <= 'Z' {
        c as int - 'A' as int + 10
    } else {
        radix as int
    };
    if 0 <= d < radix {
        Some(d as nat)
    } else {
        None
    }
}

/// Every char of `s` is a digit in base `radix`.
pub open spec fn all_digits(s: Seq<char>, radix: nat) -> bool {
    forall|i: int| 0 <= i < s.len() ==> (#[trigger] digit_of(s[i], radix)) is Some
}

/// The number that the digits `s` stand for in base `radix`.
pub open spec fn digits_value(s: Seq<char>, radix: nat) -> nat
    decreases s.len(),
{
    if s.len() == 0 {
        0
    } else {
        digits_value(s.drop_last(), radix) * radix + match digit_of(s.last(), radix) {
            Some(d) => d,
            None => 0,
        }
    }
}

/// What `from_str_radix` (and, for base 10, `str::parse`) gives for an
/// unsigned integer type whose largest value is `max`: an optional `+`, then
/// one or more digits, with a value of at most `max`.
pub open spec fn parse_unsigned(s: Seq<char>, radix: nat, max: nat) -> Option<nat> {
    let body = if s.len() > 0 && s[0] == '+' {
        s.drop_first()
    } else {
        s
    };
    if body.len() > 0 && all_digits(body, radix) && digits_value(body, radix) <= max {
        Some(digits_value(body, radix))
    } else {
        None
    }
}

/// What `str::parse::<i8>` gives: an optional sign, then one or more decimal
/// digits, with a value in `-128..=127`.
pub open spec fn parse_i8(s: Seq<char>) -> Option<int> {
    if s.len() > 0 && s[0] == '-' {
        let body = s.drop_first();
        if body.len() > 0 && all_digits(body, 10) && digits_value(body, 10) <= 128 {
            Some(0 - digits_value(body, 10))
        } else {
            None
        }
    } else {
        match parse_unsigned(s, 10, 127) {
            Some(n) => Some(n as int),
            None => None,
        }
    }
}

proof fn lemma_digits_value_prefix(s: Seq<char>, radix: nat, k: int)
    requires
        0 <= k <= s.len(),
        radix >= 1,
    ensures
        digits_value(s.subrange(0, k), radix) <= digits_value(s, radix),
    decreases s.len(),
{
    if k < s.len() {
        let t = s.drop_last();
        assert(t.subrange(0, k) =~= s.subrange(0, k));
        lemma_digits_value_prefix(t, radix, k);
        let x = digits_value(t, radix);
        assert(x * radix >= x) by (nonlinear_arith)
            requires
                radix >= 1,
        ;
    } else {
        assert(s.subrange(0, k) =~= s);
    }
}

fn digit_exec(c: char, radix: u64) -> (r: Option<u64>)
    requires
        radix == 10 || radix == 16,
    ensures
        r matches Some(d) ==> digit_of(c, radix as nat) == Some(d as nat),
        r is None ==> digit_of(c, radix as nat) is None,
{
    let d: u64 = if '0' <= c && c <= '9' {
        (c as u64) - ('0' as u64)
    } else if 'a' <= c && c <= 'z' {
        (c as u64) - ('a' as u64) + 10
    } else if 'A' <= c && c <= 'Z' {
        (c as u64) - ('A' as u64) + 10
    } else {
        radix
    };
    if d < radix {
        Some(d)
    } else {
        None
    }
}

/// Reads the chars `v` as an unsigned number in base `radix` of at most `max`.
pub fn parse_unsigned_exec(v: &Vec<char>, radix: u64, max: u64) -> (r: Option<u64>)
    requires
        radix == 10 || radix == 16,
        max <= u32::MAX,
    ensures
        r matches Some(n) ==> parse_unsigned(v@, radix as nat, max as nat) == Some(n as nat),
        r is None ==> parse_unsigned(v@, radix as nat, max as nat) is None,
{
    let start: usize = if v.len() > 0 && v[0] == '+' {
        1
    } else {
        0
    };
    let ghost body = if v@.len() > 0 && v@[0] == '+' {
        v@.drop_first()
    } else {
        v@
    };
    proof {
        assert(body =~= v@.subrange(start as int, v@.len() as int));
    }
    if start >= v.len() {
        return None;
    }
    let mut acc: u64 = 0;
    let mut i: usize = start;
    while i < v.len()
        invariant
            start <= i <= v.len(),
            radix == 10 || radix == 16,
            max <= u32::MAX,
            body == v@.subrange(start as int, v@.len() as int),
            body == (if v@.len() > 0 && v@[0] == '+' {
                v@.drop_first()
            } else {
                v@
            }),
            acc <= max,
            acc == digits_value(body.subrange(0, i - start), radix as nat),
            all_digits(body.subrange(0, i - start), radix as nat),
        decreases v.len() - i,
    {
        let ghost pre = body.subrange(0, i - start);
        let ghost pre1 = body.subrange(0, i - start + 1);
        proof {
            assert(pre1.drop_last() =~= pre);
            assert(pre1.last() == v@[i as int]);
        }
        match digit_exec(v[i], radix) {
            None => {
                proof {
                    assert(body[i - start] == v@[i as int]);
                    assert(digit_of(body[i - start], radix as nat) is None);
                    assert(!all_digits(body, radix as nat));
                }
                return None;
            },
            Some(d) => {
                proof {
                    assert(acc * radix <= 4294967295 * 16) by (nonlinear_arith)
                        requires
                            acc <= 4294967295,
                            radix <= 16,
                    ;
                }
                let next: u64 = acc * radix + d;
                proof {
                    assert(digits_value(pre1, radix as nat) == digits_value(pre, radix as nat)
                        * (radix as nat) + d);
                }
                if next > max {
                    proof {
                        if all_digits(body, radix as nat) {
                            lemma_digits_value_prefix(body, radix as nat, i - start + 1);
                        }
                    }
                    return None;
                }
                acc = next;
                proof {
                    assert forall|m: int| 0 <= m < pre1.len() implies (#[trigger] digit_of(
                        pre1[m],
                        radix as nat,
                    )) is Some by {
                        if m < pre.len() {
                            assert(pre1[m] == pre[m]);
                        }
                    }
                }
            },
        }
        i += 1;
    }
    proof {
        assert(body.subrange(0, i - start) =~= body);
    }
    Some(acc)
}

/// Reads `v` as `str::parse::<u8>` does.
pub fn parse_u8(v: &Vec<char>) -> (r: Option<u8>)
    ensures
        r matches Some(n) ==> parse_unsigned(v@, 10, 255) == Some(n as nat),
        r is None ==> parse_unsigned(v@, 10, 255) is None,
{
    match parse_unsigned_exec(v, 10, 255) {
        Some(n) => Some(n as u8),
        None => None,
    }
}

/// Reads `v` as `str::parse::<u16>` does.
pub fn parse_u16(v: &Vec<char>) -> (r: Option<u16>)
    ensures
        r matches Some(n) ==> parse_unsigned(v@, 10, 65535) == Some(n as nat),
        r is None ==> parse_unsigned(v@, 10, 65535) is None,
{
    match parse_unsigned_exec(v, 10, 65535) {
        Some(n) => Some(n as u16),
        None => None,
    }
}

/// Reads `v` as `str::parse::<u32>` does.
pub fn parse_u32(v: &Vec<char>) -> (r: Option<u32>)
    ensures
        r matches Some(n) ==> parse_unsigned(v@, 10, 4294967295) == Some(n as nat),
        r is None ==> parse_unsigned(v@, 10, 4294967295) is None,
{
    match parse_unsigned_exec(v, 10, 4294967295) {
        Some(n) => Some(n as u32),
        None => None,
    }
}

/// Reads `v` as `u8::from_str_radix(_, 16)` does.
pub fn parse_hex_u8(v: &Vec<char>) -> (r: Option<u8>)
    ensures
        r matches Some(n) ==> parse_unsigned(v@, 16, 255) == Some(n as nat),
        r is None ==> parse_unsigned(v@, 16, 255) is None,
{
    match parse_unsigned_exec(v, 16, 255) {
        Some(n) => Some(n as u8),
        None => None,
    }
}

/// Reads `v` as `str::parse::<i8>` does.
pub fn parse_i8_exec(v: &Vec<char>) -> (r: Option<i8>)
    ensures
        r matches Some(n) ==> parse_i8(v@) == Some(n as int),
        r is None ==> parse_i8(v@) is None,
{
    if v.len() > 0 && v[0] == '-' {
        let mut rest: Vec<char> = Vec::new();
        let mut k: usize = 1;
        while k < v.len()
            invariant
                1 <= k <= v.len(),
                rest@ == v@.subrange(1, k as int),
            decreases v.len() - k,
        {
            rest.push(v[k]);
            proof {
                assert(v@.subrange(1, k + 1) =~= v@.subrange(1, k as int).push(v@[k as int]));
            }
            k += 1;
        }
        proof {
            assert(rest@ =~= v@.drop_first());
        }
        if rest.len() == 0 || rest[0] == '+' {
            proof {
                if rest@.len() > 0 {
                    assert(digit_of(rest@[0], 10) is None);
                    assert(!all_digits(rest@, 10));
                }
            }
            return None;
        }
        match parse_unsigned_exec(&rest, 10, 128) {
            Some(n) => {
                proof {
                    assert(rest@[0] != '+');
                }
                let m: i16 = 0 - (n as i16);
                Some(m as i8)
            },
            None => {
                proof {
                    assert(rest@[0] != '+');
                }
                None
            },
        }
    } else {
        match parse_unsigned_exec(v, 10, 127) {
            Some(n) => Some(n as i8),
            None => None,
        }
    }
}

/// The char of the decimal digit `d`.
pub open spec fn digit_char(d: nat) -> char {
    ((d + 48) as u32) as char
}

/// The decimal digits of `n`, as `Display` writes them.
pub open spec fn decimal(n: nat) -> Seq<char>
    decreases n,
{
    if n < 10 {
        seq![digit_char(n)]
    } else {
        decimal(n / 10).push(digit_char(n % 10))
    }
}

/// How `Display` writes the `i8` value `n`.
pub open spec fn decimal_i8(n: int) -> Seq<char> {
    if n < 0 {
        seq!['-'] + decimal((0 - n) as nat)
    } else {
        decimal(n as nat)
    }
}

fn digit_char_exec(d: u64) -> (c: char)
    requires
        d < 10,
    ensures
        c == digit_char(d as nat),
{
    let b: u8 = (d as u8) + 48;
    b as char
}

/// Appends the decimal digits of `n` to `s`.
pub fn push_decimal(s: &mut String, n: u64)
    ensures
        final(s)@ == old(s)@ + decimal(n as nat),
    decreases n,
{
    if n >= 10 {
        push_decimal(s, n / 10);
        let c = digit_char_exec(n % 10);
        let ghost s1 = s@;
        push_char(s, c);
        proof {
            assert(old(s)@ + decimal(n as nat) =~= s1.push(c));
        }
    } else {
        let c = digit_char_exec(n);
        push_char(s, c);
        proof {
            assert(old(s)@ + decimal(n as nat) =~= old(s)@.push(c));
        }
    }
}

/// Appends `n` to `s` as `Display` writes an `i8`.
pub fn push_decimal_i8(s: &mut String, n: i8)
    ensures
        final(s)@ == old(s)@ + decimal_i8(n as int),
{
    if n < 0 {
        push_char(s, '-');
        let m: i16 = 0 - (n as i16);
        let ghost s1 = s@;
        push_decimal(s, m as u64);
        proof {
            assert(old(s)@ + decimal_i8(n as int) =~= s1 + decimal(m as nat));
        }
    } else {
        push_decimal(s, n as u64);
    }
}

/// The uppercase hexadecimal digit for `d`.
pub open spec fn hex_char(d: nat) -> char {
    if d < 10 {
        digit_char(d)
    } else {
        ((d - 10 + 65) as u32) as char
    }
}

/// How `{:02X}` writes the byte `b`.
pub open spec fn hex2(b: u8) -> Seq<char> {
    seq![hex_char((b / 16) as nat), hex_char((b % 16) as nat)]
}

fn hex_char_exec(d: u8) -> (c: char)
    requires
        d < 16,
    ensures
        c == hex_char(d as nat),
{
    if d < 10 {
        let b: u8 = d + 48;
        b as char
    } else {
        let b: u8 = d - 10 + 65;
        b as char
    }
}

/// Appends `b` to `s` as `{:02X}` writes it.
pub fn push_hex2(s: &mut String, b: u8)
    ensures
        final(s)@ == old(s)@ + hex2(b),
{
    let hi = hex_char_exec(b / 16);
    let lo = hex_char_exec(b % 16);
    push_char(s, hi);
    push_char(s, lo);
    proof {
        assert(old(s)@ + hex2(b) =~= old(s)@.push(hi).push(lo));
    }
}

/// The digits of `decimal(n)` read back give `n`.
pub proof fn lemma_decimal(n: nat)
    ensures
        decimal(n).len() > 0,
        all_digits(decimal(n), 10),
        digits_value(decimal(n), 10) == n,
        decimal(n)[0] != '+',
        decimal(n)[0] != '-',
    decreases n,
{
    if n < 10 {
        assert(digit_of(digit_char(n), 10) == Some(n));
        assert(decimal(n).drop_last() =~= Seq::<char>::empty());
        assert(decimal(n).last() == digit_char(n));
        assert(digits_value(Seq::<char>::empty(), 10) == 0);
        assert(digits_value(decimal(n), 10) == n);
    } else {
        lemma_decimal(n / 10);
        let d = decimal(n);
        assert(d.drop_last() =~= decimal(n / 10));
        assert(digit_of(digit_char(n % 10), 10) == Some(n % 10));
        assert forall|i: int| 0 <= i < d.len() implies (#[trigger] digit_of(d[i], 10)) is Some by {
            if i < d.len() - 1 {
                assert(d[i] == decimal(n / 10)[i]);
            }
        }
        assert(d[0] == decimal(n / 10)[0]);
        assert(d.last() == digit_char(n % 10));
        assert(digits_value(d, 10) == digits_value(decimal(n / 10), 10) * 10 + n % 10);
        assert(n == (n / 10) * 10 + n % 10);
        assert(digits_value(decimal(n / 10), 10) == n / 10);
        assert(digits_value(d, 10) == n);
    }
}

/// `str::parse` reads back what `Display` writes, for every value of the type.
pub proof fn lemma_parse_decimal(n: nat, max: nat)
    requires
        n <= max,
    ensures
        parse_unsigned(decimal(n), 10, max) == Some(n),
{
    lemma_decimal(n);
}

/// `str::parse::<i8>` reads back what `Display` writes.
pub proof fn lemma_parse_decimal_i8(n: int)
    requires
        -128 <= n <= 127,
    ensures
        parse_i8(decimal_i8(n)) == Some(n),
{
    if n < 0 {
        let m = (0 - n) as nat;
        lemma_decimal(m);
        let s = decimal_i8(n);
        assert(s.drop_first() =~= decimal(m));
    } else {
        lemma_decimal(n as nat);
    }
}

} // verus!

verus! {

/// Decimal digits hold no whitespace, so trimming leaves them as they are.
pub proof fn lemma_digits_trim(s: Seq<char>)
    requires
        all_digits(s, 10),
    ensures
        crate::text::trim(s) == s,
{
    assert forall|i: int| 0 <= i < s.len() implies !crate::text::is_ws(#[trigger] s[i]) by {
        assert(digit_of(s[i], 10) is Some);
    }
    crate::text::lemma_no_ws_trim(s);
}

/// `decimal(n)` is its own trimmed form.
pub proof fn lemma_decimal_trim(n: nat)
    ensures
        crate::text::trim(decimal(n)) == decimal(n),
{
    lemma_decimal(n);
    lemma_digits_trim(decimal(n));
}

} // verus!

verus! {

/// The number that `str::parse::<u16>` reads from `s`, or 0 where it reads none.
pub open spec fn u16_or_zero(s: Seq<char>) -> u16 {
    match parse_unsigned(s, 10, 65535) {
        Some(n) => n as u16,
        None => 0,
    }
}

/// The number that `str::parse::<u32>` reads from `s`, or 0 where it reads none.
pub open spec fn u32_or_zero(s: Seq<char>) -> u32 {
    match parse_unsigned(s, 10, 4294967295) {
        Some(n) => n as u32,
        None => 0,
    }
}

/// The decimal digits of a number hold no comma.
pub proof fn lemma_decimal_no_comma(n: nat)
    ensures
        !decimal(n).contains(','),
{
    lemma_decimal(n);
    if decimal(n).contains(',') {
        let i = choose|i: int| 0 <= i < decimal(n).len() && decimal(n)[i] == ',';
        assert(digit_of(decimal(n)[i], 10) is Some);
    }
}

/// `u32_or_zero` reads back the digits of a `u32`, also after trimming.
pub proof fn lemma_u32_or_zero_decimal(n: u32)
    ensures
        u32_or_zero(crate::text::trim(decimal(n as nat))) == n,
{
    lemma_decimal_trim(n as nat);
    lemma_parse_decimal(n as nat, 4294967295);
}

} // verus!

verus! {

/// The byte that `u8::from_str_radix(s, 16)` reads, or 0 where it reads none.
pub open spec fn hex_or_zero(s: Seq<char>) -> u8 {
    match parse_unsigned(s, 16, 255) {
        Some(n) => n as u8,
        None => 0,
    }
}

/// The byte that `str::parse::<u8>` reads, or `d` where it reads none.
pub open spec fn u8_or(s: Seq<char>, d: u8) -> u8 {
    match parse_unsigned(s, 10, 255) {
        Some(n) => n as u8,
        None => d,
    }
}

/// `hex_or_zero` on the chars of `v`.
pub fn hex_or_zero_exec(v: &Vec<char>) -> (r: u8)
    ensures
        r == hex_or_zero(v@),
{
    match parse_hex_u8(v) {
        Some(n) => n,
        None => 0,
    }
}

/// `u8_or` on the chars of `v`.
pub fn u8_or_exec(v: &Vec<char>, d: u8) -> (r: u8)
    ensures
        r == u8_or(v@, d),
{
    match parse_u8(v) {
        Some(n) => n,
        None => d,
    }
}

/// The value of an uppercase hex digit.
pub proof fn lemma_hex_char(d: nat)
    requires
        d < 16,
    ensures
        digit_of(hex_char(d), 16) == Some(d),
{
}

/// `from_str_radix(_, 16)` reads back what `{:02X}` writes.
pub proof fn lemma_hex2(b: u8)
    ensures
        parse_unsigned(hex2(b), 16, 255) == Some(b as nat),
        hex_or_zero(hex2(b)) == b,
{
    let h = hex2(b);
    lemma_hex_char((b / 16) as nat);
    lemma_hex_char((b % 16) as nat);
    assert(h.drop_last() =~= seq![h[0]]);
    assert(seq![h[0]].drop_last() =~= Seq::<char>::empty());
    assert(seq![h[0]].last() == h[0]);
    assert(h[0] == hex_char((b / 16) as nat));
    assert(digits_value(Seq::<char>::empty(), 16) == 0);
    assert(digits_value(seq![h[0]], 16) == (b / 16) as nat);
    assert(digits_value(h, 16) == (b / 16) as nat * 16 + (b % 16) as nat);
    assert(h[0] != '+');
}

} // verus!

verus! {

/// The digits of a number are ASCII, hold no whitespace and no comma.
pub proof fn lemma_decimal_chars(n: nat)
    ensures
        decimal(n).len() > 0,
        forall|i: int| 0 <= i < decimal(n).len() ==> {
            &&& '0' <= #[trigger] decimal(n)[i] <= '9'
            &&& (decimal(n)[i] as u32) < 128
            &&& !crate::text::is_ws(decimal(n)[i])
            &&& decimal(n)[i] != ','
        },
        !decimal(n).contains(','),
        crate::text::all_ascii(decimal(n)),
{
    lemma_decimal(n);
    lemma_decimal_no_comma(n);
    assert forall|i: int| 0 <= i < decimal(n).len() implies '0' <= #[trigger] decimal(n)[i] <= '9' by {
        assert(digit_of(decimal(n)[i], 10) is Some);
    }
}

/// The digits of `{:02X}` are ASCII, hold no whitespace and no comma.
pub proof fn lemma_hex2_chars(b: u8)
    ensures
        hex2(b).len() == 2,
        forall|i: int| 0 <= i < 2 ==> {
            &&& (#[trigger] hex2(b)[i] as u32) < 128
            &&& !crate::text::is_ws(hex2(b)[i])
            &&& hex2(b)[i] != ','
            &&& hex2(b)[i] != '+'
        },
{
}

} // verus!
