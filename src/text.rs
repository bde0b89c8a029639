//! The character-level pieces of the session claims layout: JSON string
//! escaping and canonical decimal numbers, each with a parser that undoes it.

use vstd::prelude::*;

verus! {

/// The lowercase hexadecimal digit of `d` (`d < 16`).
pub open spec fn hex_digit(d: nat) -> char {
    if d < 10 {
        (48 + d) as char
    } else {
        (87 + d) as char
    }
}

pub open spec fn is_hex_char(c: char) -> bool {
    (48 <= c as u32 <= 57) || (97 <= c as u32 <= 102)
}

pub open spec fn hex_value(c: char) -> nat {
    if c as u32 <= 57 {
        (c as u32 - 48) as nat
    } else {
        (c as u32 - 87) as nat
    }
}

pub open spec fn is_digit(c: char) -> bool {
    48 <= c as u32 <= 57
}

/// How one character is written inside a JSON string.
pub open spec fn escape_char(c: char) -> Seq<char> {
    if c == '"' {
        seq!['\\', '"']
    } else if c == '\\' {
        seq!['\\', '\\']
    } else if (c as u32) < 32 {
        seq!['\\', 'u', '0', '0', hex_digit((c as u32 / 16) as nat), hex_digit((c as u32 % 16) as nat)]
    } else {
        seq![c]
    }
}

/// The body of a JSON string holding `s`, without the quotes.
pub open spec fn escape(s: Seq<char>) -> Seq<char>
    decreases s.len(),
{
    if s.len() == 0 {
        seq![]
    } else {
        escape_char(s[0]) + escape(s.drop_first())
    }
}

/// Reads the body of a JSON string as `escape` writes it, up to and including
/// the closing quote: the characters held and the length read.
pub open spec fn unescape(t: Seq<char>) -> Option<(Seq<char>, nat)>
    decreases t.len(),
{
    if t.len() == 0 {
        None
    } else if t[0] == '"' {
        Some((seq![], 1))
    } else if t[0] == '\\' {
        if t.len() >= 2 && (t[1] == '"' || t[1] == '\\') {
            match unescape(t.skip(2)) {
                Some((s, n)) => Some((seq![t[1]] + s, n + 2)),
                None => None,
            }
        } else if t.len() >= 6 && t[1] == 'u' && t[2] == '0' && t[3] == '0' && (t[4] == '0'
            || t[4] == '1') && is_hex_char(t[5]) {
            match unescape(t.skip(6)) {
                Some((s, n)) => Some(
                    (seq![((hex_value(t[4]) * 16 + hex_value(t[5])) as u32) as char] + s, n + 6),
                ),
                None => None,
            }
        } else {
            None
        }
    } else if (t[0] as u32) < 32 {
        None
    } else {
        match unescape(t.skip(1)) {
            Some((s, n)) => Some((seq![t[0]] + s, n + 1)),
            None => None,
        }
    }
}

pub proof fn lemma_escape_append(a: Seq<char>, b: Seq<char>)
    ensures
        escape(a + b) == escape(a) + escape(b),
    decreases a.len(),
{
    if a.len() == 0 {
        assert(a + b =~= b);
        assert(escape(a) + escape(b) =~= escape(b));
    } else {
        assert((a + b).drop_first() =~= a.drop_first() + b);
        lemma_escape_append(a.drop_first(), b);
        assert(escape(a + b) =~= escape(a) + escape(b));
    }
}

proof fn lemma_hex_round_trip(d: nat)
    requires
        d < 16,
    ensures
        is_hex_char(hex_digit(d)),
        hex_value(hex_digit(d)) == d,
{
}

/// What `escape` writes, closed by a quote, is read back by `unescape`.
pub proof fn lemma_unescape_escape(s: Seq<char>, rest: Seq<char>)
    ensures
        unescape(escape(s) + seq!['"'] + rest) == Some((s, escape(s).len() + 1)),
    decreases s.len(),
{
    let t = escape(s) + seq!['"'] + rest;
    if s.len() == 0 {
        assert(t[0] == '"');
    } else {
        let c = s[0];
        let e = escape_char(c);
        let tail = escape(s.drop_first()) + seq!['"'] + rest;
        assert(t =~= e + tail);
        lemma_unescape_escape(s.drop_first(), rest);
        assert(t.skip(e.len() as int) =~= tail);
        assert(seq![c] + s.drop_first() =~= s);
        if c == '"' || c == '\\' {
            assert(t[0] == '\\' && t[1] == c);
            assert(unescape(t) == Some((s, escape(s).len() + 1)));
        } else if (c as u32) < 32 {
            let hi = (c as u32 / 16) as nat;
            let lo = (c as u32 % 16) as nat;
            lemma_hex_round_trip(hi);
            lemma_hex_round_trip(lo);
            assert(hi * 16 + lo == c as u32);
            assert(t[4] == hex_digit(hi) && t[5] == hex_digit(lo));
            vstd::utf8::char_u32_cast(c, c as u32);
            assert((((hi * 16 + lo) as u32) as char) == c);
            assert(unescape(t) == Some((s, escape(s).len() + 1)));
        } else {
            assert(t[0] == c);
            assert(unescape(t) == Some((s, escape(s).len() + 1)));
        }
    }
}

/// Appends to `out` the escaped form of `s`.
pub fn push_escaped(out: &mut Vec<char>, s: &Vec<char>)
    ensures
        final(out)@ == old(out)@ + escape(s@),
{
    let ghost start = out@;
    let mut i: usize = 0;
    while i < s.len()
        invariant
            i <= s@.len(),
            out@ == start + escape(s@.take(i as int)),
        decreases s@.len() - i,
    {
        let c = s[i];
        proof {
            lemma_escape_append(s@.take(i as int), seq![c]);
            assert(s@.take(i as int) + seq![c] =~= s@.take(i as int + 1));
            assert(seq![c].drop_first() =~= Seq::<char>::empty());
            assert(escape(Seq::<char>::empty()) =~= Seq::<char>::empty());
            assert(escape(seq![c]) =~= escape_char(c));
        }
        let code = c as u32;
        if c == '"' {
            out.push('\\');
            out.push('"');
        } else if c == '\\' {
            out.push('\\');
            out.push('\\');
        } else if code < 32 {
            out.push('\\');
            out.push('u');
            out.push('0');
            out.push('0');
            out.push(hex_char(code / 16));
            out.push(hex_char(code % 16));
        } else {
            out.push(c);
        }
        assert(out@ =~= start + escape(s@.take(i as int + 1)));
        i = i + 1;
    }
    assert(s@.take(i as int) =~= s@);
}

fn hex_char(d: u32) -> (c: char)
    requires
        d < 16,
    ensures
        c == hex_digit(d as nat),
{
    if d < 10 {
        ((48 + d) as u8) as char
    } else {
        ((87 + d) as u8) as char
    }
}

/// `unescape` of `t`, with `p` put before the characters read and `k` added to
/// the length read.
pub open spec fn prefixed(p: Seq<char>, k: nat, o: Option<(Seq<char>, nat)>) -> Option<(Seq<char>, nat)> {
    match o {
        Some((s, n)) => Some((p + s, k + n)),
        None => None,
    }
}

fn hex_val(c: char) -> (v: u32)
    requires
        is_hex_char(c),
    ensures
        v == hex_value(c),
{
    let code = c as u32;
    if code <= 57 {
        code - 48
    } else {
        code - 87
    }
}

/// Reads a JSON string body that starts at `start`, as `unescape` does: the
/// characters held and the position after the closing quote.
pub fn parse_string(t: &Vec<char>, start: usize) -> (r: Option<(Vec<char>, usize)>)
    requires
        start <= t@.len(),
    ensures
        r is Some <==> unescape(t@.skip(start as int)) is Some,
        r is Some ==> r.unwrap().0@ == unescape(t@.skip(start as int)).unwrap().0 && r.unwrap().1
            == start + unescape(t@.skip(start as int)).unwrap().1,
        r is Some ==> r.unwrap().1 <= t@.len(),
{
    let mut out: Vec<char> = Vec::new();
    let mut i: usize = start;
    proof {
        match unescape(t@.skip(start as int)) {
            Some((s, n)) => {
                assert(out@ + s =~= s);
            },
            None => {},
        }
    }
    loop
        invariant
            start <= i <= t@.len(),
            unescape(t@.skip(start as int)) == prefixed(out@, (i - start) as nat, unescape(t@.skip(i as int))),
        decreases t@.len() - i,
    {
        let ghost u = t@.skip(i as int);
        if i >= t.len() {
            assert(u.len() == 0);
            return None;
        }
        let c = t[i];
        assert(u[0] == c);
        if c == '"' {
            proof {
                assert(out@ + seq![] =~= out@);
            }
            return Some((out, i + 1));
        } else if c == '\\' {
            if i + 1 < t.len() && (t[i + 1] == '"' || t[i + 1] == '\\') {
                let x = t[i + 1];
                assert(u[1] == x);
                assert(u.skip(2) =~= t@.skip(i + 2));
                proof {
                    match unescape(t@.skip(i + 2)) {
                        Some((s, n)) => {
                            assert(out@ + (seq![x] + s) =~= out@.push(x) + s);
                        },
                        None => {},
                    }
                }
                out.push(x);
                i = i + 2;
            } else if t.len() - i > 5 && t[i + 1] == 'u' && t[i + 2] == '0' && t[i + 3] == '0' && (
            t[i + 4] == '0' || t[i + 4] == '1') && (48 <= t[i + 5] as u32 && t[i + 5] as u32 <= 57
                || 97 <= t[i + 5] as u32 && t[i + 5] as u32 <= 102) {
                let hi = hex_val(t[i + 4]);
                let lo = hex_val(t[i + 5]);
                let code = hi * 16 + lo;
                let x = (code as u8) as char;
                proof {
                    vstd::utf8::char_u32_cast(x, x as u32);
                    assert(x == (((hex_value(u[4]) * 16 + hex_value(u[5])) as u32) as char));
                }
                assert(u.skip(6) =~= t@.skip(i + 6));
                proof {
                    match unescape(t@.skip(i + 6)) {
                        Some((s, n)) => {
                            assert(out@ + (seq![x] + s) =~= out@.push(x) + s);
                        },
                        None => {},
                    }
                }
                out.push(x);
                i = i + 6;
            } else {
                return None;
            }
        } else if (c as u32) < 32 {
            return None;
        } else {
            assert(u.skip(1) =~= t@.skip(i + 1));
            proof {
                match unescape(t@.skip(i + 1)) {
                    Some((s, n)) => {
                        assert(out@ + (seq![c] + s) =~= out@.push(c) + s);
                    },
                    None => {},
                }
            }
            out.push(c);
            i = i + 1;
        }
    }
}

/// The decimal digits of `n`, without leading zeros.
pub open spec fn decimal(n: nat) -> Seq<char>
    decreases n,
{
    if n < 10 {
        seq![hex_digit(n)]
    } else {
        decimal(n / 10).push(hex_digit(n % 10))
    }
}

/// The number of decimal digits at the front of `t`.
pub open spec fn digit_run(t: Seq<char>) -> nat
    decreases t.len(),
{
    if t.len() > 0 && is_digit(t[0]) {
        1 + digit_run(t.skip(1))
    } else {
        0
    }
}

/// The value of a sequence of decimal digits.
pub open spec fn digits_value(ds: Seq<char>) -> nat
    decreases ds.len(),
{
    if ds.len() == 0 {
        0
    } else {
        digits_value(ds.drop_last()) * 10 + (ds.last() as u32 - 48) as nat
    }
}

pub open spec fn all_digits(ds: Seq<char>) -> bool {
    forall|j: int| 0 <= j < ds.len() ==> is_digit(#[trigger] ds[j])
}

/// Reads the run of digits at the front of `t` as a `u64` written as `decimal`
/// writes it: its value and its length.
pub open spec fn read_number(t: Seq<char>) -> Option<(nat, nat)> {
    let k = digit_run(t);
    let ds = t.take(k as int);
    if k > 0 && (k == 1 || t[0] != '0') && digits_value(ds) <= u64::MAX {
        Some((digits_value(ds), k))
    } else {
        None
    }
}

proof fn lemma_decimal(n: nat)
    ensures
        decimal(n).len() >= 1,
        all_digits(decimal(n)),
        digits_value(decimal(n)) == n,
        n >= 1 ==> decimal(n)[0] != '0',
    decreases n,
{
    if n < 10 {
        lemma_hex_round_trip(n);
        assert(decimal(n).drop_last() =~= Seq::<char>::empty());
        assert(digits_value(Seq::<char>::empty()) == 0);
        assert(digits_value(decimal(n)) == n);
    } else {
        lemma_decimal(n / 10);
        lemma_hex_round_trip(n % 10);
        vstd::arithmetic::div_mod::lemma_fundamental_div_mod(n as int, 10);
        let d = decimal(n);
        assert(d.drop_last() =~= decimal(n / 10));
        assert(d.last() == hex_digit(n % 10));
        assert(digits_value(d) == digits_value(decimal(n / 10)) * 10 + n % 10);
        assert(d[0] == decimal(n / 10)[0]);
        assert(all_digits(d)) by {
            assert forall|j: int| 0 <= j < d.len() implies is_digit(#[trigger] d[j]) by {
                if j < d.len() - 1 {
                    assert(d[j] == decimal(n / 10)[j]);
                }
            }
        }
    }
}

proof fn lemma_digit_run(ds: Seq<char>, rest: Seq<char>)
    requires
        all_digits(ds),
        rest.len() == 0 || !is_digit(rest[0]),
    ensures
        digit_run(ds + rest) == ds.len(),
    decreases ds.len(),
{
    if ds.len() == 0 {
        assert(ds + rest =~= rest);
    } else {
        assert((ds + rest).skip(1) =~= ds.drop_first() + rest);
        lemma_digit_run(ds.drop_first(), rest);
    }
}

proof fn lemma_digits_prefix(ds: Seq<char>, j: int)
    requires
        all_digits(ds),
        0 <= j <= ds.len(),
    ensures
        digits_value(ds.take(j)) <= digits_value(ds),
    decreases ds.len(),
{
    if j < ds.len() {
        assert(ds.take(j) =~= ds.drop_last().take(j));
        lemma_digits_prefix(ds.drop_last(), j);
    } else {
        assert(ds.take(j) =~= ds);
    }
}

/// What `decimal` writes, followed by anything but a digit, is read back by
/// `read_number`.
pub proof fn lemma_read_decimal(n: nat, rest: Seq<char>)
    requires
        n <= u64::MAX,
        rest.len() == 0 || !is_digit(rest[0]),
    ensures
        read_number(decimal(n) + rest) == Some((n, decimal(n).len())),
{
    lemma_decimal(n);
    lemma_digit_run(decimal(n), rest);
    assert((decimal(n) + rest).take(decimal(n).len() as int) =~= decimal(n));
}

/// Appends to `out` the decimal digits of `n`.
pub fn push_decimal(out: &mut Vec<char>, n: u64)
    ensures
        final(out)@ == old(out)@ + decimal(n as nat),
    decreases n,
{
    if n >= 10 {
        push_decimal(out, n / 10);
    }
    out.push(hex_char((n % 10) as u32));
    assert(out@ =~= old(out)@ + decimal(n as nat));
}

/// Reads a number that starts at `start`, as `read_number` does: its value and
/// the position after its last digit.
pub fn parse_number(t: &Vec<char>, start: usize) -> (r: Option<(u64, usize)>)
    requires
        start <= t@.len(),
    ensures
        r is Some <==> read_number(t@.skip(start as int)) is Some,
        r is Some ==> r.unwrap().0 == read_number(t@.skip(start as int)).unwrap().0 && r.unwrap().1
            == start + read_number(t@.skip(start as int)).unwrap().1,
        r is Some ==> r.unwrap().1 <= t@.len(),
{
    let ghost u = t@.skip(start as int);
    let mut v: u64 = 0;
    let mut i: usize = start;
    assert(t@.subrange(start as int, start as int) =~= Seq::<char>::empty());
    loop
        invariant
            start <= i <= t@.len(),
            u == t@.skip(start as int),
            all_digits(t@.subrange(start as int, i as int)),
            v == digits_value(t@.subrange(start as int, i as int)),
            digit_run(u) == (i - start) + digit_run(t@.skip(i as int)),
        ensures
            start <= i <= t@.len(),
            all_digits(t@.subrange(start as int, i as int)),
            v == digits_value(t@.subrange(start as int, i as int)),
            digit_run(u) == i - start,
        decreases t@.len() - i,
    {
        if i < t.len() && 48 <= t[i] as u32 && t[i] as u32 <= 57 {
            let d = (t[i] as u32 - 48) as u64;
            let ghost next = t@.subrange(start as int, i + 1);
            assert(next.drop_last() =~= t@.subrange(start as int, i as int));
            assert(all_digits(next));
            assert(t@.skip(i as int).skip(1) =~= t@.skip(i + 1));
            match v.checked_mul(10) {
                Some(m) => match m.checked_add(d) {
                    Some(w) => {
                        v = w;
                        i = i + 1;
                    },
                    None => {
                        proof {
                            lemma_run_prefix(u, (i + 1 - start) as int);
                            assert(u.take((i + 1 - start) as int) =~= next);
                        }
                        return None;
                    },
                },
                None => {
                    proof {
                        lemma_run_prefix(u, (i + 1 - start) as int);
                        assert(u.take((i + 1 - start) as int) =~= next);
                    }
                    return None;
                },
            }
        } else {
            proof {
                let w = t@.skip(i as int);
                if i < t@.len() {
                    assert(w[0] == t@[i as int]);
                    assert(!is_digit(w[0]));
                } else {
                    assert(w.len() == 0);
                }
                assert(digit_run(w) == 0);
            }
            break;
        }
    }
    let ghost ds = u.take(digit_run(u) as int);
    assert(digit_run(t@.skip(i as int)) == 0);
    assert(ds =~= t@.subrange(start as int, i as int));
    if i == start {
        return None;
    }
    if i - start > 1 && t[start] == '0' {
        assert(u[0] == '0');
        return None;
    }
    Some((v, i))
}

/// The digits counted by `digit_run` are digits, and any prefix of them is
/// worth no more than all of them.
proof fn lemma_run_prefix(u: Seq<char>, j: int)
    requires
        0 <= j <= digit_run(u),
    ensures
        digit_run(u) <= u.len(),
        all_digits(u.take(digit_run(u) as int)),
        digits_value(u.take(j)) <= digits_value(u.take(digit_run(u) as int)),
{
    lemma_run_digits(u);
    let ds = u.take(digit_run(u) as int);
    assert(ds.take(j) =~= u.take(j));
    lemma_digits_prefix(ds, j);
}

proof fn lemma_run_digits(u: Seq<char>)
    ensures
        digit_run(u) <= u.len(),
        all_digits(u.take(digit_run(u) as int)),
    decreases u.len(),
{
    if u.len() > 0 && is_digit(u[0]) {
        lemma_run_digits(u.skip(1));
        let ds = u.take(digit_run(u) as int);
        assert forall|j: int| 0 <= j < ds.len() implies is_digit(#[trigger] ds[j]) by {
            if j > 0 {
                assert(ds[j] == u.skip(1).take(digit_run(u.skip(1)) as int)[j - 1]);
            }
        }
    }
}

/// `unescape` reads only what `escape` writes, closed by a quote.
pub proof fn lemma_unescape_sound(t: Seq<char>)
    requires
        unescape(t) is Some,
    ensures
        unescape(t).unwrap().1 <= t.len(),
        t.take(unescape(t).unwrap().1 as int) == escape(unescape(t).unwrap().0) + seq!['"'],
    decreases t.len(),
{
    let (s, n) = unescape(t).unwrap();
    if t[0] == '"' {
        assert(t.take(1) =~= escape(s) + seq!['"']);
    } else if t[0] == '\\' {
        if t.len() >= 2 && (t[1] == '"' || t[1] == '\\') {
            let w = t.skip(2);
            lemma_unescape_sound(w);
            let (s2, n2) = unescape(w).unwrap();
            assert(s == seq![t[1]] + s2);
            assert((seq![t[1]] + s2).drop_first() =~= s2);
            assert(escape(s) == escape_char(t[1]) + escape(s2));
            assert(t.take(n as int) =~= seq!['\\', t[1]] + w.take(n2 as int));
            assert(t.take(n as int) =~= escape(s) + seq!['"']);
        } else {
            let w = t.skip(6);
            lemma_unescape_sound(w);
            let (s2, n2) = unescape(w).unwrap();
            let hi = hex_value(t[4]);
            let lo = hex_value(t[5]);
            let v = (hi * 16 + lo) as u32;
            let c = v as char;
            assert(hi <= 1 && lo < 16);
            assert(v < 32);
            assert(c as u32 == v);
            assert(c != '"' && c != '\\') by {
                assert('"' as u32 == 34);
                assert('\\' as u32 == 92);
            }
            assert(hex_digit(hi) == t[4]);
            assert(hex_digit(lo) == t[5]) by {
                vstd::utf8::char_u32_cast(t[5], t[5] as u32);
            }
            assert((v / 16) as nat == hi && (v % 16) as nat == lo);
            assert(escape_char(c) =~= seq!['\\', 'u', '0', '0', t[4], t[5]]);
            assert(s == seq![c] + s2);
            assert((seq![c] + s2).drop_first() =~= s2);
            assert(escape(s) == escape_char(c) + escape(s2));
            assert(t.take(n as int) =~= t.take(6) + w.take(n2 as int));
            assert(t.take(n as int) =~= escape(s) + seq!['"']);
        }
    } else {
        let w = t.skip(1);
        lemma_unescape_sound(w);
        let (s2, n2) = unescape(w).unwrap();
        let c = t[0];
        assert(escape_char(c) =~= seq![c]);
        assert((seq![c] + s2).drop_first() =~= s2);
        assert(escape(s) == escape_char(c) + escape(s2));
        assert(t.take(n as int) =~= seq![c] + w.take(n2 as int));
        assert(t.take(n as int) =~= escape(s) + seq!['"']);
    }
}

proof fn lemma_digit_run_end(t: Seq<char>)
    ensures
        digit_run(t) <= t.len(),
        digit_run(t) < t.len() ==> !is_digit(t[digit_run(t) as int]),
    decreases t.len(),
{
    if t.len() > 0 && is_digit(t[0]) {
        lemma_digit_run_end(t.skip(1));
        if digit_run(t) < t.len() {
            assert(t[digit_run(t) as int] == t.skip(1)[digit_run(t.skip(1)) as int]);
        }
    }
}

/// A run of digits without a leading zero is what `decimal` writes of its
/// value.
proof fn lemma_canonical_decimal(ds: Seq<char>)
    requires
        ds.len() >= 1,
        all_digits(ds),
        ds.len() == 1 || ds[0] != '0',
    ensures
        decimal(digits_value(ds)) == ds,
    decreases ds.len(),
{
    let c = ds.last();
    let d = (c as u32 - 48) as nat;
    assert(is_digit(c));
    assert(hex_digit(d) == c) by {
        vstd::utf8::char_u32_cast(c, c as u32);
    }
    if ds.len() == 1 {
        assert(ds.drop_last() =~= Seq::<char>::empty());
        assert(digits_value(Seq::<char>::empty()) == 0);
        assert(decimal(d) =~= ds);
    } else {
        let dl = ds.drop_last();
        assert(dl[0] == ds[0]);
        assert(all_digits(dl));
        lemma_canonical_decimal(dl);
        let a = digits_value(dl);
        lemma_digits_prefix(dl, 1);
        assert(dl.take(1).drop_last() =~= Seq::<char>::empty());
        assert(digits_value(Seq::<char>::empty()) == 0);
        assert(dl.take(1).last() == dl[0]);
        assert(dl[0] as u32 != 48) by {
            vstd::utf8::char_u32_cast(dl[0], dl[0] as u32);
            vstd::utf8::char_u32_cast('0', '0' as u32);
        }
        assert(digits_value(dl.take(1)) >= 1);
        let v = digits_value(ds);
        assert(v == a * 10 + d);
        assert(v / 10 == a && v % 10 == d) by (nonlinear_arith)
            requires
                v == a * 10 + d,
                d < 10,
        ;
        assert(decimal(v) == decimal(a).push(hex_digit(d)));
        assert(decimal(v) =~= ds);
    }
}

/// `read_number` reads only what `decimal` writes, and stops before a digit.
pub proof fn lemma_read_number_sound(t: Seq<char>)
    requires
        read_number(t) is Some,
    ensures
        read_number(t).unwrap().1 <= t.len(),
        t.take(read_number(t).unwrap().1 as int) == decimal(read_number(t).unwrap().0),
        read_number(t).unwrap().1 < t.len() ==> !is_digit(t[read_number(t).unwrap().1 as int]),
{
    lemma_digit_run_end(t);
    lemma_run_digits(t);
    let k = digit_run(t);
    let ds = t.take(k as int);
    assert(ds.len() == 1 || ds[0] != '0');
    lemma_canonical_decimal(ds);
}

} // verus!
