//! The JSON text that a session token carries:
//! `{"id":"<id>","username":"<username>","iat":<iat>,"exp":<exp>}`.

use vstd::prelude::*;
use crate::text::{decimal, escape, parse_number, parse_string, push_decimal, push_escaped,
    read_number, unescape, lemma_read_decimal, lemma_read_number_sound, lemma_unescape_escape,
    lemma_unescape_sound, is_digit};

verus! {

pub open spec fn lit_open() -> Seq<char> {
    seq!['{', '"', 'i', 'd', '"', ':', '"']
}

pub open spec fn lit_username() -> Seq<char> {
    seq![',', '"', 'u', 's', 'e', 'r', 'n', 'a', 'm', 'e', '"', ':', '"']
}

pub open spec fn lit_iat() -> Seq<char> {
    seq![',', '"', 'i', 'a', 't', '"', ':']
}

pub open spec fn lit_exp() -> Seq<char> {
    seq![',', '"', 'e', 'x', 'p', '"', ':']
}

pub open spec fn lit_close() -> Seq<char> {
    seq!['}']
}

/// The claims text of a session.
pub open spec fn claims_text(id: Seq<char>, username: Seq<char>, iat: nat, exp: nat) -> Seq<char> {
    lit_open() + escape(id) + seq!['"'] + lit_username() + escape(username) + seq!['"']
        + lit_iat() + decimal(iat) + lit_exp() + decimal(exp) + lit_close()
}

pub open spec fn starts_with(t: Seq<char>, p: Seq<char>) -> bool {
    p.len() <= t.len() && t.take(p.len() as int) == p
}

/// Reads a claims text: id, username, iat and exp.
pub open spec fn read_claims(t: Seq<char>) -> Option<(Seq<char>, Seq<char>, nat, nat)> {
    if starts_with(t, lit_open()) {
        read_after_open(t.skip(lit_open().len() as int))
    } else {
        None
    }
}

pub open spec fn read_after_open(u: Seq<char>) -> Option<(Seq<char>, Seq<char>, nat, nat)> {
    match unescape(u) {
        Some((id, n)) => read_after_id(id, u.skip(n as int)),
        None => None,
    }
}

pub open spec fn read_after_id(id: Seq<char>, u: Seq<char>) -> Option<(Seq<char>, Seq<char>, nat, nat)> {
    if starts_with(u, lit_username()) {
        let w = u.skip(lit_username().len() as int);
        match unescape(w) {
            Some((username, n)) => read_after_username(id, username, w.skip(n as int)),
            None => None,
        }
    } else {
        None
    }
}

pub open spec fn read_after_username(id: Seq<char>, username: Seq<char>, u: Seq<char>) -> Option<
    (Seq<char>, Seq<char>, nat, nat),
> {
    if starts_with(u, lit_iat()) {
        let w = u.skip(lit_iat().len() as int);
        match read_number(w) {
            Some((iat, n)) => read_after_iat(id, username, iat, w.skip(n as int)),
            None => None,
        }
    } else {
        None
    }
}

pub open spec fn read_after_iat(id: Seq<char>, username: Seq<char>, iat: nat, u: Seq<char>) -> Option<
    (Seq<char>, Seq<char>, nat, nat),
> {
    if starts_with(u, lit_exp()) {
        let w = u.skip(lit_exp().len() as int);
        match read_number(w) {
            Some((exp, n)) => if w.skip(n as int) == lit_close() {
                Some((id, username, iat, exp))
            } else {
                None
            },
            None => None,
        }
    } else {
        None
    }
}

proof fn lemma_read_exp(id: Seq<char>, username: Seq<char>, iat: nat, exp: nat)
    requires
        exp <= u64::MAX,
    ensures
        read_after_iat(id, username, iat, lit_exp() + decimal(exp) + lit_close()) == Some(
            (id, username, iat, exp),
        ),
{
    let u = lit_exp() + decimal(exp) + lit_close();
    assert(u.take(lit_exp().len() as int) =~= lit_exp());
    let w = u.skip(lit_exp().len() as int);
    assert(w =~= decimal(exp) + lit_close());
    assert(!is_digit(lit_close()[0]));
    lemma_read_decimal(exp, lit_close());
    assert(w.skip(decimal(exp).len() as int) =~= lit_close());
}

proof fn lemma_read_iat(id: Seq<char>, username: Seq<char>, iat: nat, exp: nat)
    requires
        iat <= u64::MAX,
        exp <= u64::MAX,
    ensures
        read_after_username(id, username, lit_iat() + decimal(iat) + lit_exp() + decimal(exp)
            + lit_close()) == Some((id, username, iat, exp)),
{
    let rest = lit_exp() + decimal(exp) + lit_close();
    let u = lit_iat() + decimal(iat) + lit_exp() + decimal(exp) + lit_close();
    assert(u =~= lit_iat() + decimal(iat) + rest);
    assert(u.take(lit_iat().len() as int) =~= lit_iat());
    let w = u.skip(lit_iat().len() as int);
    assert(w =~= decimal(iat) + rest);
    assert(!is_digit(rest[0]));
    lemma_read_decimal(iat, rest);
    assert(w.skip(decimal(iat).len() as int) =~= rest);
    lemma_read_exp(id, username, iat, exp);
}

proof fn lemma_read_username(id: Seq<char>, username: Seq<char>, rest: Seq<char>)
    ensures
        read_after_id(id, lit_username() + escape(username) + seq!['"'] + rest) == read_after_username(
            id,
            username,
            rest,
        ),
{
    let u = lit_username() + escape(username) + seq!['"'] + rest;
    assert(u.take(lit_username().len() as int) =~= lit_username());
    let w = u.skip(lit_username().len() as int);
    assert(w =~= escape(username) + seq!['"'] + rest);
    lemma_unescape_escape(username, rest);
    assert(w.skip(escape(username).len() + 1int) =~= rest);
}

proof fn lemma_read_id(id: Seq<char>, rest: Seq<char>)
    ensures
        read_after_open(escape(id) + seq!['"'] + rest) == read_after_id(id, rest),
{
    let u = escape(id) + seq!['"'] + rest;
    lemma_unescape_escape(id, rest);
    assert(u.skip(escape(id).len() + 1int) =~= rest);
}

/// A claims text is read back as the claims it was written from.
pub proof fn lemma_read_claims_text(id: Seq<char>, username: Seq<char>, iat: nat, exp: nat)
    requires
        iat <= u64::MAX,
        exp <= u64::MAX,
    ensures
        read_claims(claims_text(id, username, iat, exp)) == Some((id, username, iat, exp)),
{
    let q = seq!['"'];
    let tail_iat = lit_iat() + decimal(iat) + lit_exp() + decimal(exp) + lit_close();
    let tail_un = lit_username() + escape(username) + q + tail_iat;
    let t = claims_text(id, username, iat, exp);
    assert(t =~= lit_open() + (escape(id) + q + tail_un));
    assert(t.take(lit_open().len() as int) =~= lit_open());
    assert(t.skip(lit_open().len() as int) =~= escape(id) + q + tail_un);
    lemma_read_id(id, tail_un);
    lemma_read_username(id, username, tail_iat);
    lemma_read_iat(id, username, iat, exp);
}

proof fn lemma_after_iat_sound(id: Seq<char>, username: Seq<char>, iat: nat, u: Seq<char>)
    requires
        read_after_iat(id, username, iat, u) is Some,
    ensures
        ({
            let c = read_after_iat(id, username, iat, u).unwrap();
            &&& c.0 == id && c.1 == username && c.2 == iat
            &&& u == lit_exp() + decimal(c.3) + lit_close()
        }),
{
    let w = u.skip(lit_exp().len() as int);
    lemma_read_number_sound(w);
    let n = read_number(w).unwrap().1;
    assert(u =~= u.take(lit_exp().len() as int) + w.take(n as int) + w.skip(n as int));
}

proof fn lemma_after_username_sound(id: Seq<char>, username: Seq<char>, u: Seq<char>)
    requires
        read_after_username(id, username, u) is Some,
    ensures
        ({
            let c = read_after_username(id, username, u).unwrap();
            &&& c.0 == id && c.1 == username
            &&& u == lit_iat() + decimal(c.2) + lit_exp() + decimal(c.3) + lit_close()
        }),
{
    let w = u.skip(lit_iat().len() as int);
    lemma_read_number_sound(w);
    let (iat, n) = read_number(w).unwrap();
    lemma_after_iat_sound(id, username, iat, w.skip(n as int));
    assert(u =~= u.take(lit_iat().len() as int) + w.take(n as int) + w.skip(n as int));
}

proof fn lemma_after_id_sound(id: Seq<char>, u: Seq<char>)
    requires
        read_after_id(id, u) is Some,
    ensures
        ({
            let c = read_after_id(id, u).unwrap();
            &&& c.0 == id
            &&& u == lit_username() + escape(c.1) + seq!['"'] + lit_iat() + decimal(c.2) + lit_exp()
                + decimal(c.3) + lit_close()
        }),
{
    let w = u.skip(lit_username().len() as int);
    lemma_unescape_sound(w);
    let (username, n) = unescape(w).unwrap();
    lemma_after_username_sound(id, username, w.skip(n as int));
    assert(u =~= u.take(lit_username().len() as int) + w.take(n as int) + w.skip(n as int));
}

proof fn lemma_after_open_sound(u: Seq<char>)
    requires
        read_after_open(u) is Some,
    ensures
        ({
            let c = read_after_open(u).unwrap();
            u == escape(c.0) + seq!['"'] + lit_username() + escape(c.1) + seq!['"'] + lit_iat()
                + decimal(c.2) + lit_exp() + decimal(c.3) + lit_close()
        }),
{
    lemma_unescape_sound(u);
    let (id, n) = unescape(u).unwrap();
    lemma_after_id_sound(id, u.skip(n as int));
    assert(u =~= u.take(n as int) + u.skip(n as int));
}

/// `read_claims` reads only claims texts: what it reads, written again, is
/// the text it read.
pub proof fn lemma_read_claims_sound(t: Seq<char>)
    requires
        read_claims(t) is Some,
    ensures
        ({
            let c = read_claims(t).unwrap();
            t == claims_text(c.0, c.1, c.2, c.3)
        }),
{
    let u = t.skip(lit_open().len() as int);
    lemma_after_open_sound(u);
    let c = read_claims(t).unwrap();
    assert(t =~= t.take(lit_open().len() as int) + u);
    assert(t =~= claims_text(c.0, c.1, c.2, c.3));
}

fn chars_open() -> (r: Vec<char>)
    ensures
        r@ == lit_open(),
{
    let r = vec!['{', '"', 'i', 'd', '"', ':', '"'];
    assert(r@ =~= lit_open());
    r
}

fn chars_username() -> (r: Vec<char>)
    ensures
        r@ == lit_username(),
{
    let r = vec![',', '"', 'u', 's', 'e', 'r', 'n', 'a', 'm', 'e', '"', ':', '"'];
    assert(r@ =~= lit_username());
    r
}

fn chars_iat() -> (r: Vec<char>)
    ensures
        r@ == lit_iat(),
{
    let r = vec![',', '"', 'i', 'a', 't', '"', ':'];
    assert(r@ =~= lit_iat());
    r
}

fn chars_exp() -> (r: Vec<char>)
    ensures
        r@ == lit_exp(),
{
    let r = vec![',', '"', 'e', 'x', 'p', '"', ':'];
    assert(r@ =~= lit_exp());
    r
}

fn push_all(out: &mut Vec<char>, s: &Vec<char>)
    ensures
        final(out)@ == old(out)@ + s@,
{
    let ghost start = out@;
    let mut i: usize = 0;
    while i < s.len()
        invariant
            i <= s@.len(),
            out@ == start + s@.take(i as int),
        decreases s@.len() - i,
    {
        out.push(s[i]);
        i = i + 1;
        assert(out@ =~= start + s@.take(i as int));
    }
    assert(s@.take(i as int) =~= s@);
}

/// Whether `lit` stands in `t` at `pos`.
fn matches_at(t: &Vec<char>, pos: usize, lit: &Vec<char>) -> (r: bool)
    requires
        pos <= t@.len(),
    ensures
        r == starts_with(t@.skip(pos as int), lit@),
        t@.len() <= usize::MAX,
{
    let tl = t.len();
    if tl - pos < lit.len() {
        return false;
    }
    let mut j: usize = 0;
    while j < lit.len()
        invariant
            tl == t@.len(),
            j <= lit@.len(),
            pos + lit@.len() <= t@.len(),
            t@.skip(pos as int).take(j as int) == lit@.take(j as int),
        decreases lit@.len() - j,
    {
        if t[pos + j] != lit[j] {
            assert(t@.skip(pos as int).take(lit@.len() as int)[j as int] != lit@[j as int]);
            return false;
        }
        j = j + 1;
        assert(t@.skip(pos as int).take(j as int) =~= lit@.take(j as int));
    }
    assert(lit@.take(j as int) =~= lit@);
    true
}

/// Writes the claims text of a session.
pub fn write_claims(id: &Vec<char>, username: &Vec<char>, iat: u64, exp: u64) -> (r: Vec<char>)
    ensures
        r@ == claims_text(id@, username@, iat as nat, exp as nat),
{
    let mut out = chars_open();
    push_escaped(&mut out, id);
    out.push('"');
    push_all(&mut out, &chars_username());
    push_escaped(&mut out, username);
    out.push('"');
    push_all(&mut out, &chars_iat());
    push_decimal(&mut out, iat);
    push_all(&mut out, &chars_exp());
    push_decimal(&mut out, exp);
    out.push('}');
    assert(out@ =~= claims_text(id@, username@, iat as nat, exp as nat));
    out
}

pub open spec fn claims_view(x: (Vec<char>, Vec<char>, u64, u64)) -> (Seq<char>, Seq<char>, nat, nat) {
    (x.0@, x.1@, x.2 as nat, x.3 as nat)
}

/// `r` is what `o` describes.
pub open spec fn agrees(
    r: Option<(Vec<char>, Vec<char>, u64, u64)>,
    o: Option<(Seq<char>, Seq<char>, nat, nat)>,
) -> bool {
    match o {
        Some(v) => r is Some && claims_view(r.unwrap()) == v,
        None => r is None,
    }
}

fn parse_after_iat(t: &Vec<char>, id: Vec<char>, username: Vec<char>, iat: u64, pos: usize) -> (r:
    Option<(Vec<char>, Vec<char>, u64, u64)>)
    requires
        pos <= t@.len(),
    ensures
        agrees(r, read_after_iat(id@, username@, iat as nat, t@.skip(pos as int))),
{
    if !matches_at(t, pos, &chars_exp()) {
        return None;
    }
    let g: usize = pos + 7;
    assert(t@.skip(pos as int).skip(7) =~= t@.skip(g as int));
    let (exp, h) = match parse_number(t, g) {
        Some(x) => x,
        None => return None,
    };
    assert(t@.skip(g as int).skip(h - g) =~= t@.skip(h as int));
    if h < t.len() && h + 1 == t.len() && t[h] == '}' {
        assert(t@.skip(h as int) =~= lit_close());
        Some((id, username, iat, exp))
    } else {
        assert(t@.skip(h as int) != lit_close()) by {
            if t@.skip(h as int) == lit_close() {
                assert(t@.skip(h as int)[0] == t@[h as int]);
            }
        }
        None
    }
}

fn parse_after_username(t: &Vec<char>, id: Vec<char>, username: Vec<char>, pos: usize) -> (r:
    Option<(Vec<char>, Vec<char>, u64, u64)>)
    requires
        pos <= t@.len(),
    ensures
        agrees(r, read_after_username(id@, username@, t@.skip(pos as int))),
{
    if !matches_at(t, pos, &chars_iat()) {
        return None;
    }
    let e: usize = pos + 7;
    assert(t@.skip(pos as int).skip(7) =~= t@.skip(e as int));
    let (iat, f) = match parse_number(t, e) {
        Some(x) => x,
        None => return None,
    };
    assert(t@.skip(e as int).skip(f - e) =~= t@.skip(f as int));
    parse_after_iat(t, id, username, iat, f)
}

fn parse_after_id(t: &Vec<char>, id: Vec<char>, pos: usize) -> (r: Option<
    (Vec<char>, Vec<char>, u64, u64),
>)
    requires
        pos <= t@.len(),
    ensures
        agrees(r, read_after_id(id@, t@.skip(pos as int))),
{
    if !matches_at(t, pos, &chars_username()) {
        return None;
    }
    let c: usize = pos + 13;
    assert(t@.skip(pos as int).skip(13) =~= t@.skip(c as int));
    let (username, d) = match parse_string(t, c) {
        Some(x) => x,
        None => return None,
    };
    assert(t@.skip(c as int).skip(d - c) =~= t@.skip(d as int));
    parse_after_username(t, id, username, d)
}

/// Reads a claims text as `read_claims` does: id, username, iat and exp.
pub fn parse_claims(t: &Vec<char>) -> (r: Option<(Vec<char>, Vec<char>, u64, u64)>)
    ensures
        agrees(r, read_claims(t@)),
{
    assert(t@.skip(0) =~= t@);
    if !matches_at(t, 0, &chars_open()) {
        return None;
    }
    let (id, b) = match parse_string(t, 7) {
        Some(x) => x,
        None => return None,
    };
    assert(t@.skip(7).skip(b - 7) =~= t@.skip(b as int));
    parse_after_id(t, id, b)
}

} // verus!
