//! The account record's wire format.
//!
//! An account is stored as the JSON text
//! `{"login":"<escaped login>","secret":{"hash":[..],"salt":[..]}}`, with the
//! byte sequences written as decimal arrays and the login escaped as JSON
//! requires. Rendering and parsing are both defined here as functions on
//! character sequences; parsing exactly inverts rendering.

use vstd::prelude::*;

verus! {

use crate::codec::Secret;
use vstd::string::StrSliceExecFns;

// ---------------------------------------------------------------------------
// Digits
// ---------------------------------------------------------------------------

/// The lowercase hexadecimal digit for `n` (also the decimal digit when
/// `n < 10`).
pub open spec fn hex_digit(n: int) -> char {
    if n == 0 { '0' }
    else if n == 1 { '1' }
    else if n == 2 { '2' }
    else if n == 3 { '3' }
    else if n == 4 { '4' }
    else if n == 5 { '5' }
    else if n == 6 { '6' }
    else if n == 7 { '7' }
    else if n == 8 { '8' }
    else if n == 9 { '9' }
    else if n == 10 { 'a' }
    else if n == 11 { 'b' }
    else if n == 12 { 'c' }
    else if n == 13 { 'd' }
    else if n == 14 { 'e' }
    else if n == 15 { 'f' }
    else { '?' }
}

/// The value of a decimal digit, or -1 for any other character.
pub open spec fn dec_val(c: char) -> int {
    if c == '0' { 0 }
    else if c == '1' { 1 }
    else if c == '2' { 2 }
    else if c == '3' { 3 }
    else if c == '4' { 4 }
    else if c == '5' { 5 }
    else if c == '6' { 6 }
    else if c == '7' { 7 }
    else if c == '8' { 8 }
    else if c == '9' { 9 }
    else { -1 }
}

/// The value of a lowercase hexadecimal digit, or -1 for any other character.
pub open spec fn hex_val(c: char) -> int {
    if c == 'a' { 10 }
    else if c == 'b' { 11 }
    else if c == 'c' { 12 }
    else if c == 'd' { 13 }
    else if c == 'e' { 14 }
    else if c == 'f' { 15 }
    else { dec_val(c) }
}

// ---------------------------------------------------------------------------
// Rendering
// ---------------------------------------------------------------------------

/// How one character of a login is written inside a JSON string: the quote
/// and backslash get a two-character escape, the common control characters
/// their short escapes, the remaining control characters a `\u00xy` escape,
/// and every other character stands for itself.
pub open spec fn spec_escape_char(c: char) -> Seq<char> {
    if c == '"' { seq!['\\', '"'] }
    else if c == '\\' { seq!['\\', '\\'] }
    else if c == '\u{8}' { seq!['\\', 'b'] }
    else if c == '\u{c}' { seq!['\\', 'f'] }
    else if c == '\n' { seq!['\\', 'n'] }
    else if c == '\r' { seq!['\\', 'r'] }
    else if c == '\t' { seq!['\\', 't'] }
    else if (c as u32) < 32 {
        seq!['\\', 'u', '0', '0', hex_digit((c as u32 / 16) as int), hex_digit((c as u32 % 16) as int)]
    }
    else { seq![c] }
}

/// The JSON string body for `s`: each character escaped in turn.
pub open spec fn spec_escape(s: Seq<char>) -> Seq<char>
    decreases s.len(),
{
    if s.len() == 0 { Seq::empty() } else { spec_escape_char(s[0]) + spec_escape(s.skip(1)) }
}

/// The canonical decimal rendering of a byte: one to three digits, no
/// leading zero.
pub open spec fn spec_u8_decimal(n: u8) -> Seq<char> {
    if n < 10 { seq![hex_digit(n as int)] }
    else if n < 100 { seq![hex_digit(n as int / 10), hex_digit(n as int % 10)] }
    else { seq![hex_digit(n as int / 100), hex_digit((n as int / 10) % 10), hex_digit(n as int % 10)] }
}

/// The comma-separated decimal renderings of the bytes, without brackets.
pub open spec fn spec_bytes_array(b: Seq<u8>) -> Seq<char>
    decreases b.len(),
{
    if b.len() == 0 { Seq::empty() }
    else if b.len() == 1 { spec_u8_decimal(b[0]) }
    else { spec_u8_decimal(b[0]) + seq![','] + spec_bytes_array(b.skip(1)) }
}

/// A byte sequence as a JSON array of decimal numbers.
pub open spec fn spec_bytes_json(b: Seq<u8>) -> Seq<char> {
    seq!['['] + spec_bytes_array(b) + seq![']']
}

/// `{"login":"`
pub open spec fn lit_prefix() -> Seq<char> {
    seq!['{', '"', 'l', 'o', 'g', 'i', 'n', '"', ':', '"']
}

/// `","secret":{"hash":` without its leading quote, which the string body
/// rendering accounts for.
pub open spec fn lit_infix1() -> Seq<char> {
    seq![',', '"', 's', 'e', 'c', 'r', 'e', 't', '"', ':', '{', '"', 'h', 'a', 's', 'h', '"', ':']
}

/// `,"salt":`
pub open spec fn lit_infix2() -> Seq<char> {
    seq![',', '"', 's', 'a', 'l', 't', '"', ':']
}

/// `}}`
pub open spec fn lit_suffix() -> Seq<char> {
    seq!['}', '}']
}

/// The full account record text for a login and its secret's hash and salt.
pub open spec fn spec_account_json(login: Seq<char>, hash: Seq<u8>, salt: Seq<u8>) -> Seq<char> {
    lit_prefix() + spec_escape(login) + seq!['"'] + lit_infix1() + spec_bytes_json(hash)
        + lit_infix2() + spec_bytes_json(salt) + lit_suffix()
}

// ---------------------------------------------------------------------------
// Parsing
// ---------------------------------------------------------------------------

/// The character a short escape stands for.
pub open spec fn unescape_short(c: char) -> char {
    if c == '"' { '"' }
    else if c == '\\' { '\\' }
    else if c == 'b' { '\u{8}' }
    else if c == 'f' { '\u{c}' }
    else if c == 'n' { '\n' }
    else if c == 'r' { '\r' }
    else { '\t' }
}

/// Whether `c` is one of the short escape letters.
pub open spec fn is_short_escape(c: char) -> bool {
    c == '"' || c == '\\' || c == 'b' || c == 'f' || c == 'n' || c == 'r' || c == 't'
}

/// Reads a JSON string body from the front of `s` up to and including the
/// closing quote: the unescaped characters and the remainder after the
/// quote, or nothing if the text is not a string body written by
/// [`spec_escape`]'s rules.
pub open spec fn spec_parse_string(s: Seq<char>) -> Option<(Seq<char>, Seq<char>)>
    decreases s.len(),
{
    if s.len() == 0 { None }
    else if s[0] == '"' { Some((Seq::empty(), s.skip(1))) }
    else if s[0] == '\\' {
        if s.len() >= 2 && is_short_escape(s[1]) {
            match spec_parse_string(s.skip(2)) {
                Some((t, rest)) => Some((seq![unescape_short(s[1])] + t, rest)),
                None => None,
            }
        } else if s.len() >= 6 && s[1] == 'u' && s[2] == '0' && s[3] == '0' && hex_val(s[4]) >= 0
            && hex_val(s[5]) >= 0 {
            match spec_parse_string(s.skip(6)) {
                Some((t, rest)) => Some(
                    (seq![((hex_val(s[4]) * 16 + hex_val(s[5])) as u8) as char] + t, rest),
                ),
                None => None,
            }
        } else { None }
    }
    else if (s[0] as u32) < 32 { None }
    else {
        match spec_parse_string(s.skip(1)) {
            Some((t, rest)) => Some((seq![s[0]] + t, rest)),
            None => None,
        }
    }
}

/// Reads a decimal number of at most three digits from the front of `s`:
/// its value as a byte and the remainder, or nothing if `s` does not start
/// with a digit or the three digits exceed a byte.
pub open spec fn spec_parse_u8(s: Seq<char>) -> Option<(u8, Seq<char>)> {
    if s.len() >= 1 && dec_val(s[0]) >= 0 {
        if s.len() >= 2 && dec_val(s[1]) >= 0 {
            if s.len() >= 3 && dec_val(s[2]) >= 0 {
                let v = dec_val(s[0]) * 100 + dec_val(s[1]) * 10 + dec_val(s[2]);
                if v < 256 { Some((v as u8, s.skip(3))) } else { None }
            } else {
                Some(((dec_val(s[0]) * 10 + dec_val(s[1])) as u8, s.skip(2)))
            }
        } else {
            Some((dec_val(s[0]) as u8, s.skip(1)))
        }
    } else {
        None
    }
}

/// Reads the non-empty inside of a decimal array after its `[`, up to and
/// including the `]`: the bytes and the remainder after the bracket.
pub open spec fn spec_parse_items(s: Seq<char>) -> Option<(Seq<u8>, Seq<char>)>
    decreases s.len(),
{
    match spec_parse_u8(s) {
        Some((n, r)) => {
            if r.len() > 0 && r[0] == ',' {
                match spec_parse_items(r.skip(1)) {
                    Some((b, rest)) => Some((seq![n] + b, rest)),
                    None => None,
                }
            } else if r.len() > 0 && r[0] == ']' {
                Some((seq![n], r.skip(1)))
            } else {
                None
            }
        },
        None => None,
    }
}

/// Reads a decimal array `[..]` from the front of `s`: the bytes and the
/// remainder after the closing bracket.
pub open spec fn spec_parse_bytes(s: Seq<char>) -> Option<(Seq<u8>, Seq<char>)> {
    if s.len() >= 2 && s[0] == '[' && s[1] == ']' { Some((Seq::<u8>::empty(), s.skip(2))) }
    else if s.len() >= 1 && s[0] == '[' { spec_parse_items(s.skip(1)) }
    else { None }
}

/// Reads a whole account record: the login, hash and salt, or nothing if
/// the text is not exactly a record written by [`spec_account_json`]'s
/// rules.
pub open spec fn spec_parse_account(s: Seq<char>) -> Option<(Seq<char>, Seq<u8>, Seq<u8>)> {
    if s.len() >= 10 && s.take(10) == lit_prefix() {
        match spec_parse_string(s.skip(10)) {
            Some((login, r1)) => {
                if r1.len() >= 18 && r1.take(18) == lit_infix1() {
                    match spec_parse_bytes(r1.skip(18)) {
                        Some((hash, r2)) => {
                            if r2.len() >= 8 && r2.take(8) == lit_infix2() {
                                match spec_parse_bytes(r2.skip(8)) {
                                    Some((salt, r3)) => {
                                        if r3 == lit_suffix() { Some((login, hash, salt)) } else { None }
                                    },
                                    None => None,
                                }
                            } else { None }
                        },
                        None => None,
                    }
                } else { None }
            },
            None => None,
        }
    } else { None }
}

// ---------------------------------------------------------------------------
// Parsing inverts rendering
// ---------------------------------------------------------------------------

/// Parsing one escaped character from the front of a string body consumes
/// exactly its escape and yields the character back.
proof fn lemma_parse_escape_char(c: char, tail: Seq<char>)
    ensures
        spec_parse_string(spec_escape_char(c) + tail) == (match spec_parse_string(tail) {
            Some((t, rest)) => Some((seq![c] + t, rest)),
            None => None::<(Seq<char>, Seq<char>)>,
        }),
{
    let e = spec_escape_char(c) + tail;
    if c == '"' || c == '\\' || c == '\u{8}' || c == '\u{c}' || c == '\n' || c == '\r' || c == '\t' {
        assert(e.skip(2) =~= tail);
        assert(unescape_short(e[1]) == c);
    } else if (c as u32) < 32 {
        assert(e.skip(6) =~= tail);
        let hi = (c as u32 / 16) as int;
        let lo = (c as u32 % 16) as int;
        assert(0 <= hi < 2 && 0 <= lo < 16);
        assert(hex_val(hex_digit(hi)) == hi);
        assert(hex_val(hex_digit(lo)) == lo);
        assert(hi * 16 + lo == c as u32) by {
            vstd::arithmetic::div_mod::lemma_fundamental_div_mod(c as u32 as int, 16);
        }
        assert((((hi * 16 + lo) as u8) as char) == c) by {
            assert((hi * 16 + lo) as u8 == c as u32 as u8);
            assert(c as u32 as u8 as char == c);
        }
    } else {
        assert(e[0] == c);
        assert(e.skip(1) =~= tail);
    }
}

/// Parsing a rendered string body consumes the whole escape of `s` and its
/// closing quote, and yields `s` and the remainder untouched.
pub proof fn lemma_parse_escaped(s: Seq<char>, rest: Seq<char>)
    ensures
        spec_parse_string(spec_escape(s) + seq!['"'] + rest) == Some((s, rest)),
    decreases s.len(),
{
    if s.len() == 0 {
        assert(spec_escape(s) + seq!['"'] + rest =~= seq!['"'] + rest);
        assert((seq!['"'] + rest).skip(1) =~= rest);
    } else {
        lemma_parse_escaped(s.skip(1), rest);
        let tail = spec_escape(s.skip(1)) + seq!['"'] + rest;
        lemma_parse_escape_char(s[0], tail);
        assert(spec_escape(s) + seq!['"'] + rest =~= spec_escape_char(s[0]) + tail);
        assert(seq![s[0]] + s.skip(1) =~= s);
    }
}

/// Parsing a rendered decimal yields the byte back, provided what follows
/// does not begin with another digit.
proof fn lemma_parse_u8(n: u8, rest: Seq<char>)
    requires
        rest.len() == 0 || dec_val(rest[0]) < 0,
    ensures
        spec_parse_u8(spec_u8_decimal(n) + rest) == Some((n, rest)),
{
    let s = spec_u8_decimal(n) + rest;
    let m = n as int;
    if n < 10 {
        assert(s.skip(1) =~= rest);
    } else if n < 100 {
        assert(s.skip(2) =~= rest);
        assert(dec_val(hex_digit(m / 10)) == m / 10);
        assert(dec_val(hex_digit(m % 10)) == m % 10);
        assert((m / 10) * 10 + m % 10 == m) by {
            vstd::arithmetic::div_mod::lemma_fundamental_div_mod(m, 10);
        }
    } else {
        assert(s.skip(3) =~= rest);
        assert(dec_val(hex_digit(m / 100)) == m / 100);
        assert(dec_val(hex_digit((m / 10) % 10)) == (m / 10) % 10);
        assert(dec_val(hex_digit(m % 10)) == m % 10);
        assert((m / 100) * 100 + ((m / 10) % 10) * 10 + m % 10 == m) by {
            vstd::arithmetic::div_mod::lemma_fundamental_div_mod(m, 10);
            vstd::arithmetic::div_mod::lemma_fundamental_div_mod(m / 10, 10);
            vstd::arithmetic::div_mod::lemma_div_denominator(m, 10, 10);
        }
    }
}

/// Parsing the rendered inside of a non-empty array consumes it up to and
/// including the closing bracket and yields the bytes back.
#[verifier::rlimit(100)]
#[verifier::spinoff_prover]
proof fn lemma_parse_items(b: Seq<u8>, rest: Seq<char>)
    requires
        b.len() > 0,
    ensures
        spec_parse_items(spec_bytes_array(b) + seq![']'] + rest) == Some((b, rest)),
    decreases b.len(),
{
    let s = spec_bytes_array(b) + seq![']'] + rest;
    if b.len() == 1 {
        let r = seq![']'] + rest;
        assert(spec_parse_u8(s) == Some((b[0], r))) by {
            lemma_parse_u8(b[0], r);
            assert(s =~= spec_u8_decimal(b[0]) + r);
        }
        assert(r[0] == ']');
        assert(r.skip(1) =~= rest);
        assert(seq![b[0]] =~= b);
    } else {
        let tail = spec_bytes_array(b.skip(1)) + seq![']'] + rest;
        let r = seq![','] + tail;
        assert(spec_parse_u8(s) == Some((b[0], r))) by {
            lemma_parse_u8(b[0], r);
            assert(s =~= spec_u8_decimal(b[0]) + r);
        }
        assert(r[0] == ',');
        assert(r.skip(1) =~= tail);
        assert(spec_parse_items(tail) == Some((b.skip(1), rest))) by {
            lemma_parse_items(b.skip(1), rest);
        }
        assert(seq![b[0]] + b.skip(1) =~= b);
    }
}

/// Parsing a rendered array yields the bytes back.
proof fn lemma_parse_bytes(b: Seq<u8>, rest: Seq<char>)
    ensures
        spec_parse_bytes(spec_bytes_json(b) + rest) == Some((b, rest)),
{
    let s = spec_bytes_json(b) + rest;
    if b.len() == 0 {
        assert(s =~= seq!['[', ']'] + rest);
        assert(s.skip(2) =~= rest);
        assert(spec_bytes_array(b) =~= Seq::<char>::empty());
        assert(s[1] == ']');
    } else {
        assert(spec_bytes_array(b).len() > 0) by {
            if b.len() == 1 {
            } else {
            }
        }
        assert(s[0] == '[');
        assert(s[1] != ']') by {
            let a = spec_bytes_array(b);
            assert(a[0] == spec_u8_decimal(b[0])[0]);
            assert(dec_val(spec_u8_decimal(b[0])[0]) >= 0);
            assert(s[1] == a[0]);
        }
        lemma_parse_items(b, rest);
        assert(s.skip(1) =~= spec_bytes_array(b) + seq![']'] + rest);
    }
}

/// Parsing inverts rendering: a record written by [`spec_account_json`]
/// reads back as exactly the login, hash and salt it was written from.
pub proof fn lemma_parse_account_roundtrip(login: Seq<char>, hash: Seq<u8>, salt: Seq<u8>)
    ensures
        spec_parse_account(spec_account_json(login, hash, salt)) == Some((login, hash, salt)),
{
    let s = spec_account_json(login, hash, salt);
    let r1 = lit_infix1() + spec_bytes_json(hash) + lit_infix2() + spec_bytes_json(salt)
        + lit_suffix();
    assert(s.take(10) =~= lit_prefix());
    assert(s.skip(10) =~= spec_escape(login) + seq!['"'] + r1);
    lemma_parse_escaped(login, r1);
    assert(r1.take(18) =~= lit_infix1());
    assert(r1.skip(18) =~= spec_bytes_json(hash) + (lit_infix2() + spec_bytes_json(salt)
        + lit_suffix()));
    lemma_parse_bytes(hash, lit_infix2() + spec_bytes_json(salt) + lit_suffix());
    let r2 = lit_infix2() + spec_bytes_json(salt) + lit_suffix();
    assert(r2.take(8) =~= lit_infix2());
    assert(r2.skip(8) =~= spec_bytes_json(salt) + lit_suffix());
    lemma_parse_bytes(salt, lit_suffix());
}

// ---------------------------------------------------------------------------
// Character helpers
// ---------------------------------------------------------------------------

/// The characters of `s`, in order.
pub fn str_chars(s: &str) -> (r: Vec<char>)
    ensures
        r@ == s@,
{
    let n = s.unicode_len();
    let mut v: Vec<char> = Vec::new();
    let mut i: usize = 0;
    while i < n
        invariant
            n == s@.len(),
            i <= n,
            v@ == s@.take(i as int),
        decreases n - i,
    {
        let c = s.get_char(i);
        v.push(c);
        assert(v@ =~= s@.take(i as int + 1));
        i += 1;
    }
    assert(v@ =~= s@);
    v
}

/// Relies on std's `FromIterator` for `String`: collecting characters
/// yields the string of exactly those characters in order.
#[verifier::external_body]
pub fn chars_to_string(v: &Vec<char>) -> (r: String)
    ensures
        r@ == v@,
{
    v.iter().collect()
}

fn hex_digit_exec(n: u8) -> (c: char)
    requires
        n < 16,
    ensures
        c == hex_digit(n as int),
{
    if n == 0 { '0' }
    else if n == 1 { '1' }
    else if n == 2 { '2' }
    else if n == 3 { '3' }
    else if n == 4 { '4' }
    else if n == 5 { '5' }
    else if n == 6 { '6' }
    else if n == 7 { '7' }
    else if n == 8 { '8' }
    else if n == 9 { '9' }
    else if n == 10 { 'a' }
    else if n == 11 { 'b' }
    else if n == 12 { 'c' }
    else if n == 13 { 'd' }
    else if n == 14 { 'e' }
    else { 'f' }
}

fn dec_val_exec(c: char) -> (r: Option<u8>)
    ensures
        match r {
            Some(v) => dec_val(c) == v as int && v < 10,
            None => dec_val(c) < 0,
        },
{
    if c == '0' { Some(0) }
    else if c == '1' { Some(1) }
    else if c == '2' { Some(2) }
    else if c == '3' { Some(3) }
    else if c == '4' { Some(4) }
    else if c == '5' { Some(5) }
    else if c == '6' { Some(6) }
    else if c == '7' { Some(7) }
    else if c == '8' { Some(8) }
    else if c == '9' { Some(9) }
    else { None }
}

fn hex_val_exec(c: char) -> (r: Option<u8>)
    ensures
        match r {
            Some(v) => hex_val(c) == v as int && v < 16,
            None => hex_val(c) < 0,
        },
{
    if c == 'a' { Some(10) }
    else if c == 'b' { Some(11) }
    else if c == 'c' { Some(12) }
    else if c == 'd' { Some(13) }
    else if c == 'e' { Some(14) }
    else if c == 'f' { Some(15) }
    else { dec_val_exec(c) }
}

fn unescape_short_exec(c: char) -> (r: char)
    ensures
        r == unescape_short(c),
{
    if c == '"' { '"' }
    else if c == '\\' { '\\' }
    else if c == 'b' { '\u{8}' }
    else if c == 'f' { '\u{c}' }
    else if c == 'n' { '\n' }
    else if c == 'r' { '\r' }
    else { '\t' }
}

// ---------------------------------------------------------------------------
// Rendering, executable
// ---------------------------------------------------------------------------

fn escape_char_into(c: char, out: &mut Vec<char>)
    ensures
        final(out)@ == old(out)@ + spec_escape_char(c),
{
    if c == '"' {
        out.push('\\');
        out.push('"');
        assert(final(out)@ =~= old(out)@ + spec_escape_char(c));
    } else if c == '\\' {
        out.push('\\');
        out.push('\\');
        assert(final(out)@ =~= old(out)@ + spec_escape_char(c));
    } else if c == '\u{8}' {
        out.push('\\');
        out.push('b');
        assert(final(out)@ =~= old(out)@ + spec_escape_char(c));
    } else if c == '\u{c}' {
        out.push('\\');
        out.push('f');
        assert(final(out)@ =~= old(out)@ + spec_escape_char(c));
    } else if c == '\n' {
        out.push('\\');
        out.push('n');
        assert(final(out)@ =~= old(out)@ + spec_escape_char(c));
    } else if c == '\r' {
        out.push('\\');
        out.push('r');
        assert(final(out)@ =~= old(out)@ + spec_escape_char(c));
    } else if c == '\t' {
        out.push('\\');
        out.push('t');
        assert(final(out)@ =~= old(out)@ + spec_escape_char(c));
    } else if (c as u32) < 32 {
        let code = c as u32;
        out.push('\\');
        out.push('u');
        out.push('0');
        out.push('0');
        out.push(hex_digit_exec((code / 16) as u8));
        out.push(hex_digit_exec((code % 16) as u8));
        assert(final(out)@ =~= old(out)@ + spec_escape_char(c));
    } else {
        out.push(c);
        assert(final(out)@ =~= old(out)@ + spec_escape_char(c));
    }
}

fn escape_into(s: &Vec<char>, i: usize, out: &mut Vec<char>)
    requires
        i <= s@.len(),
    ensures
        final(out)@ == old(out)@ + spec_escape(s@.skip(i as int)),
    decreases s@.len() - i,
{
    if i == s.len() {
        assert(s@.skip(i as int) =~= Seq::<char>::empty());
        assert(final(out)@ =~= old(out)@ + Seq::<char>::empty());
    } else {
        let ghost t = s@.skip(i as int);
        assert(t[0] == s@[i as int]);
        escape_char_into(s[i], out);
        escape_into(s, i + 1, out);
        assert(t.skip(1) =~= s@.skip(i as int + 1));
        assert(final(out)@ =~= old(out)@ + spec_escape(t));
    }
}

fn u8_decimal_into(n: u8, out: &mut Vec<char>)
    ensures
        final(out)@ == old(out)@ + spec_u8_decimal(n),
{
    if n < 10 {
        out.push(hex_digit_exec(n));
        assert(final(out)@ =~= old(out)@ + spec_u8_decimal(n));
    } else if n < 100 {
        out.push(hex_digit_exec(n / 10));
        out.push(hex_digit_exec(n % 10));
        assert(final(out)@ =~= old(out)@ + spec_u8_decimal(n));
    } else {
        out.push(hex_digit_exec(n / 100));
        out.push(hex_digit_exec((n / 10) % 10));
        out.push(hex_digit_exec(n % 10));
        assert(final(out)@ =~= old(out)@ + spec_u8_decimal(n));
    }
}

fn bytes_array_into(b: &Vec<u8>, i: usize, out: &mut Vec<char>)
    requires
        i <= b@.len(),
    ensures
        final(out)@ == old(out)@ + spec_bytes_array(b@.skip(i as int)),
    decreases b@.len() - i,
{
    let ghost t = b@.skip(i as int);
    if i == b.len() {
        assert(t =~= Seq::<u8>::empty());
        assert(final(out)@ =~= old(out)@ + Seq::<char>::empty());
    } else if i + 1 == b.len() {
        assert(t[0] == b@[i as int]);
        u8_decimal_into(b[i], out);
        assert(t.len() == 1);
        assert(final(out)@ =~= old(out)@ + spec_bytes_array(t));
    } else {
        assert(t[0] == b@[i as int]);
        u8_decimal_into(b[i], out);
        out.push(',');
        bytes_array_into(b, i + 1, out);
        assert(t.skip(1) =~= b@.skip(i as int + 1));
        assert(final(out)@ =~= old(out)@ + spec_bytes_array(t));
    }
}

fn bytes_json_into(b: &Vec<u8>, out: &mut Vec<char>)
    ensures
        final(out)@ == old(out)@ + spec_bytes_json(b@),
{
    out.push('[');
    bytes_array_into(b, 0, out);
    out.push(']');
    assert(b@.skip(0) =~= b@);
    assert(final(out)@ =~= old(out)@ + spec_bytes_json(b@));
}

fn lit_prefix_exec() -> (r: Vec<char>)
    ensures
        r@ == lit_prefix(),
{
    let mut v: Vec<char> = Vec::new();
    v.push('{');
    v.push('"');
    v.push('l');
    v.push('o');
    v.push('g');
    v.push('i');
    v.push('n');
    v.push('"');
    v.push(':');
    v.push('"');
    assert(v@ =~= lit_prefix());
    v
}

fn lit_infix1_exec() -> (r: Vec<char>)
    ensures
        r@ == lit_infix1(),
{
    let mut v: Vec<char> = Vec::new();
    v.push(',');
    v.push('"');
    v.push('s');
    v.push('e');
    v.push('c');
    v.push('r');
    v.push('e');
    v.push('t');
    v.push('"');
    v.push(':');
    v.push('{');
    v.push('"');
    v.push('h');
    v.push('a');
    v.push('s');
    v.push('h');
    v.push('"');
    v.push(':');
    assert(v@ =~= lit_infix1());
    v
}

fn lit_infix2_exec() -> (r: Vec<char>)
    ensures
        r@ == lit_infix2(),
{
    let mut v: Vec<char> = Vec::new();
    v.push(',');
    v.push('"');
    v.push('s');
    v.push('a');
    v.push('l');
    v.push('t');
    v.push('"');
    v.push(':');
    assert(v@ =~= lit_infix2());
    v
}

fn lit_suffix_exec() -> (r: Vec<char>)
    ensures
        r@ == lit_suffix(),
{
    let mut v: Vec<char> = Vec::new();
    v.push('}');
    v.push('}');
    assert(v@ =~= lit_suffix());
    v
}

fn push_all(out: &mut Vec<char>, lit: &Vec<char>)
    ensures
        final(out)@ == old(out)@ + lit@,
{
    let n = lit.len();
    let mut k: usize = 0;
    while k < n
        invariant
            n == lit@.len(),
            k <= n,
            out@ == old(out)@ + lit@.take(k as int),
        decreases n - k,
    {
        out.push(lit[k]);
        assert(out@ =~= old(out)@ + lit@.take(k as int + 1));
        k += 1;
    }
    assert(out@ =~= old(out)@ + lit@);
}

/// Writes the account record text for `login` and `secret`.
pub fn account_to_json(login: &str, secret: &Secret) -> (r: String)
    ensures
        r@ == spec_account_json(login@, secret.hash@, secret.salt@),
{
    let chars = str_chars(login);
    let mut out: Vec<char> = Vec::new();
    let prefix = lit_prefix_exec();
    push_all(&mut out, &prefix);
    escape_into(&chars, 0, &mut out);
    assert(chars@.skip(0) =~= login@);
    out.push('"');
    let infix1 = lit_infix1_exec();
    push_all(&mut out, &infix1);
    bytes_json_into(&secret.hash, &mut out);
    let infix2 = lit_infix2_exec();
    push_all(&mut out, &infix2);
    bytes_json_into(&secret.salt, &mut out);
    let suffix = lit_suffix_exec();
    push_all(&mut out, &suffix);
    assert(out@ =~= spec_account_json(login@, secret.hash@, secret.salt@));
    chars_to_string(&out)
}

// ---------------------------------------------------------------------------
// Parsing, executable
// ---------------------------------------------------------------------------

fn parse_string_at(s: &Vec<char>, i: usize) -> (r: Option<(Vec<char>, usize)>)
    requires
        i <= s@.len(),
    ensures
        match r {
            Some(p) => p.1 <= s@.len() && spec_parse_string(s@.skip(i as int)) == Some(
                (p.0@, s@.skip(p.1 as int)),
            ),
            None => spec_parse_string(s@.skip(i as int)) is None,
        },
    decreases s@.len() - i,
{
    let ghost t = s@.skip(i as int);
    if i == s.len() {
        return None;
    }
    assert(t[0] == s@[i as int]);
    let c = s[i];
    if c == '"' {
        let v: Vec<char> = Vec::new();
        assert(t.skip(1) =~= s@.skip(i as int + 1));
        return Some((v, i + 1));
    }
    if c == '\\' {
        if s.len() - i < 2 {
            return None;
        }
        assert(t[1] == s@[i as int + 1]);
        let e = s[i + 1];
        if e == '"' || e == '\\' || e == 'b' || e == 'f' || e == 'n' || e == 'r' || e == 't' {
            let u = unescape_short_exec(e);
            assert(t.skip(2) =~= s@.skip(i as int + 2));
            match parse_string_at(s, i + 2) {
                Some((v0, j)) => {
                    let mut v = v0;
                    let ghost v_old = v@;
                    v.insert(0, u);
                    assert(v@ =~= seq![u] + v_old);
                    Some((v, j))
                },
                None => None,
            }
        } else if e == 'u' {
            if s.len() - i < 6 {
                return None;
            }
            assert(t[2] == s@[i as int + 2]);
            assert(t[3] == s@[i as int + 3]);
            assert(t[4] == s@[i as int + 4]);
            assert(t[5] == s@[i as int + 5]);
            if s[i + 2] != '0' || s[i + 3] != '0' {
                return None;
            }
            let h1 = match hex_val_exec(s[i + 4]) {
                Some(v) => v,
                None => {
                    return None;
                },
            };
            let h2 = match hex_val_exec(s[i + 5]) {
                Some(v) => v,
                None => {
                    return None;
                },
            };
            let code: u8 = h1 * 16 + h2;
            let u = code as char;
            assert(t.skip(6) =~= s@.skip(i as int + 6));
            match parse_string_at(s, i + 6) {
                Some((v0, j)) => {
                    let mut v = v0;
                    let ghost v_old = v@;
                    v.insert(0, u);
                    assert(v@ =~= seq![u] + v_old);
                    Some((v, j))
                },
                None => None,
            }
        } else {
            None
        }
    } else if (c as u32) < 32 {
        None
    } else {
        assert(t.skip(1) =~= s@.skip(i as int + 1));
        match parse_string_at(s, i + 1) {
            Some((v0, j)) => {
                let mut v = v0;
                let ghost v_old = v@;
                v.insert(0, c);
                assert(v@ =~= seq![c] + v_old);
                Some((v, j))
            },
            None => None,
        }
    }
}

fn parse_u8_at(s: &Vec<char>, i: usize) -> (r: Option<(u8, usize)>)
    requires
        i <= s@.len(),
    ensures
        match r {
            Some(p) => i < p.1 <= s@.len() && spec_parse_u8(s@.skip(i as int)) == Some(
                (p.0, s@.skip(p.1 as int)),
            ),
            None => spec_parse_u8(s@.skip(i as int)) is None,
        },
{
    let ghost t = s@.skip(i as int);
    if i == s.len() {
        return None;
    }
    assert(t[0] == s@[i as int]);
    let d0 = match dec_val_exec(s[i]) {
        Some(v) => v,
        None => {
            return None;
        },
    };
    assert(t.skip(1) =~= s@.skip(i as int + 1));
    if i + 1 == s.len() {
        return Some((d0, i + 1));
    }
    assert(t[1] == s@[i as int + 1]);
    let d1 = match dec_val_exec(s[i + 1]) {
        Some(v) => v,
        None => {
            return Some((d0, i + 1));
        },
    };
    assert(t.skip(2) =~= s@.skip(i as int + 2));
    if i + 2 == s.len() {
        return Some((d0 * 10 + d1, i + 2));
    }
    assert(t[2] == s@[i as int + 2]);
    let d2 = match dec_val_exec(s[i + 2]) {
        Some(v) => v,
        None => {
            return Some((d0 * 10 + d1, i + 2));
        },
    };
    let v: u32 = (d0 as u32) * 100 + (d1 as u32) * 10 + (d2 as u32);
    if v >= 256 {
        return None;
    }
    assert(t.skip(3) =~= s@.skip(i as int + 3));
    Some((v as u8, i + 3))
}

fn parse_items_at(s: &Vec<char>, i: usize) -> (r: Option<(Vec<u8>, usize)>)
    requires
        i <= s@.len(),
    ensures
        match r {
            Some(p) => p.1 <= s@.len() && spec_parse_items(s@.skip(i as int)) == Some(
                (p.0@, s@.skip(p.1 as int)),
            ),
            None => spec_parse_items(s@.skip(i as int)) is None,
        },
    decreases s@.len() - i,
{
    let ghost t = s@.skip(i as int);
    match parse_u8_at(s, i) {
        None => None,
        Some((n, j)) => {
            if j == s.len() {
                return None;
            }
            assert(s@.skip(j as int)[0] == s@[j as int]);
            let c = s[j];
            if c == ',' {
                assert(s@.skip(j as int).skip(1) =~= s@.skip(j as int + 1));
                match parse_items_at(s, j + 1) {
                    Some((b0, k)) => {
                        let mut b = b0;
                        let ghost b_old = b@;
                        b.insert(0, n);
                        assert(b@ =~= seq![n] + b_old);
                        Some((b, k))
                    },
                    None => None,
                }
            } else if c == ']' {
                let mut b: Vec<u8> = Vec::new();
                b.push(n);
                assert(b@ =~= seq![n]);
                assert(s@.skip(j as int).skip(1) =~= s@.skip(j as int + 1));
                Some((b, j + 1))
            } else {
                None
            }
        },
    }
}

fn parse_bytes_at(s: &Vec<char>, i: usize) -> (r: Option<(Vec<u8>, usize)>)
    requires
        i <= s@.len(),
    ensures
        match r {
            Some(p) => p.1 <= s@.len() && spec_parse_bytes(s@.skip(i as int)) == Some(
                (p.0@, s@.skip(p.1 as int)),
            ),
            None => spec_parse_bytes(s@.skip(i as int)) is None,
        },
{
    let ghost t = s@.skip(i as int);
    if i == s.len() {
        return None;
    }
    assert(t[0] == s@[i as int]);
    if s[i] != '[' {
        return None;
    }
    if i + 1 < s.len() {
        assert(t[1] == s@[i as int + 1]);
        if s[i + 1] == ']' {
            let b: Vec<u8> = Vec::new();
            assert(t.skip(2) =~= s@.skip(i as int + 2));
            return Some((b, i + 2));
        }
    }
    assert(t.skip(1) =~= s@.skip(i as int + 1));
    parse_items_at(s, i + 1)
}

fn has_lit_at(s: &Vec<char>, i: usize, lit: &Vec<char>) -> (r: bool)
    requires
        i <= s@.len(),
    ensures
        r == (i + lit@.len() <= s@.len() && s@.skip(i as int).take(lit@.len() as int) == lit@),
{
    let n = lit.len();
    let total = s.len();
    if total - i < n {
        return false;
    }
    let ghost t = s@.skip(i as int).take(n as int);
    let mut k: usize = 0;
    while k < n
        invariant
            n == lit@.len(),
            k <= n,
            total == s@.len(),
            i + n <= total,
            t == s@.skip(i as int).take(n as int),
            forall|m: int| 0 <= m < k ==> t[m] == lit@[m],
        decreases n - k,
    {
        assert(t[k as int] == s@[i as int + k as int]);
        if s[i + k] != lit[k] {
            assert(t != lit@) by {
                assert(t[k as int] != lit@[k as int]);
            }
            return false;
        }
        k += 1;
    }
    assert(t =~= lit@);
    true
}

/// Reads an account record back from its text. Returns the login and
/// secret exactly when the text is a record written by
/// [`spec_account_json`]'s rules, and nothing otherwise.
pub fn account_from_json(s: &str) -> (r: Option<(String, Secret)>)
    ensures
        match r {
            Some(p) => spec_parse_account(s@) == Some((p.0@, p.1.hash@, p.1.salt@)),
            None => spec_parse_account(s@) is None,
        },
{
    let chars = str_chars(s);
    let prefix = lit_prefix_exec();
    assert(chars@.skip(0) =~= s@);
    assert(s@.take(10) =~= s@.skip(0).take(10));
    if !has_lit_at(&chars, 0, &prefix) {
        return None;
    }
    let (login_chars, j1) = match parse_string_at(&chars, 10) {
        Some(p) => p,
        None => {
            return None;
        },
    };
    let ghost r1 = s@.skip(j1 as int);
    let infix1 = lit_infix1_exec();
    if !has_lit_at(&chars, j1, &infix1) {
        assert(!(r1.len() >= 18 && r1.take(18) == lit_infix1()));
        return None;
    }
    assert(r1.len() >= 18 && r1.take(18) == lit_infix1());
    assert(r1.skip(18) =~= s@.skip(j1 as int + 18));
    let total = chars.len();
    assert(j1 + 18 <= total);
    let (hash, j2) = match parse_bytes_at(&chars, j1 + 18) {
        Some(p) => p,
        None => {
            return None;
        },
    };
    let ghost r2 = s@.skip(j2 as int);
    let infix2 = lit_infix2_exec();
    if !has_lit_at(&chars, j2, &infix2) {
        assert(!(r2.len() >= 8 && r2.take(8) == lit_infix2()));
        return None;
    }
    assert(r2.len() >= 8 && r2.take(8) == lit_infix2());
    assert(r2.skip(8) =~= s@.skip(j2 as int + 8));
    assert(j2 + 8 <= total);
    let (salt, j3) = match parse_bytes_at(&chars, j2 + 8) {
        Some(p) => p,
        None => {
            return None;
        },
    };
    let ghost r3 = s@.skip(j3 as int);
    let suffix = lit_suffix_exec();
    if !has_lit_at(&chars, j3, &suffix) {
        assert(r3 != lit_suffix()) by {
            if r3 == lit_suffix() {
                assert(r3.take(2) =~= r3);
            }
        }
        return None;
    }
    assert(j3 + 2 <= total);
    if j3 + 2 != chars.len() {
        assert(r3 != lit_suffix()) by {
            assert(r3.len() != 2);
        }
        return None;
    }
    assert(r3 =~= lit_suffix()) by {
        assert(r3.take(2) =~= r3);
    }
    let login = chars_to_string(&login_chars);
    Some((login, Secret { hash, salt }))
}

} // verus!
