//! The escape format that packs event data into one URL-safe token.
use vstd::prelude::*;

verus! {

/// Characters that stand for themselves in an encoded token.
pub open spec fn is_unreserved(c: char) -> bool {
    ('A' <= c && c <= 'Z') || ('a' <= c && c <= 'z') || ('0' <= c && c <= '9') || c == '-' || c
        == '_' || c == '.' || c == '~'
}

/// The upper-case hexadecimal digit for `d`, with `0 <= d < 16`.
pub open spec fn hex_digit(d: int) -> char {
    if d < 10 {
        (d + 48) as char
    } else {
        (d + 55) as char
    }
}

/// The last `n` hexadecimal digits of `v`, most significant first.
pub open spec fn hex_fixed(v: nat, n: nat) -> Seq<char>
    decreases n,
{
    if n == 0 {
        Seq::empty()
    } else {
        hex_fixed(v / 16, (n - 1) as nat).push(hex_digit((v % 16) as int))
    }
}

/// `v` in upper-case hexadecimal, zero-padded to at least four digits.
pub open spec fn hex_code(v: nat) -> Seq<char>
    decreases v,
{
    if v < 0x10000 {
        hex_fixed(v, 4)
    } else {
        hex_code(v / 16).push(hex_digit((v % 16) as int))
    }
}

/// One character of input, encoded.
pub open spec fn encode_char(c: char) -> Seq<char> {
    if is_unreserved(c) {
        seq![c]
    } else {
        seq!['~'] + hex_code((c as u32) as nat)
    }
}

/// The encoding of a whole string: each character encoded in turn.
pub open spec fn sap_encoded(s: Seq<char>) -> Seq<char>
    decreases s.len(),
{
    if s.len() == 0 {
        Seq::empty()
    } else {
        encode_char(s[0]) + sap_encoded(s.skip(1))
    }
}

/// A digit of the generic escape, in either case.
pub open spec fn is_hex_digit(c: char) -> bool {
    ('0' <= c && c <= '9') || ('A' <= c && c <= 'F') || ('a' <= c && c <= 'f')
}

/// The value of a hexadecimal digit.
pub open spec fn hex_value(c: char) -> int {
    if '0' <= c && c <= '9' {
        c as int - 48
    } else if 'A' <= c && c <= 'F' {
        c as int - 55
    } else {
        c as int - 87
    }
}

/// A generic escape `~XXXX` starts at position `i` of `s`.
pub open spec fn escape_at(s: Seq<char>, i: int) -> bool {
    &&& 0 <= i
    &&& i + 5 <= s.len()
    &&& s[i] == '~'
    &&& is_hex_digit(s[i + 1])
    &&& is_hex_digit(s[i + 2])
    &&& is_hex_digit(s[i + 3])
    &&& is_hex_digit(s[i + 4])
}

/// The code point written by the four digits after position `i`.
pub open spec fn escape_value(s: Seq<char>, i: int) -> int {
    hex_value(s[i + 1]) * 4096 + hex_value(s[i + 2]) * 256 + hex_value(s[i + 3]) * 16 + hex_value(
        s[i + 4],
    )
}

/// A Unicode scalar value: what a `char` can hold.
pub open spec fn is_scalar_value(v: int) -> bool {
    (0 <= v && v <= 0xD7FF) || (0xE000 <= v && v <= 0x10FFFF)
}

/// A generic escape at `i` that names a character.
pub open spec fn valid_escape_at(s: Seq<char>, i: int) -> bool {
    escape_at(s, i) && is_scalar_value(escape_value(s, i))
}

/// What a matched generic escape `m` (five characters) decodes to: its
/// character, or `m` itself where the digits name no character.
pub open spec fn escape_replacement(m: Seq<char>) -> Seq<char> {
    if is_scalar_value(escape_value(m, 0)) {
        seq![escape_value(m, 0) as char]
    } else {
        m
    }
}

/// The punctuation that the structural escape `~E00d` stands for.
pub open spec fn structural_char(d: char) -> Option<char> {
    if d == '1' {
        Some('\n')
    } else if d == '2' {
        Some('{')
    } else if d == '3' {
        Some('}')
    } else if d == '4' {
        Some(':')
    } else if d == '5' {
        Some(',')
    } else {
        None
    }
}

/// One of the five structural escapes starts at position `i` of `s`.
pub open spec fn structural_at(s: Seq<char>, i: int) -> bool {
    &&& 0 <= i
    &&& i + 5 <= s.len()
    &&& s[i] == '~'
    &&& s[i + 1] == 'E'
    &&& s[i + 2] == '0'
    &&& s[i + 3] == '0'
    &&& structural_char(s[i + 4]) is Some
}

/// `s` with each structural escape replaced by its punctuation, left to right.
pub open spec fn unescape_structural(s: Seq<char>) -> Seq<char>
    decreases s.len(),
{
    if s.len() == 0 {
        Seq::empty()
    } else if structural_at(s, 0) {
        seq![structural_char(s[4])->0] + unescape_structural(s.skip(5))
    } else {
        seq![s[0]] + unescape_structural(s.skip(1))
    }
}

/// `s` with each generic escape replaced, left to right and without overlap.
pub open spec fn unescape_hex(s: Seq<char>) -> Seq<char>
    decreases s.len(),
{
    if s.len() == 0 {
        Seq::empty()
    } else if escape_at(s, 0) {
        escape_replacement(s.take(5)) + unescape_hex(s.skip(5))
    } else {
        seq![s[0]] + unescape_hex(s.skip(1))
    }
}

/// The decoding of a token: structural escapes first, then generic ones.
pub open spec fn sap_decoded(s: Seq<char>) -> Seq<char> {
    unescape_hex(unescape_structural(s))
}

/// Relies on `String::push`: appends one character.
#[verifier::external_body]
pub(crate) fn push_char(s: &mut String, c: char)
    ensures
        final(s)@ == old(s)@.push(c),
{
    s.push(c);
}

/// Relies on `char::from_u32`: `Some` exactly for a Unicode scalar value,
/// holding the character with that code point.
#[verifier::external_body]
fn char_from_code(v: u32) -> (r: Option<char>)
    ensures
        r is Some <==> is_scalar_value(v as int),
        r matches Some(c) ==> c as u32 == v,
{
    char::from_u32(v)
}

/// Relies on `regex::Regex::replace_all` with the pattern `~([0-9A-Fa-f]{4})`:
/// the matches are found from left to right without overlap, and each is
/// replaced by what `hex_escape_replacement` makes of the whole match.
#[verifier::external_body]
fn replace_hex_escapes(s: &str) -> (r: String)
    ensures
        r@ == unescape_hex(s@),
{
    let pattern = regex::Regex::new(r"~([0-9A-Fa-f]{4})").unwrap();
    pattern.replace_all(s, |caps: &regex::Captures| hex_escape_replacement(&caps[0])).into_owned()
}

/// The characters of `s`, in order.
pub(crate) fn chars_of(s: &str) -> (r: Vec<char>)
    ensures
        r@ == s@,
{
    let mut r: Vec<char> = Vec::new();
    for c in it: s.chars()
        invariant
            r@ == it.seq().take(it.index() as int),
    {
        r.push(c);
    }
    assert(r@ =~= s@);
    r
}

fn hex_digit_char(d: u32) -> (c: char)
    requires
        d < 16,
    ensures
        c == hex_digit(d as int),
{
    if d < 10 {
        ((d as u8) + 48u8) as char
    } else {
        ((d as u8) + 55u8) as char
    }
}

fn push_hex_fixed(out: &mut String, v: u32, n: u32)
    ensures
        final(out)@ == old(out)@ + hex_fixed(v as nat, n as nat),
    decreases n,
{
    if n > 0 {
        let ghost before = out@;
        push_hex_fixed(out, v / 16, n - 1);
        push_char(out, hex_digit_char(v % 16));
        assert(out@ =~= before + hex_fixed(v as nat, n as nat));
    } else {
        assert(out@ =~= out@ + hex_fixed(v as nat, n as nat));
    }
}

fn push_hex_code(out: &mut String, v: u32)
    ensures
        final(out)@ == old(out)@ + hex_code(v as nat),
    decreases v,
{
    let ghost before = out@;
    if v < 0x10000 {
        push_hex_fixed(out, v, 4);
    } else {
        push_hex_code(out, v / 16);
        push_char(out, hex_digit_char(v % 16));
        assert(out@ =~= before + hex_code(v as nat));
    }
}

fn is_unreserved_char(c: char) -> (r: bool)
    ensures
        r == is_unreserved(c),
{
    ('A' <= c && c <= 'Z') || ('a' <= c && c <= 'z') || ('0' <= c && c <= '9') || c == '-' || c
        == '_' || c == '.' || c == '~'
}

/// Encodes `input` the way an event travels in a URL: unreserved characters
/// stay, every other character becomes `~` and its code point in upper-case
/// hexadecimal, zero-padded to four digits.
pub fn encode_sap_event(input: &str) -> (encoded: String)
    ensures
        encoded@ == sap_encoded(input@),
{
    let chars = chars_of(input);
    let mut encoded = String::new();
    let mut i: usize = 0;
    assert(input@.skip(0) =~= input@);
    while i < chars.len()
        invariant
            i <= chars.len(),
            chars@ == input@,
            encoded@ + sap_encoded(input@.skip(i as int)) == sap_encoded(input@),
        decreases chars.len() - i,
    {
        let ch = chars[i];
        let ghost rest = input@.skip(i as int);
        let ghost before = encoded@;
        assert(rest.skip(1) =~= input@.skip(i + 1));
        assert(rest[0] == ch);
        if is_unreserved_char(ch) {
            push_char(&mut encoded, ch);
        } else {
            push_char(&mut encoded, '~');
            push_hex_code(&mut encoded, ch as u32);
        }
        assert(encoded@ =~= before + encode_char(rest[0]));
        assert(before + sap_encoded(rest) =~= encoded@ + sap_encoded(rest.skip(1)));
        i = i + 1;
    }
    assert(input@.skip(i as int) =~= Seq::<char>::empty());
    assert(encoded@ =~= sap_encoded(input@));
    encoded
}

fn hex_digit_value(c: char) -> (v: u32)
    requires
        is_hex_digit(c),
    ensures
        v == hex_value(c),
        v < 16,
{
    let code = c as u32;
    if c <= '9' {
        code - 48
    } else if c <= 'F' {
        code - 55
    } else {
        code - 87
    }
}

/// The replacement for one generic escape `m`, as the decoder makes it.
pub fn hex_escape_replacement(m: &str) -> (r: String)
    requires
        m@.len() == 5,
        escape_at(m@, 0),
    ensures
        r@ == escape_replacement(m@),
{
    let chars = chars_of(m);
    let value = hex_digit_value(chars[1]) * 4096 + hex_digit_value(chars[2]) * 256
        + hex_digit_value(chars[3]) * 16 + hex_digit_value(chars[4]);
    assert(value == escape_value(m@, 0));
    match char_from_code(value) {
        Some(c) => {
            proof {
                vstd::utf8::char_u32_cast(c, value);
            }
            assert(c == escape_value(m@, 0) as char);
            let mut r = String::new();
            push_char(&mut r, c);
            assert(r@ =~= escape_replacement(m@));
            r
        },
        None => String::from_str(m),
    }
}

fn structural_token_char(chars: &Vec<char>, i: usize) -> (r: Option<char>)
    requires
        i < chars.len(),
    ensures
        r is Some <==> structural_at(chars@, i as int),
        r matches Some(c) ==> c == structural_char(chars@[i + 4])->0,
{
    if chars.len() - i < 5 || chars[i] != '~' || chars[i + 1] != 'E' || chars[i + 2] != '0'
        || chars[i + 3] != '0' {
        return None;
    }
    let d = chars[i + 4];
    if d == '1' {
        Some('\n')
    } else if d == '2' {
        Some('{')
    } else if d == '3' {
        Some('}')
    } else if d == '4' {
        Some(':')
    } else if d == '5' {
        Some(',')
    } else {
        None
    }
}

fn replace_structural_escapes(s: &str) -> (r: String)
    ensures
        r@ == unescape_structural(s@),
{
    let chars = chars_of(s);
    let mut r = String::new();
    let mut i: usize = 0;
    assert(s@.skip(0) =~= s@);
    while i < chars.len()
        invariant
            i <= chars.len(),
            chars@ == s@,
            r@ + unescape_structural(s@.skip(i as int)) == unescape_structural(s@),
        decreases chars.len() - i,
    {
        let ghost rest = s@.skip(i as int);
        let ghost before = r@;
        match structural_token_char(&chars, i) {
            Some(c) => {
                assert(structural_at(rest, 0));
                assert(rest.skip(5) =~= s@.skip(i + 5));
                push_char(&mut r, c);
                assert(before + unescape_structural(rest) =~= r@ + unescape_structural(
                    rest.skip(5),
                ));
                i = i + 5;
            },
            None => {
                assert(!structural_at(rest, 0));
                assert(rest.skip(1) =~= s@.skip(i + 1));
                push_char(&mut r, chars[i]);
                assert(before + unescape_structural(rest) =~= r@ + unescape_structural(
                    rest.skip(1),
                ));
                i = i + 1;
            },
        }
    }
    assert(s@.skip(i as int) =~= Seq::<char>::empty());
    assert(r@ =~= unescape_structural(s@));
    r
}

/// Decodes an encoded event token. The five structural escapes become the
/// newline, `{`, `}`, `:` and `,`; then each generic escape `~XXXX` becomes
/// the character with that code point, or stays as it is where there is none.
/// Decoding never fails.
pub fn decode_sap_event(encoded: &str) -> (decoded: String)
    ensures
        decoded@ == sap_decoded(encoded@),
{
    let structural = replace_structural_escapes(encoded);
    replace_hex_escapes(structural.as_str())
}

proof fn lemma_structural_unchanged(s: Seq<char>)
    requires
        forall|i: int| !escape_at(s, i),
    ensures
        unescape_structural(s) == s,
    decreases s.len(),
{
    if s.len() > 0 {
        assert(!escape_at(s, 0));
        let t = s.skip(1);
        assert forall|i: int| !escape_at(t, i) by {
            if escape_at(t, i) {
                assert(escape_at(s, i + 1));
            }
        }
        lemma_structural_unchanged(t);
        assert(seq![s[0]] + t =~= s);
    }
}

proof fn lemma_hex_unchanged(s: Seq<char>)
    requires
        forall|i: int| !escape_at(s, i),
    ensures
        unescape_hex(s) == s,
    decreases s.len(),
{
    if s.len() > 0 {
        assert(!escape_at(s, 0));
        let t = s.skip(1);
        assert forall|i: int| !escape_at(t, i) by {
            if escape_at(t, i) {
                assert(escape_at(s, i + 1));
            }
        }
        lemma_hex_unchanged(t);
        assert(seq![s[0]] + t =~= s);
    }
}

/// Decoding a string that holds no escape `~XXXX` gives it back unchanged, so
/// decoding it twice gives what decoding it once gives.
pub proof fn lemma_decode_without_escapes(s: Seq<char>)
    requires
        forall|i: int| !escape_at(s, i),
    ensures
        sap_decoded(s) == s,
        sap_decoded(sap_decoded(s)) == sap_decoded(s),
{
    lemma_structural_unchanged(s);
    lemma_hex_unchanged(s);
}

proof fn lemma_hex_digit(d: int)
    requires
        0 <= d < 16,
    ensures
        is_hex_digit(hex_digit(d)),
        hex_value(hex_digit(d)) == d,
        hex_digit(d) != '~',
{
}

proof fn lemma_hex_fixed_digits(v: nat, n: nat)
    ensures
        hex_fixed(v, n).len() == n,
        forall|k: int| 0 <= k < n ==> is_hex_digit(#[trigger] hex_fixed(v, n)[k]),
    decreases n,
{
    if n > 0 {
        lemma_hex_fixed_digits(v / 16, (n - 1) as nat);
        lemma_hex_digit((v % 16) as int);
    }
}

proof fn lemma_hex_code_digits(v: nat)
    ensures
        hex_code(v).len() >= 4,
        forall|k: int| 0 <= k < hex_code(v).len() ==> is_hex_digit(#[trigger] hex_code(v)[k]),
    decreases v,
{
    if v < 0x10000 {
        lemma_hex_fixed_digits(v, 4);
    } else {
        lemma_hex_code_digits(v / 16);
        lemma_hex_digit((v % 16) as int);
    }
}

/// Four digits written for `v` read back as `v`.
proof fn lemma_hex_fixed_value(v: nat)
    requires
        v < 0x10000,
    ensures
        escape_value(seq!['~'] + hex_fixed(v, 4), 0) == v,
{
    let q1 = v / 16;
    let q2 = q1 / 16;
    let q3 = q2 / 16;
    lemma_hex_digit((v % 16) as int);
    lemma_hex_digit((q1 % 16) as int);
    lemma_hex_digit((q2 % 16) as int);
    lemma_hex_digit((q3 % 16) as int);
    let e = seq!['~'] + hex_fixed(v, 4);
    let d3 = hex_digit((q3 % 16) as int);
    let d2 = hex_digit((q2 % 16) as int);
    let d1 = hex_digit((q1 % 16) as int);
    let d0 = hex_digit((v % 16) as int);
    assert(hex_fixed(q3 / 16, 0) =~= Seq::<char>::empty());
    assert(hex_fixed(q3, 1) =~= seq![d3]);
    assert(hex_fixed(q2, 2) =~= seq![d3, d2]);
    assert(hex_fixed(q1, 3) =~= seq![d3, d2, d1]);
    assert(hex_fixed(v, 4) =~= seq![d3, d2, d1, d0]);
    assert(e[1] == hex_digit((q3 % 16) as int));
    assert(e[2] == hex_digit((q2 % 16) as int));
    assert(e[3] == hex_digit((q1 % 16) as int));
    assert(e[4] == hex_digit((v % 16) as int));
    assert(q3 < 16);
}

proof fn lemma_encoded_first(t: Seq<char>)
    requires
        t.len() > 0,
    ensures
        sap_encoded(t).len() > 0,
        is_unreserved(t[0]) ==> sap_encoded(t)[0] == t[0] && sap_encoded(t).skip(1) == sap_encoded(
            t.skip(1),
        ),
        !is_unreserved(t[0]) ==> sap_encoded(t)[0] == '~',
{
    if is_unreserved(t[0]) {
        assert(sap_encoded(t).skip(1) =~= sap_encoded(t.skip(1)));
    }
}

/// Where the encoding of `t` opens with `j` hexadecimal digits, so does `t`.
proof fn lemma_encoded_hex_prefix(t: Seq<char>, j: int)
    requires
        0 <= j <= sap_encoded(t).len(),
        forall|k: int| 0 <= k < j ==> is_hex_digit(#[trigger] sap_encoded(t)[k]),
    ensures
        j <= t.len(),
        forall|k: int| 0 <= k < j ==> t[k] == sap_encoded(t)[k],
    decreases j,
{
    if j > 0 {
        let e = sap_encoded(t);
        assert(t.len() > 0);
        lemma_encoded_first(t);
        assert(is_hex_digit(e[0]));
        let r = t.skip(1);
        assert forall|k: int| 0 <= k < j - 1 implies is_hex_digit(#[trigger] sap_encoded(r)[k]) by {
            assert(sap_encoded(r)[k] == e[k + 1]);
        }
        lemma_encoded_hex_prefix(r, j - 1);
        assert forall|k: int| 0 <= k < j implies t[k] == sap_encoded(t)[k] by {
            if k > 0 {
                assert(t[k] == r[k - 1]);
                assert(e[k] == sap_encoded(r)[k - 1]);
            }
        }
    }
}

/// Unreserved characters at the front of `s` are copied by the encoding.
proof fn lemma_encoded_unreserved_prefix(s: Seq<char>, k: int)
    requires
        0 <= k <= s.len(),
        forall|i: int| 0 <= i < k ==> is_unreserved(#[trigger] s[i]),
    ensures
        sap_encoded(s) == s.take(k) + sap_encoded(s.skip(k)),
    decreases k,
{
    if k == 0 {
        assert(s.skip(0) =~= s);
        assert(s.take(0) + sap_encoded(s) =~= sap_encoded(s));
    } else {
        lemma_encoded_first(s);
        let r = s.skip(1);
        lemma_encoded_unreserved_prefix(r, k - 1);
        assert(r.skip(k - 1) =~= s.skip(k));
        assert(sap_encoded(s) =~= seq![s[0]] + sap_encoded(r));
        assert(seq![s[0]] + r.take(k - 1) =~= s.take(k));
        assert(sap_encoded(s) =~= s.take(k) + sap_encoded(s.skip(k)));
    }
}

/// The structural scan copies a front part of `t` that holds no `~`.
proof fn lemma_structural_plain_prefix(t: Seq<char>, k: int)
    requires
        0 <= k <= t.len(),
        forall|i: int| 0 <= i < k ==> #[trigger] t[i] != '~',
    ensures
        unescape_structural(t) == t.take(k) + unescape_structural(t.skip(k)),
    decreases k,
{
    if k == 0 {
        assert(t.skip(0) =~= t);
        assert(t.take(0) + unescape_structural(t) =~= unescape_structural(t));
    } else {
        let r = t.skip(1);
        lemma_structural_plain_prefix(r, k - 1);
        assert(r.skip(k - 1) =~= t.skip(k));
        assert(seq![t[0]] + r.take(k - 1) =~= t.take(k));
        assert(unescape_structural(t) =~= t.take(k) + unescape_structural(t.skip(k)));
    }
}

/// A character that the escape carries: its code point fits four digits and
/// is none of the code points that the structural escapes spell.
pub open spec fn is_escapable(c: char) -> bool {
    &&& (c as u32) < 0x10000
    &&& !(0xE001 <= (c as u32) && (c as u32) <= 0xE005)
}

proof fn lemma_suffix_keeps(s: Seq<char>, m: int)
    requires
        0 <= m <= s.len(),
        forall|i: int| 0 <= i < s.len() ==> is_escapable(#[trigger] s[i]),
        forall|i: int| !valid_escape_at(s, i),
    ensures
        forall|i: int| 0 <= i < s.skip(m).len() ==> is_escapable(#[trigger] s.skip(m)[i]),
        forall|i: int| !valid_escape_at(s.skip(m), i),
{
    let t = s.skip(m);
    assert forall|i: int| 0 <= i < t.len() implies is_escapable(#[trigger] t[i]) by {
        assert(t[i] == s[i + m]);
    }
    assert forall|i: int| !valid_escape_at(t, i) by {
        if valid_escape_at(t, i) {
            assert(valid_escape_at(s, i + m));
        }
    }
}

proof fn lemma_round_trip_chars(s: Seq<char>)
    requires
        forall|i: int| 0 <= i < s.len() ==> is_escapable(#[trigger] s[i]),
        forall|i: int| !valid_escape_at(s, i),
    ensures
        unescape_structural(sap_encoded(s)) == sap_encoded(s),
        unescape_hex(sap_encoded(s)) == s,
    decreases s.len(),
{
    let e = sap_encoded(s);
    if s.len() == 0 {
        return;
    }
    let c = s[0];
    let rest = s.skip(1);
    lemma_suffix_keeps(s, 1);
    lemma_round_trip_chars(rest);
    assert(is_escapable(c));
    assert(!valid_escape_at(s, 0));
    if !is_unreserved(c) {
        let v = (c as u32) as nat;
        let h = hex_fixed(v, 4);
        lemma_hex_fixed_digits(v, 4);
        lemma_hex_fixed_value(v);
        assert(e =~= seq!['~'] + h + sap_encoded(rest));
        assert forall|k: int| 0 <= k < 5 implies e[k] == (seq!['~'] + h)[k] by {}
        assert(escape_at(e, 0));
        assert(escape_value(e, 0) == v);
        assert(escape_value(e.take(5), 0) == v);
        vstd::utf8::char_is_scalar(c);
        vstd::utf8::char_u32_cast(c, c as u32);
        assert(escape_replacement(e.take(5)) =~= seq![c]);
        assert(e.skip(5) =~= sap_encoded(rest));
        assert(seq![c] + rest =~= s);
        assert(!structural_at(e, 0));
        let t = e.skip(1);
        assert forall|i: int| 0 <= i < 4 implies #[trigger] t[i] != '~' by {
            assert(is_hex_digit(h[i]));
        }
        lemma_structural_plain_prefix(t, 4);
        assert(t.skip(4) =~= sap_encoded(rest));
        assert(seq![e[0]] + t.take(4) + sap_encoded(rest) =~= e);
    } else if c == '~' {
        lemma_encoded_first(s);
        assert(e.skip(1) == sap_encoded(rest));
        if escape_at(e, 0) {
            assert forall|k: int| 0 <= k < 4 implies is_hex_digit(#[trigger] sap_encoded(rest)[k]) by {
                assert(sap_encoded(rest)[k] == e[k + 1]);
            }
            lemma_encoded_hex_prefix(rest, 4);
            assert forall|k: int| 1 <= k < 5 implies #[trigger] s[k] == e[k] by {
                assert(s[k] == rest[k - 1]);
                assert(e[k] == sap_encoded(rest)[k - 1]);
            }
            assert(escape_at(s, 0));
            assert(escape_value(s, 0) == escape_value(e, 0));
            assert(!is_scalar_value(escape_value(e, 0)));
            assert(!structural_at(e, 0));
            lemma_encoded_unreserved_prefix(s, 5);
            assert(e.take(5) =~= s.take(5));
            assert(e.skip(5) =~= sap_encoded(s.skip(5)));
            assert(escape_value(e.take(5), 0) == escape_value(e, 0));
            lemma_suffix_keeps(s, 5);
            lemma_round_trip_chars(s.skip(5));
            assert(s.take(5) + s.skip(5) =~= s);
        } else {
            assert(!structural_at(e, 0));
        }
        assert(seq![c] + rest =~= s);
        assert(seq![c] + sap_encoded(rest) =~= e);
    } else {
        lemma_encoded_first(s);
        assert(seq![c] + rest =~= s);
        assert(seq![c] + sap_encoded(rest) =~= e);
    }
}

/// The structural scan of `a + b` is the scan of `a` followed by the scan
/// of `b` where no escape crosses from `a` into `b`.
pub proof fn lemma_structural_concat(a: Seq<char>, b: Seq<char>)
    requires
        forall|i: int| a.len() - 5 < i < a.len() ==> !escape_at(#[trigger] (a + b), i),
    ensures
        unescape_structural(a + b) == unescape_structural(a) + unescape_structural(b),
    decreases a.len(),
{
    let ab = a + b;
    if a.len() == 0 {
        assert(ab =~= b);
        assert(unescape_structural(a) =~= Seq::<char>::empty());
        assert(unescape_structural(a) + unescape_structural(b) =~= unescape_structural(b));
    } else {
        let m: int = if structural_at(ab, 0) { 5 } else { 1 };
        if structural_at(ab, 0) {
            assert(escape_at(ab, 0));
            assert(a.len() >= 5);
            assert(structural_at(a, 0));
        } else {
            assert(!structural_at(a, 0));
        }
        let a2 = a.skip(m);
        assert(ab.skip(m) =~= a2 + b);
        assert forall|i: int| a2.len() - 5 < i < a2.len() implies !escape_at(
            #[trigger] (a2 + b),
            i,
        ) by {
            assert((a2 + b) =~= ab.skip(m));
            if escape_at(a2 + b, i) {
                assert(escape_at(ab, i + m));
            }
        }
        lemma_structural_concat(a2, b);
        if structural_at(ab, 0) {
            assert(unescape_structural(ab) =~= seq![structural_char(a[4])->0]
                + unescape_structural(a2) + unescape_structural(b));
        } else {
            assert(unescape_structural(ab) =~= seq![a[0]] + unescape_structural(a2)
                + unescape_structural(b));
        }
    }
}

/// The scan for generic escapes of `a + b` is the scan of `a` followed by
/// the scan of `b` where no escape crosses from `a` into `b`.
pub proof fn lemma_hex_concat(a: Seq<char>, b: Seq<char>)
    requires
        forall|i: int| a.len() - 5 < i < a.len() ==> !escape_at(#[trigger] (a + b), i),
    ensures
        unescape_hex(a + b) == unescape_hex(a) + unescape_hex(b),
    decreases a.len(),
{
    let ab = a + b;
    if a.len() == 0 {
        assert(ab =~= b);
        assert(unescape_hex(a) =~= Seq::<char>::empty());
        assert(unescape_hex(a) + unescape_hex(b) =~= unescape_hex(b));
    } else {
        let m: int = if escape_at(ab, 0) { 5 } else { 1 };
        if escape_at(ab, 0) {
            assert(a.len() >= 5);
            assert(escape_at(a, 0));
            assert(ab.take(5) =~= a.take(5));
        } else {
            assert(!escape_at(a, 0));
        }
        let a2 = a.skip(m);
        assert(ab.skip(m) =~= a2 + b);
        assert forall|i: int| a2.len() - 5 < i < a2.len() implies !escape_at(
            #[trigger] (a2 + b),
            i,
        ) by {
            assert((a2 + b) =~= ab.skip(m));
            if escape_at(a2 + b, i) {
                assert(escape_at(ab, i + m));
            }
        }
        lemma_hex_concat(a2, b);
        if escape_at(ab, 0) {
            assert(unescape_hex(ab) =~= escape_replacement(a.take(5)) + unescape_hex(a2)
                + unescape_hex(b));
        } else {
            assert(unescape_hex(ab) =~= seq![a[0]] + unescape_hex(a2) + unescape_hex(b));
        }
    }
}

/// Every character of an encoded string is unreserved.
pub proof fn lemma_encoded_is_unreserved(s: Seq<char>)
    ensures
        forall|i: int|
            0 <= i < sap_encoded(s).len() ==> is_unreserved(#[trigger] sap_encoded(s)[i]),
    decreases s.len(),
{
    if s.len() > 0 {
        let c = s[0];
        let e = sap_encoded(s);
        let r = sap_encoded(s.skip(1));
        lemma_encoded_is_unreserved(s.skip(1));
        lemma_hex_code_digits((c as u32) as nat);
        let head = encode_char(c);
        assert forall|i: int| 0 <= i < e.len() implies is_unreserved(#[trigger] e[i]) by {
            if i < head.len() {
                assert(e[i] == head[i]);
            } else {
                assert(e[i] == r[i - head.len()]);
            }
        }
    }
}

/// Decoding the encoding of `s` gives `s` back, where each character of `s`
/// has a code point of at most four hexadecimal digits that no structural
/// escape spells, and `s` holds no escape `~XXXX` that names a character.
pub proof fn lemma_encode_decode_round_trip(s: Seq<char>)
    requires
        forall|i: int| 0 <= i < s.len() ==> is_escapable(#[trigger] s[i]),
        forall|i: int| !valid_escape_at(s, i),
    ensures
        sap_decoded(sap_encoded(s)) == s,
{
    lemma_round_trip_chars(s);
}

/// A string of unreserved characters encodes to itself, and decodes back to
/// itself where it holds no escape `~XXXX` that names a character.
pub proof fn lemma_unreserved_round_trip(s: Seq<char>)
    requires
        forall|i: int| 0 <= i < s.len() ==> is_unreserved(#[trigger] s[i]),
        forall|i: int| !valid_escape_at(s, i),
    ensures
        sap_encoded(s) == s,
        sap_decoded(sap_encoded(s)) == s,
{
    lemma_encoded_unreserved_prefix(s, s.len() as int);
    assert(s.skip(s.len() as int) =~= Seq::<char>::empty());
    assert(s.take(s.len() as int) =~= s);
    assert(sap_encoded(s) =~= s);
    assert forall|i: int| 0 <= i < s.len() implies is_escapable(#[trigger] s[i]) by {}
    lemma_round_trip_chars(s);
}

} // verus!
