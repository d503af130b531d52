//! Character-level helpers: decimal integers as text, whitespace trimming and
//! the characters of a `str`.

use vstd::prelude::*;
use vstd::utf8::*;
use vstd::string::StringSliceAdditionalSpecFns;

verus! {

/// Appends one character to a `String` (std's `String::push`).
#[verifier::external_body]
pub(crate) fn push_char(s: &mut String, c: char)
    ensures
        final(s)@ == old(s)@.push(c),
{
    s.push(c);
}

/// The characters of a string slice, in order.
pub fn chars_of(s: &str) -> (out: Vec<char>)
    ensures
        out@ == s@,
{
    let mut out: Vec<char> = Vec::new();
    for c in it: s.chars()
        invariant
            out@ == it.seq().take(it.index() as int),
            it.seq() == s@,
    {
        out.push(c);
    }
    out
}

/// Whether two texts are equal, character by character.
pub fn str_eq(a: &str, b: &str) -> (r: bool)
    ensures
        r == (a@ == b@),
{
    let x = chars_of(a);
    let y = chars_of(b);
    if x.len() != y.len() {
        return false;
    }
    let mut i: usize = 0;
    while i < x.len()
        invariant
            i <= x@.len(),
            x@ == a@,
            y@ == b@,
            x@.len() == y@.len(),
            forall|k: int| 0 <= k < i ==> x@[k] == y@[k],
        decreases x@.len() - i,
    {
        if x[i] != y[i] {
            assert(a@[i as int] != b@[i as int]);
            return false;
        }
        i = i + 1;
    }
    assert(x@ =~= y@);
    true
}

/// `str::split` on one separator character: the pieces between separators,
/// one more piece than there are separators.
pub open spec fn split_on(s: Seq<char>, sep: char) -> Seq<Seq<char>>
    decreases s.len(),
{
    if s.len() == 0 {
        seq![Seq::<char>::empty()]
    } else {
        let pieces = split_on(s.drop_last(), sep);
        if s.last() == sep {
            pieces.push(Seq::<char>::empty())
        } else {
            pieces.update(pieces.len() - 1, pieces.last().push(s.last()))
        }
    }
}

pub proof fn lemma_split_on_nonempty(s: Seq<char>, sep: char)
    ensures
        split_on(s, sep).len() >= 1,
    decreases s.len(),
{
    if s.len() > 0 {
        lemma_split_on_nonempty(s.drop_last(), sep);
    }
}


/// The pieces of `s` between the separators `sep`, as `str::split` gives them.
pub fn split_chars(s: &Vec<char>, sep: char) -> (r: Vec<Vec<char>>)
    ensures
        r@.map_values(|v: Vec<char>| v@) == split_on(s@, sep),
{
    let n = s.len();
    let mut done: Vec<Vec<char>> = Vec::new();
    let mut cur: Vec<char> = Vec::new();
    let mut i: usize = 0;
    assert(s@.take(0) =~= Seq::<char>::empty());
    assert(split_on(Seq::<char>::empty(), sep) == seq![Seq::<char>::empty()]);
    assert(done@.map_values(|v: Vec<char>| v@).push(cur@) =~= seq![Seq::<char>::empty()]);
    while i < n
        invariant
            i <= n,
            n == s@.len(),
            split_on(s@.take(i as int), sep) == done@.map_values(|v: Vec<char>| v@).push(cur@),
        decreases n - i,
    {
        let c = s[i];
        let ghost before = done@.map_values(|v: Vec<char>| v@);
        let ghost before_cur = cur@;
        assert(s@.take(i + 1).drop_last() =~= s@.take(i as int));
        assert(s@.take(i + 1).last() == c);
        if c == sep {
            let mut piece: Vec<char> = Vec::new();
            std::mem::swap(&mut piece, &mut cur);
            done.push(piece);
            assert(done@.map_values(|v: Vec<char>| v@) =~= before.push(before_cur));
            assert(split_on(s@.take(i + 1), sep) =~= before.push(before_cur).push(Seq::<char>::empty()));
        } else {
            cur.push(c);
            let ghost p = before.push(before_cur);
            assert(split_on(s@.take(i + 1), sep) =~= p.update(p.len() - 1, p.last().push(c)));
            assert(p.update(p.len() - 1, p.last().push(c)) =~= before.push(cur@));
        }
        i = i + 1;
    }
    assert(s@.take(n as int) =~= s@);
    let ghost before = done@.map_values(|v: Vec<char>| v@);
    done.push(cur);
    assert(done@.map_values(|v: Vec<char>| v@) =~= before.push(done@[done@.len() - 1]@));
    done
}

/// Whether the characters `v` spell `s`.
pub fn chars_eq_str(v: &Vec<char>, s: &str) -> (r: bool)
    ensures
        r == (v@ == s@),
{
    let w = chars_of(s);
    if v.len() != w.len() {
        return false;
    }
    let mut i: usize = 0;
    while i < v.len()
        invariant
            i <= v@.len(),
            w@ == s@,
            v@.len() == w@.len(),
            forall|k: int| 0 <= k < i ==> v@[k] == w@[k],
        decreases v@.len() - i,
    {
        if v[i] != w[i] {
            assert(v@[i as int] != s@[i as int]);
            return false;
        }
        i = i + 1;
    }
    assert(v@ =~= w@);
    true
}

// ---------------------------------------------------------------------------
// Decimal digits

pub open spec fn is_digit(c: char) -> bool {
    '0' <= c && c <= '9'
}

pub open spec fn all_digits(s: Seq<char>) -> bool {
    forall|i: int| 0 <= i < s.len() ==> is_digit(#[trigger] s[i])
}

pub open spec fn digit_value(c: char) -> int {
    (c as int) - ('0' as int)
}

/// The number that a run of decimal digits denotes (most significant first).
pub open spec fn digits_value(s: Seq<char>) -> int
    decreases s.len(),
{
    if s.len() == 0 {
        0
    } else {
        digits_value(s.drop_last()) * 10 + digit_value(s.last())
    }
}

/// The character of the decimal digit `d` (`0 <= d < 10`).
pub open spec fn digit_char(d: int) -> char {
    (('0' as int) + d) as char
}

/// The shortest decimal text of a natural number.
pub open spec fn nat_text(n: nat) -> Seq<char>
    decreases n,
{
    if n < 10 {
        seq![digit_char(n as int)]
    } else {
        nat_text(n / 10).push(digit_char((n % 10) as int))
    }
}

/// The text that `Display` gives an integer: a `-` for a negative number,
/// then the digits of its magnitude without leading zeros.
pub open spec fn decimal_text(n: int) -> Seq<char> {
    if n < 0 {
        seq!['-'] + nat_text((-n) as nat)
    } else {
        nat_text(n as nat)
    }
}

/// Number of characters of the optional leading sign.
pub open spec fn sign_len(s: Seq<char>) -> int {
    if s.len() > 0 && (s[0] == '-' || s[0] == '+') {
        1
    } else {
        0
    }
}

/// What `str::parse::<i64>` accepts and returns: an optional `+` or `-`,
/// then at least one ASCII digit and nothing else, denoting a number in the
/// range of `i64`.
pub open spec fn spec_parse_i64(s: Seq<char>) -> Option<i64> {
    let body = s.subrange(sign_len(s), s.len() as int);
    let v = if s.len() > 0 && s[0] == '-' {
        -digits_value(body)
    } else {
        digits_value(body)
    };
    if body.len() == 0 || !all_digits(body) || v < i64::MIN || v > i64::MAX {
        None
    } else {
        Some(v as i64)
    }
}

proof fn lemma_digits_value_nonneg(s: Seq<char>)
    requires
        all_digits(s),
    ensures
        digits_value(s) >= 0,
    decreases s.len(),
{
    if s.len() > 0 {
        assert(all_digits(s.drop_last()));
        lemma_digits_value_nonneg(s.drop_last());
    }
}

/// A longer run of digits never denotes a smaller number.
proof fn lemma_digits_value_prefix(s: Seq<char>, a: int, i: int, j: int)
    requires
        0 <= a <= i <= j <= s.len(),
        all_digits(s.subrange(a, j)),
    ensures
        digits_value(s.subrange(a, i)) <= digits_value(s.subrange(a, j)),
    decreases j - i,
{
    if i < j {
        assert(s.subrange(a, j).drop_last() =~= s.subrange(a, j - 1));
        assert(all_digits(s.subrange(a, j - 1))) by {
            assert forall|k: int| 0 <= k < j - 1 - a implies is_digit(#[trigger] s.subrange(a, j - 1)[k]) by {
                assert(s.subrange(a, j - 1)[k] == s.subrange(a, j)[k]);
            }
        }
        lemma_digits_value_prefix(s, a, i, j - 1);
        lemma_digits_value_nonneg(s.subrange(a, j - 1));
        assert(is_digit(s.subrange(a, j)[j - 1 - a]));
    }
}

/// `str::parse::<i64>`: the integer that `text` denotes, if it denotes one.
pub fn parse_i64(text: &str) -> (r: Option<i64>)
    ensures
        r == spec_parse_i64(text@),
{
    let s = chars_of(text);
    parse_i64_chars(&s)
}

/// `parse_i64` on a text given by its characters.
pub fn parse_i64_chars(s: &Vec<char>) -> (r: Option<i64>)
    ensures
        r == spec_parse_i64(s@),
{
    let n = s.len();
    if n == 0 {
        return None;
    }
    let neg = s[0] == '-';
    let start: usize = if s[0] == '-' || s[0] == '+' { 1 } else { 0 };
    let ghost body = s@.subrange(start as int, n as int);
    if start == n {
        return None;
    }
    let mut mag: u64 = 0;
    let mut i: usize = start;
    while i < n
        invariant
            start <= i <= n,
            n == s@.len(),
            start == sign_len(s@),
            body == s@.subrange(start as int, n as int),
            all_digits(s@.subrange(start as int, i as int)),
            mag as int == digits_value(s@.subrange(start as int, i as int)),
            mag <= 9223372036854775808u64,
        decreases n - i,
    {
        let c = s[i];
        if !('0' <= c && c <= '9') {
            assert(body[i - start] == c);
            return None;
        }
        let d: u64 = ((c as u32) - ('0' as u32)) as u64;
        let next: u128 = (mag as u128) * 10 + (d as u128);
        assert(s@.subrange(start as int, i + 1).drop_last() =~= s@.subrange(start as int, i as int));
        assert(all_digits(s@.subrange(start as int, i + 1))) by {
            assert forall|k: int| 0 <= k < i + 1 - start implies is_digit(
                #[trigger] s@.subrange(start as int, i + 1)[k],
            ) by {
                if k < i - start {
                    assert(s@.subrange(start as int, i + 1)[k] == s@.subrange(start as int, i as int)[k]);
                }
            }
        }
        if next > 9223372036854775808u128 {
            proof {
                if all_digits(body) {
                    lemma_digits_value_prefix(s@, start as int, i + 1, n as int);
                }
            }
            return None;
        }
        mag = next as u64;
        i = i + 1;
    }
    assert(s@.subrange(start as int, i as int) =~= body);
    if neg {
        if mag == 9223372036854775808u64 {
            Some(i64::MIN)
        } else {
            Some(-(mag as i64))
        }
    } else if mag <= 9223372036854775807u64 {
        Some(mag as i64)
    } else {
        None
    }
}

/// Number of characters of an optional leading `+`.
pub open spec fn plus_len(s: Seq<char>) -> int {
    if s.len() > 0 && s[0] == '+' {
        1
    } else {
        0
    }
}

/// What `str::parse::<u64>` (and `usize` on 64-bit targets) accepts and
/// returns: an optional `+`, then at least one ASCII digit and nothing else,
/// denoting a number in the range of `u64`.
pub open spec fn spec_parse_u64(s: Seq<char>) -> Option<u64> {
    let body = s.subrange(plus_len(s), s.len() as int);
    if body.len() == 0 || !all_digits(body) || digits_value(body) > u64::MAX {
        None
    } else {
        Some(digits_value(body) as u64)
    }
}

/// `str::parse::<u64>`: the natural number that `text` denotes, if any.
pub fn parse_u64(text: &str) -> (r: Option<u64>)
    ensures
        r == spec_parse_u64(text@),
{
    let s = chars_of(text);
    let n = s.len();
    let start: usize = if n > 0 && s[0] == '+' { 1 } else { 0 };
    let ghost body = s@.subrange(start as int, n as int);
    if start == n {
        return None;
    }
    let mut value: u64 = 0;
    let mut i: usize = start;
    while i < n
        invariant
            start <= i <= n,
            n == s@.len(),
            start == plus_len(s@),
            s@ == text@,
            body == s@.subrange(start as int, n as int),
            all_digits(s@.subrange(start as int, i as int)),
            value as int == digits_value(s@.subrange(start as int, i as int)),
        decreases n - i,
    {
        let c = s[i];
        if !('0' <= c && c <= '9') {
            assert(body[i - start] == c);
            return None;
        }
        let d: u64 = ((c as u32) - ('0' as u32)) as u64;
        let next: u128 = (value as u128) * 10 + (d as u128);
        assert(s@.subrange(start as int, i + 1).drop_last() =~= s@.subrange(start as int, i as int));
        assert(all_digits(s@.subrange(start as int, i + 1))) by {
            assert forall|k: int| 0 <= k < i + 1 - start implies is_digit(
                #[trigger] s@.subrange(start as int, i + 1)[k],
            ) by {
                if k < i - start {
                    assert(s@.subrange(start as int, i + 1)[k] == s@.subrange(start as int, i as int)[k]);
                }
            }
        }
        if next > 18446744073709551615u128 {
            proof {
                if all_digits(body) {
                    lemma_digits_value_prefix(s@, start as int, i + 1, n as int);
                }
            }
            return None;
        }
        value = next as u64;
        i = i + 1;
    }
    assert(s@.subrange(start as int, i as int) =~= body);
    Some(value)
}

/// The character of the decimal digit `d`.
fn digit_to_char(d: u64) -> (c: char)
    requires
        d < 10,
    ensures
        c == digit_char(d as int),
        is_digit(c),
        digit_value(c) == d,
{
    let b: u8 = 48u8 + (d as u8);
    let c = b as char;
    assert(c as int == 48 + d);
    c
}

fn push_nat_text(s: &mut String, n: u64)
    ensures
        final(s)@ == old(s)@ + nat_text(n as nat),
    decreases n,
{
    if n >= 10 {
        push_nat_text(s, n / 10);
        let c = digit_to_char(n % 10);
        push_char(s, c);
        assert(nat_text(n as nat) == nat_text((n / 10) as nat).push(digit_char((n % 10) as int)));
    } else {
        let c = digit_to_char(n);
        push_char(s, c);
        assert(nat_text(n as nat) =~= seq![digit_char(n as int)]);
    }
}

/// `i64::to_string`: the decimal text of `n`.
pub fn format_i64(n: i64) -> (r: String)
    ensures
        r@ == decimal_text(n as int),
{
    let mut s = String::new();
    if n < 0 {
        push_char(&mut s, '-');
        let m: u64 = (-(n as i128)) as u64;
        push_nat_text(&mut s, m);
    } else {
        push_nat_text(&mut s, n as u64);
    }
    s
}

/// `u64::to_string`: the decimal text of `n`.
pub fn format_u64(n: u64) -> (r: String)
    ensures
        r@ == decimal_text(n as int),
{
    let mut s = String::new();
    push_nat_text(&mut s, n);
    s
}

proof fn lemma_nat_text_digits(n: nat)
    ensures
        nat_text(n).len() > 0,
        all_digits(nat_text(n)),
        digits_value(nat_text(n)) == n,
        nat_text(n)[0] != '-' && nat_text(n)[0] != '+',
    decreases n,
{
    if n < 10 {
        let c = digit_char(n as int);
        assert(c as int == 48 + n);
        assert(nat_text(n) =~= seq![c]);
        assert(nat_text(n).drop_last() =~= Seq::<char>::empty());
        assert(digits_value(nat_text(n)) == digits_value(Seq::<char>::empty()) * 10 + digit_value(c));
    } else {
        lemma_nat_text_digits(n / 10);
        let c = digit_char((n % 10) as int);
        assert(c as int == 48 + n % 10);
        let t = nat_text(n / 10);
        assert(nat_text(n) == t.push(c));
        assert(t.push(c).drop_last() =~= t);
        assert(t.push(c)[0] == t[0]);
        assert forall|i: int| 0 <= i < t.len() + 1 implies is_digit(#[trigger] t.push(c)[i]) by {
            if i < t.len() {
                assert(t.push(c)[i] == t[i]);
            }
        }
        assert(digits_value(t.push(c)) == digits_value(t) * 10 + digit_value(c));
        assert(n == (n / 10) * 10 + n % 10);
    }
}

/// Law: the text that `format_i64` gives an integer parses back to that
/// integer with `parse_i64`.
pub proof fn lemma_parse_format_roundtrip(n: i64)
    ensures
        spec_parse_i64(decimal_text(n as int)) == Some(n),
{
    let t = decimal_text(n as int);
    if n < 0 {
        let m = (-n) as nat;
        lemma_nat_text_digits(m);
        assert(t[0] == '-');
        assert(t.subrange(1, t.len() as int) =~= nat_text(m));
    } else {
        lemma_nat_text_digits(n as nat);
        assert(t.subrange(0, t.len() as int) =~= t);
    }
}

// ---------------------------------------------------------------------------
// White space and trimming

/// Unicode `White_Space`, the property that `char::is_whitespace` tests.
pub open spec fn is_white_space(c: char) -> bool {
    let u = c as u32;
    ||| 0x09 <= u <= 0x0d
    ||| u == 0x20
    ||| u == 0x85
    ||| u == 0xa0
    ||| u == 0x1680
    ||| 0x2000 <= u <= 0x200a
    ||| u == 0x2028
    ||| u == 0x2029
    ||| u == 0x202f
    ||| u == 0x205f
    ||| u == 0x3000
}

/// Number of white-space characters at the start of `s`.
pub open spec fn leading_white_space(s: Seq<char>) -> nat
    decreases s.len(),
{
    if s.len() > 0 && is_white_space(s[0]) {
        1 + leading_white_space(s.drop_first())
    } else {
        0
    }
}

/// Number of white-space characters at the end of `s`.
pub open spec fn trailing_white_space(s: Seq<char>) -> nat
    decreases s.len(),
{
    if s.len() > 0 && is_white_space(s.last()) {
        1 + trailing_white_space(s.drop_last())
    } else {
        0
    }
}

/// `str::trim`: `s` without its leading and trailing white space.
pub open spec fn spec_trim(s: Seq<char>) -> Seq<char> {
    let rest = s.subrange(leading_white_space(s) as int, s.len() as int);
    rest.subrange(0, rest.len() - trailing_white_space(rest))
}

/// Whether `c` is white space, as `char::is_whitespace` decides.
pub fn is_whitespace_char(c: char) -> (b: bool)
    ensures
        b == is_white_space(c),
{
    let u = c as u32;
    (0x09 <= u && u <= 0x0d) || u == 0x20 || u == 0x85 || u == 0xa0 || u == 0x1680 || (0x2000
        <= u && u <= 0x200a) || u == 0x2028 || u == 0x2029 || u == 0x202f || u == 0x205f || u
        == 0x3000
}

/// `str::trim` on a text given by its characters.
pub fn trim_chars(s: &Vec<char>) -> (r: Vec<char>)
    ensures
        r@ == spec_trim(s@),
{
    let n = s.len();
    let mut a: usize = 0;
    assert(s@.subrange(0, n as int) =~= s@);
    while a < n && is_whitespace_char(s[a])
        invariant
            a <= n,
            n == s@.len(),
            leading_white_space(s@) == a + leading_white_space(s@.subrange(a as int, n as int)),
        decreases n - a,
    {
        assert(s@.subrange(a as int, n as int).drop_first() =~= s@.subrange(a + 1, n as int));
        a = a + 1;
    }
    proof {
        if a < n {
            assert(s@.subrange(a as int, n as int)[0] == s@[a as int]);
        }
        assert(leading_white_space(s@) == a);
    }
    let ghost rest = s@.subrange(a as int, n as int);
    let mut b: usize = n;
    assert(s@.subrange(a as int, n as int) == rest);
    while b > a && is_whitespace_char(s[b - 1])
        invariant
            a <= b <= n,
            n == s@.len(),
            rest == s@.subrange(a as int, n as int),
            trailing_white_space(rest) == (n - b) + trailing_white_space(s@.subrange(a as int, b as int)),
        decreases b - a,
    {
        assert(s@.subrange(a as int, b as int).drop_last() =~= s@.subrange(a as int, b - 1));
        b = b - 1;
    }
    proof {
        if b > a {
            assert(s@.subrange(a as int, b as int).last() == s@[b - 1]);
        }
        assert(trailing_white_space(rest) == n - b);
    }
    let mut r: Vec<char> = Vec::new();
    let mut i: usize = a;
    while i < b
        invariant
            a <= i <= b <= n,
            n == s@.len(),
            r@ == s@.subrange(a as int, i as int),
        decreases b - i,
    {
        r.push(s[i]);
        assert(r@ =~= s@.subrange(a as int, i + 1));
        i = i + 1;
    }
    assert(rest.subrange(0, rest.len() - trailing_white_space(rest)) =~= s@.subrange(a as int, b as int));
    r
}

// ---------------------------------------------------------------------------
// UTF-8

/// std's `str::from_utf8`: the bytes read as text when they are valid UTF-8.
#[verifier::external_body]
fn utf8_text(bytes: &[u8]) -> (r: Option<&str>)
    ensures
        r is Some <==> valid_utf8(bytes@),
        r matches Some(s) ==> s.spec_bytes() == bytes@,
{
    std::str::from_utf8(bytes).ok()
}

/// The integer that a request body holds: the body read as UTF-8 text,
/// trimmed of white space and parsed as an `i64`; 0 where any of these fails.
pub open spec fn spec_body_i64(body: Seq<u8>) -> i64 {
    if valid_utf8(body) {
        match spec_parse_i64(spec_trim(decode_utf8(body))) {
            Some(v) => v,
            None => 0,
        }
    } else {
        0
    }
}

/// Reads the integer that a request body holds (see `spec_body_i64`).
pub fn parse_body_i64(body: &[u8]) -> (r: i64)
    ensures
        r == spec_body_i64(body@),
{
    match utf8_text(body) {
        None => 0,
        Some(text) => {
            proof {
                encode_utf8_decode_utf8(text@);
            }
            let chars = chars_of(text);
            let trimmed = trim_chars(&chars);
            match parse_i64_chars(&trimmed) {
                Some(v) => v,
                None => 0,
            }
        },
    }
}

/// Law: a body that holds the decimal text of an integer (as a sum response
/// sends it) reads back as that integer.
pub proof fn lemma_body_format_roundtrip(n: i64)
    ensures
        spec_body_i64(encode_utf8(decimal_text(n as int))) == n,
{
    let t = decimal_text(n as int);
    encode_utf8_valid_utf8(t);
    encode_utf8_decode_utf8(t);
    lemma_parse_format_roundtrip(n);
    if n < 0 {
        lemma_nat_text_digits((-n) as nat);
        assert(t[0] == '-');
        assert(t.last() == nat_text((-n) as nat).last());
    } else {
        lemma_nat_text_digits(n as nat);
    }
    let last = t.last();
    assert(is_digit(last)) by {
        if n < 0 {
            let m = nat_text((-n) as nat);
            assert(t.last() == m[m.len() - 1]);
        } else {
            let m = nat_text(n as nat);
            assert(m[m.len() - 1] == t.last());
        }
    }
    assert(!is_white_space(t[0])) by {
        if n >= 0 {
            assert(is_digit(nat_text(n as nat)[0]));
        }
    }
    assert(leading_white_space(t) == 0);
    assert(t.subrange(0, t.len() as int) =~= t);
    assert(trailing_white_space(t) == 0);
    assert(spec_trim(t) == t);
}

/// Whether every character of `s` is white space.
pub open spec fn all_white_space(s: Seq<char>) -> bool {
    forall|i: int| 0 <= i < s.len() ==> is_white_space(#[trigger] s[i])
}

/// Law: on ASCII, white space is exactly tab, line feed, vertical tab, form
/// feed, carriage return and space.
pub proof fn lemma_ascii_white_space(c: char)
    requires
        (c as u32) < 128,
    ensures
        is_white_space(c) <==> (c == '\t' || c == '\n' || c == '\u{0b}' || c == '\u{0c}' || c == '\r' || c
            == ' '),
{
    let u = c as u32;
    assert(('\t' as u32) == 9 && ('\n' as u32) == 10 && ('\u{0b}' as u32) == 11 && ('\u{0c}' as u32) == 12
        && ('\r' as u32) == 13 && (' ' as u32) == 32);
    char_u32_cast(c, u);
    if u == 9 {
        char_u32_cast('\t', 9);
    } else if u == 10 {
        char_u32_cast('\n', 10);
    } else if u == 11 {
        char_u32_cast('\u{0b}', 11);
    } else if u == 12 {
        char_u32_cast('\u{0c}', 12);
    } else if u == 13 {
        char_u32_cast('\r', 13);
    } else if u == 32 {
        char_u32_cast(' ', 32);
    }
}

/// Law: the white-space characters are exactly the 25 of Unicode's
/// `White_Space` property, one by one.
pub proof fn lemma_white_space_chars(c: char)
    ensures
        is_white_space(c) <==> {
            ||| c == '\t' || c == '\n' || c == '\u{0b}' || c == '\u{0c}' || c == '\r' || c == ' '
            ||| c == '\u{85}' || c == '\u{a0}' || c == '\u{1680}'
            ||| c == '\u{2000}' || c == '\u{2001}' || c == '\u{2002}' || c == '\u{2003}' || c == '\u{2004}'
            ||| c == '\u{2005}' || c == '\u{2006}' || c == '\u{2007}' || c == '\u{2008}' || c == '\u{2009}'
            ||| c == '\u{200a}' || c == '\u{2028}' || c == '\u{2029}' || c == '\u{202f}' || c == '\u{205f}'
            ||| c == '\u{3000}'
        },
{
    let u = c as u32;
    char_u32_cast(c, u);
    if is_white_space(c) {
        if u == 9 { char_u32_cast('\t', 9); }
        if u == 10 { char_u32_cast('\n', 10); }
        if u == 11 { char_u32_cast('\u{0b}', 11); }
        if u == 12 { char_u32_cast('\u{0c}', 12); }
        if u == 13 { char_u32_cast('\r', 13); }
        if u == 32 { char_u32_cast(' ', 32); }
        if u == 0x85 { char_u32_cast('\u{85}', 0x85); }
        if u == 0xa0 { char_u32_cast('\u{a0}', 0xa0); }
        if u == 0x1680 { char_u32_cast('\u{1680}', 0x1680); }
        if u == 0x2000 { char_u32_cast('\u{2000}', 0x2000); }
        if u == 0x2001 { char_u32_cast('\u{2001}', 0x2001); }
        if u == 0x2002 { char_u32_cast('\u{2002}', 0x2002); }
        if u == 0x2003 { char_u32_cast('\u{2003}', 0x2003); }
        if u == 0x2004 { char_u32_cast('\u{2004}', 0x2004); }
        if u == 0x2005 { char_u32_cast('\u{2005}', 0x2005); }
        if u == 0x2006 { char_u32_cast('\u{2006}', 0x2006); }
        if u == 0x2007 { char_u32_cast('\u{2007}', 0x2007); }
        if u == 0x2008 { char_u32_cast('\u{2008}', 0x2008); }
        if u == 0x2009 { char_u32_cast('\u{2009}', 0x2009); }
        if u == 0x200a { char_u32_cast('\u{200a}', 0x200a); }
        if u == 0x2028 { char_u32_cast('\u{2028}', 0x2028); }
        if u == 0x2029 { char_u32_cast('\u{2029}', 0x2029); }
        if u == 0x202f { char_u32_cast('\u{202f}', 0x202f); }
        if u == 0x205f { char_u32_cast('\u{205f}', 0x205f); }
        if u == 0x3000 { char_u32_cast('\u{3000}', 0x3000); }
    }
}

proof fn lemma_leading_white_space_prefix(p: Seq<char>, u: Seq<char>)
    requires
        all_white_space(p),
    ensures
        leading_white_space(p + u) == p.len() + leading_white_space(u),
    decreases p.len(),
{
    if p.len() > 0 {
        assert((p + u)[0] == p[0]);
        assert((p + u).drop_first() =~= p.drop_first() + u);
        assert(all_white_space(p.drop_first())) by {
            assert forall|i: int| 0 <= i < p.drop_first().len() implies is_white_space(#[trigger] p.drop_first()[i]) by {
                assert(p.drop_first()[i] == p[i + 1]);
            }
        }
        lemma_leading_white_space_prefix(p.drop_first(), u);
    } else {
        assert(p + u =~= u);
    }
}

proof fn lemma_trailing_white_space_suffix(u: Seq<char>, q: Seq<char>)
    requires
        all_white_space(q),
    ensures
        trailing_white_space(u + q) == q.len() + trailing_white_space(u),
    decreases q.len(),
{
    if q.len() > 0 {
        assert((u + q).last() == q.last());
        assert(is_white_space(q[q.len() - 1]));
        assert((u + q).drop_last() =~= u + q.drop_last());
        assert(all_white_space(q.drop_last())) by {
            assert forall|i: int| 0 <= i < q.drop_last().len() implies is_white_space(#[trigger] q.drop_last()[i]) by {
                assert(q.drop_last()[i] == q[i]);
            }
        }
        lemma_trailing_white_space_suffix(u, q.drop_last());
    } else {
        assert(u + q =~= u);
    }
}

/// Law: trimming removes exactly the white space around a text that starts
/// and ends with a character that is not white space.
pub proof fn lemma_trim_surrounding(p: Seq<char>, t: Seq<char>, q: Seq<char>)
    requires
        all_white_space(p),
        all_white_space(q),
        t.len() > 0,
        !is_white_space(t[0]),
        !is_white_space(t.last()),
    ensures
        spec_trim(p + t + q) == t,
{
    let s = p + t + q;
    assert(s =~= p + (t + q));
    lemma_leading_white_space_prefix(p, t + q);
    assert((t + q)[0] == t[0]);
    assert(leading_white_space(t + q) == 0);
    let rest = s.subrange(p.len() as int, s.len() as int);
    assert(rest =~= t + q);
    lemma_trailing_white_space_suffix(t, q);
    assert(trailing_white_space(t) == 0);
    assert(rest.subrange(0, rest.len() - q.len()) =~= t);
}

/// Law: a body that holds the decimal text of an integer with any white
/// space around it (such as a trailing CR LF) reads back as that integer.
pub proof fn lemma_body_white_space_roundtrip(n: i64, p: Seq<char>, q: Seq<char>)
    requires
        all_white_space(p),
        all_white_space(q),
    ensures
        spec_body_i64(encode_utf8(p + decimal_text(n as int) + q)) == n,
{
    let t = decimal_text(n as int);
    let s = p + t + q;
    encode_utf8_valid_utf8(s);
    encode_utf8_decode_utf8(s);
    lemma_parse_format_roundtrip(n);
    if n < 0 {
        lemma_nat_text_digits((-n) as nat);
        assert(t[0] == '-');
        assert(t.last() == nat_text((-n) as nat).last());
    } else {
        lemma_nat_text_digits(n as nat);
    }
    assert(is_digit(t.last())) by {
        if n < 0 {
            let m = nat_text((-n) as nat);
            assert(t.last() == m[m.len() - 1]);
        } else {
            let m = nat_text(n as nat);
            assert(m[m.len() - 1] == t.last());
        }
    }
    assert(!is_white_space(t[0])) by {
        if n >= 0 {
            assert(is_digit(nat_text(n as nat)[0]));
        }
    }
    lemma_trim_surrounding(p, t, q);
}

/// Law: a body of an integer's decimal text followed by CR LF reads back as
/// that integer.
pub proof fn lemma_body_crlf_roundtrip(n: i64)
    ensures
        spec_body_i64(encode_utf8(decimal_text(n as int) + seq!['\r', '\n'])) == n,
{
    let q = seq!['\r', '\n'];
    lemma_ascii_white_space('\r');
    lemma_ascii_white_space('\n');
    assert(all_white_space(q));
    assert(all_white_space(Seq::<char>::empty()));
    lemma_body_white_space_roundtrip(n, Seq::<char>::empty(), q);
    assert(Seq::<char>::empty() + decimal_text(n as int) + q =~= decimal_text(n as int) + q);
}

/// Law: a leading `+` is allowed before the digits of a natural number, and
/// an empty text, a bare sign and a text with a character that is not a
/// digit after the sign do not parse.
pub proof fn lemma_parse_i64_shapes(n: i64, s: Seq<char>, i: int)
    ensures
        n >= 0 ==> spec_parse_i64(seq!['+'] + decimal_text(n as int)) == Some(n),
        spec_parse_i64(Seq::<char>::empty()) is None,
        spec_parse_i64(seq!['+']) is None,
        spec_parse_i64(seq!['-']) is None,
        sign_len(s) <= i < s.len() && !is_digit(s[i]) ==> spec_parse_i64(s) is None,
{
    if n >= 0 {
        let t = decimal_text(n as int);
        lemma_nat_text_digits(n as nat);
        let u = seq!['+'] + t;
        assert(u[0] == '+');
        assert(u.subrange(1, u.len() as int) =~= t);
    }
    assert(seq!['+'].subrange(1, 1) =~= Seq::<char>::empty());
    assert(seq!['-'].subrange(1, 1) =~= Seq::<char>::empty());
    if sign_len(s) <= i < s.len() && !is_digit(s[i]) {
        let body = s.subrange(sign_len(s), s.len() as int);
        assert(body[i - sign_len(s)] == s[i]);
    }
}

} // verus!
