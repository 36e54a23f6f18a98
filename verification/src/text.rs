//! String helpers: decimal rendering, byte-wise ordering, integer parsing and
//! the few `std` string operations the library relies on.
use vstd::prelude::*;
use vstd::string::StringSliceAdditionalSpecFns;

verus! {

/// The character of a decimal digit.
pub open spec fn digit_char(d: nat) -> char {
    (('0' as nat) + d) as char
}

/// Decimal rendering of a natural number, without leading zeros.
pub open spec fn dec(n: nat) -> Seq<char>
    decreases n,
{
    if n < 10 {
        seq![digit_char(n)]
    } else {
        dec(n / 10).push(digit_char(n % 10))
    }
}

/// Appends one character to a string (`String::push`).
#[verifier::external_body]
pub(crate) fn push_char(s: &mut String, c: char)
    ensures
        final(s)@ == old(s)@.push(c),
{
    s.push(c);
}

/// Appends the decimal rendering of `n` to `out`.
pub fn push_decimal(out: &mut String, n: u128)
    ensures
        final(out)@ == old(out)@ + dec(n as nat),
    decreases n,
{
    if n >= 10 {
        push_decimal(out, n / 10);
    }
    let d: u128 = n % 10;
    let c: char = digit_to_char(d);
    push_char(out, c);
    proof {
        assert(n < 10 ==> dec(n as nat) == seq![digit_char(n as nat)]);
    }
}

fn digit_to_char(d: u128) -> (c: char)
    requires
        d < 10,
    ensures
        c == digit_char(d as nat),
{
    let b: u8 = (48 + d) as u8;
    b as char
}

} // verus!

verus! {

// ---------------------------------------------------------------------------
// Byte-wise ordering of strings (the order of `Ord for str`).
// ---------------------------------------------------------------------------

/// Lexicographic "less than or equal" on byte sequences: the first differing
/// byte decides, and a proper prefix sorts first.
pub open spec fn lex_le(a: Seq<u8>, b: Seq<u8>) -> bool
    decreases a.len(),
{
    if a.len() == 0 {
        true
    } else if b.len() == 0 {
        false
    } else if a[0] != b[0] {
        a[0] < b[0]
    } else {
        lex_le(a.drop_first(), b.drop_first())
    }
}

/// `lex_le` compares the same after dropping a common prefix.
pub proof fn lemma_lex_skip(a: Seq<u8>, b: Seq<u8>, i: int)
    requires
        0 <= i <= a.len(),
        i <= b.len(),
        forall|j: int| 0 <= j < i ==> a[j] == b[j],
    ensures
        lex_le(a, b) == lex_le(a.skip(i), b.skip(i)),
    decreases i,
{
    if i > 0 {
        lemma_lex_skip(a.drop_first(), b.drop_first(), i - 1);
        assert(a.drop_first().skip(i - 1) =~= a.skip(i));
        assert(b.drop_first().skip(i - 1) =~= b.skip(i));
    } else {
        assert(a.skip(0) =~= a);
        assert(b.skip(0) =~= b);
    }
}

/// `lex_le` is total.
pub proof fn lemma_lex_total(a: Seq<u8>, b: Seq<u8>)
    ensures
        lex_le(a, b) || lex_le(b, a),
    decreases a.len(),
{
    if a.len() > 0 && b.len() > 0 && a[0] == b[0] {
        lemma_lex_total(a.drop_first(), b.drop_first());
    }
}

/// `lex_le` is transitive.
pub proof fn lemma_lex_trans(a: Seq<u8>, b: Seq<u8>, c: Seq<u8>)
    requires
        lex_le(a, b),
        lex_le(b, c),
    ensures
        lex_le(a, c),
    decreases a.len(),
{
    if a.len() > 0 && b.len() > 0 && c.len() > 0 && a[0] == b[0] && b[0] == c[0] {
        lemma_lex_trans(a.drop_first(), b.drop_first(), c.drop_first());
    }
}

/// `lex_le` in both directions means equality.
pub proof fn lemma_lex_antisym(a: Seq<u8>, b: Seq<u8>)
    requires
        lex_le(a, b),
        lex_le(b, a),
    ensures
        a == b,
    decreases a.len(),
{
    if a.len() > 0 && b.len() > 0 {
        lemma_lex_antisym(a.drop_first(), b.drop_first());
        assert(a =~= seq![a[0]] + a.drop_first());
        assert(b =~= seq![b[0]] + b.drop_first());
    } else {
        assert(a =~= b);
    }
}

/// `a <= b` on byte slices, in lexicographic order.
pub fn bytes_le(a: &[u8], b: &[u8]) -> (r: bool)
    ensures
        r == lex_le(a@, b@),
{
    let mut i: usize = 0;
    while i < a.len() && i < b.len() && a[i] == b[i]
        invariant
            i <= a@.len(),
            i <= b@.len(),
            forall|j: int| 0 <= j < i ==> a@[j] == b@[j],
        decreases a@.len() - i,
    {
        i = i + 1;
    }
    proof {
        lemma_lex_skip(a@, b@, i as int);
    }
    if i == a.len() {
        true
    } else if i == b.len() {
        false
    } else {
        a[i] < b[i]
    }
}

/// `a <= b` on strings, in the byte-wise order of `Ord for str`.
pub fn str_le(a: &str, b: &str) -> (r: bool)
    ensures
        r == lex_le(a.spec_bytes(), b.spec_bytes()),
{
    bytes_le(a.as_bytes(), b.as_bytes())
}

// ---------------------------------------------------------------------------
// Unsigned integer parsing (the rules of `FromStr` for unsigned integers).
// ---------------------------------------------------------------------------

pub open spec fn is_digit_byte(b: u8) -> bool {
    48 <= b <= 57
}

/// Value of a sequence of ASCII decimal digits.
pub open spec fn digits_value(s: Seq<u8>) -> nat
    decreases s.len(),
{
    if s.len() == 0 {
        0
    } else {
        digits_value(s.drop_last()) * 10 + (s.last() - 48) as nat
    }
}

/// The digits part of an unsigned literal: one leading `+` is dropped.
pub open spec fn unsigned_digits(s: Seq<u8>) -> Seq<u8> {
    if s.len() > 0 && s[0] == 43u8 {
        s.drop_first()
    } else {
        s
    }
}

/// What `str::parse` gives for an unsigned integer type whose largest value
/// is `max`: an optional `+`, then at least one ASCII digit and nothing else,
/// with a value that fits.
pub open spec fn parse_unsigned(s: Seq<u8>, max: nat) -> Option<nat> {
    let d = unsigned_digits(s);
    if d.len() > 0 && (forall|i: int| 0 <= i < d.len() ==> is_digit_byte(#[trigger] d[i]))
        && digits_value(d) <= max {
        Some(digits_value(d))
    } else {
        None
    }
}

proof fn lemma_digits_value_mono(s: Seq<u8>, i: int)
    requires
        0 <= i <= s.len(),
        forall|k: int| 0 <= k < s.len() ==> is_digit_byte(#[trigger] s[k]),
    ensures
        digits_value(s.take(i)) <= digits_value(s),
    decreases s.len() - i,
{
    if i < s.len() {
        lemma_digits_value_mono(s, i + 1);
        assert(s.take(i + 1).drop_last() =~= s.take(i));
    } else {
        assert(s.take(i) =~= s);
    }
}

/// Parses an unsigned decimal number no larger than `max`.
pub fn parse_unsigned_str(s: &str, max: u64) -> (r: Option<u64>)
    ensures
        r == (match parse_unsigned(s.spec_bytes(), max as nat) {
            Some(v) => Some(v as u64),
            None => None::<u64>,
        }),
{
    let bytes = s.as_bytes();
    let ghost all = bytes@;
    let start: usize = if bytes.len() > 0 && bytes[0] == 43u8 { 1 } else { 0 };
    let ghost d = unsigned_digits(all);
    assert(d =~= all.skip(start as int));
    if start == bytes.len() {
        return None;
    }
    // Every byte must be a digit.
    let mut k: usize = start;
    while k < bytes.len()
        invariant
            start <= k <= bytes@.len(),
            bytes@ == all,
            all == s.spec_bytes(),
            d == unsigned_digits(all),
            d =~= all.skip(start as int),
            forall|j: int| 0 <= j < k - start ==> is_digit_byte(#[trigger] d[j]),
        decreases bytes@.len() - k,
    {
        if !(48u8 <= bytes[k] && bytes[k] <= 57u8) {
            assert(d[k - start] == bytes@[k as int]);
            assert(!is_digit_byte(d[k - start]));
            assert(!(forall|j: int| 0 <= j < d.len() ==> is_digit_byte(#[trigger] d[j])));
            return None;
        }
        k = k + 1;
    }
    let mut acc: u64 = 0;
    let mut i: usize = start;
    while i < bytes.len()
        invariant
            start <= i <= bytes@.len(),
            bytes@ == all,
            all == s.spec_bytes(),
            d == unsigned_digits(all),
            d =~= all.skip(start as int),
            forall|j: int| 0 <= j < d.len() ==> is_digit_byte(#[trigger] d[j]),
            acc as nat == digits_value(d.take(i - start)),
            acc <= max,
        decreases bytes@.len() - i,
    {
        assert(d[i - start] == bytes@[i as int]);
        assert(is_digit_byte(d[i - start]));
        let digit: u64 = (bytes[i] - 48u8) as u64;
        assert(d.take(i - start + 1).drop_last() =~= d.take(i - start));
        assert(d.take(i - start + 1).last() == d[i - start]);
        if digit > max || acc > (max - digit) / 10 {
            proof {
                assert(acc * 10 + digit > max) by (nonlinear_arith)
                    requires
                        digit > max || acc > (max - digit) / 10,
                        max >= 0,
                        acc >= 0,
                        digit >= 0,
                ;
                lemma_digits_value_mono(d, i - start + 1);
            }
            return None;
        }
        proof {
            assert(acc * 10 + digit <= max) by (nonlinear_arith)
                requires
                    acc <= (max - digit) / 10,
                    digit <= max,
            ;
        }
        acc = acc * 10 + digit;
        i = i + 1;
    }
    assert(d.take(d.len() as int) =~= d);
    Some(acc)
}

// ---------------------------------------------------------------------------
// The std string operations used by the search filter and the dialogs.
// ---------------------------------------------------------------------------

/// `char::is_whitespace`: the Unicode `White_Space` property.
pub open spec fn is_whitespace(c: char) -> bool {
    ||| ('\u{9}' <= c && c <= '\u{d}')
    ||| c == ' '
    ||| c == '\u{85}'
    ||| c == '\u{a0}'
    ||| c == '\u{1680}'
    ||| ('\u{2000}' <= c && c <= '\u{200a}')
    ||| c == '\u{2028}'
    ||| c == '\u{2029}'
    ||| c == '\u{202f}'
    ||| c == '\u{205f}'
    ||| c == '\u{3000}'
}

/// Number of leading whitespace characters.
pub open spec fn leading_ws(s: Seq<char>) -> nat
    decreases s.len(),
{
    if s.len() > 0 && is_whitespace(s[0]) {
        1 + leading_ws(s.drop_first())
    } else {
        0
    }
}

/// Number of trailing whitespace characters.
pub open spec fn trailing_ws(s: Seq<char>) -> nat
    decreases s.len(),
{
    if s.len() > 0 && is_whitespace(s.last()) {
        1 + trailing_ws(s.drop_last())
    } else {
        0
    }
}

/// `s` without its leading and trailing whitespace (`str::trim`).
pub open spec fn trimmed(s: Seq<char>) -> Seq<char> {
    let t = s.skip(leading_ws(s) as int);
    t.take(t.len() - trailing_ws(t))
}

/// Whether `needle` occurs in `hay` as a contiguous run (`str::contains`).
pub open spec fn contains_seq(hay: Seq<char>, needle: Seq<char>) -> bool {
    exists|i: int|
        0 <= i && i + needle.len() <= hay.len() && #[trigger] hay.subrange(i, i + needle.len())
            == needle
}

/// The lowercase mapping of `str::to_lowercase` (Unicode case tables).
pub uninterp spec fn lowercase(s: Seq<char>) -> Seq<char>;

/// `str::trim`: the slice without leading and trailing Unicode whitespace.
#[verifier::external_body]
pub(crate) fn str_trim(s: &str) -> (r: &str)
    ensures
        r@ == trimmed(s@),
{
    s.trim()
}

/// `str::to_lowercase`: the Unicode lowercase mapping of the whole string.
/// Every character maps to at least one character, so only the empty string
/// maps to the empty string; the mapping itself is left unstated.
#[verifier::external_body]
pub(crate) fn str_to_lowercase(s: &str) -> (r: String)
    ensures
        r@ == lowercase(s@),
        r@.len() == 0 <==> s@.len() == 0,
{
    s.to_lowercase()
}

/// `str::contains` with a string pattern.
#[verifier::external_body]
pub(crate) fn str_contains(hay: &str, needle: &str) -> (r: bool)
    ensures
        r == contains_seq(hay@, needle@),
{
    hay.contains(needle)
}

} // verus!

verus! {

/// String equality (`==` on `str`).
pub fn str_eq(a: &str, b: &str) -> (r: bool)
    ensures
        r == (a@ == b@),
{
    let x = a.as_bytes();
    let y = b.as_bytes();
    let le1 = bytes_le(x, y);
    let le2 = bytes_le(y, x);
    proof {
        if le1 && le2 {
            lemma_lex_antisym(x@, y@);
            vstd::utf8::encode_utf8_decode_utf8(a@);
            vstd::utf8::encode_utf8_decode_utf8(b@);
        }
        if a@ == b@ {
            lemma_lex_refl(x@);
        }
    }
    le1 && le2
}

/// `lex_le` is reflexive.
pub proof fn lemma_lex_refl(a: Seq<u8>)
    ensures
        lex_le(a, a),
    decreases a.len(),
{
    if a.len() > 0 {
        lemma_lex_refl(a.drop_first());
    }
}

} // verus!

verus! {

/// Appends `s` to `out`.
pub fn push_str(out: &mut String, s: &str)
    ensures
        final(out)@ == old(out)@ + s@,
{
    out.append(s);
}

/// A new string with the contents of `s`.
pub fn to_string(s: &str) -> (r: String)
    ensures
        r@ == s@,
{
    String::from_str(s)
}

} // verus!

verus! {

// ---------------------------------------------------------------------------
// Decimal text reads back as its number.
// ---------------------------------------------------------------------------

/// The bytes of a sequence of ASCII characters.
pub open spec fn ascii_bytes(s: Seq<char>) -> Seq<u8> {
    Seq::new(s.len(), |i: int| s[i] as u8)
}

proof fn lemma_dec_digits(n: nat)
    ensures
        dec(n).len() > 0,
        forall|i: int| 0 <= i < dec(n).len() ==> '0' <= #[trigger] dec(n)[i] <= '9',
        digits_value(ascii_bytes(dec(n))) == n,
    decreases n,
{
    if n >= 10 {
        lemma_dec_digits(n / 10);
        let prev = dec(n / 10);
        assert(dec(n) == prev.push(digit_char(n % 10)));
        assert(ascii_bytes(dec(n)).drop_last() =~= ascii_bytes(prev));
        assert(digit_char(n % 10) as u8 == 48 + n % 10);
        assert(ascii_bytes(dec(n)).last() == 48 + n % 10);
        assert(digits_value(ascii_bytes(dec(n))) == (n / 10) * 10 + n % 10);
    } else {
        assert(ascii_bytes(dec(n)).drop_last() =~= Seq::<u8>::empty());
        assert(digit_char(n) as u8 == 48 + n);
        assert(ascii_bytes(dec(n)).last() == 48 + n);
        assert(digits_value(Seq::<u8>::empty()) == 0);
    }
}

/// Parsing the decimal text of `n` as an unsigned integer no larger than
/// `max` gives `n` back, or nothing when `n` is too large.
pub proof fn lemma_parse_dec(n: nat, max: nat)
    ensures
        parse_unsigned(vstd::utf8::encode_utf8(dec(n)), max) == (if n <= max {
            Some(n)
        } else {
            None::<nat>
        }),
{
    lemma_dec_digits(n);
    let s = dec(n);
    assert(vstd::utf8::is_ascii_chars(s));
    vstd::utf8::is_ascii_chars_encode_utf8(s);
    let b = vstd::utf8::encode_utf8(s);
    assert(b =~= ascii_bytes(s));
    assert(b[0] != 43u8);
    assert(unsigned_digits(b) == b);
    assert forall|i: int| 0 <= i < b.len() implies is_digit_byte(#[trigger] b[i]) by {
        assert('0' <= s[i] <= '9');
    }
}

} // verus!

verus! {

pub open spec fn pow10(k: nat) -> nat
    decreases k,
{
    if k == 0 {
        1
    } else {
        10 * pow10((k - 1) as nat)
    }
}

proof fn lemma_dec_len_bound(n: nat, k: nat)
    requires
        1 <= k,
        n < pow10(k),
    ensures
        dec(n).len() <= k,
    decreases k,
{
    if n >= 10 {
        assert(pow10(1) == 10) by {
            reveal_with_fuel(pow10, 2);
        }
        assert(k > 1);
        assert(n / 10 < pow10((k - 1) as nat));
        lemma_dec_len_bound(n / 10, (k - 1) as nat);
    }
}

/// The decimal text of a 64-bit number is ASCII and at most 20 characters.
pub proof fn lemma_dec_short(n: nat)
    requires
        n < 0x1_0000_0000_0000_0000,
    ensures
        vstd::utf8::is_ascii_chars(dec(n)),
        dec(n).len() <= 20,
{
    lemma_dec_digits(n);
    assert(pow10(20) == 100000000000000000000nat) by {
        reveal_with_fuel(pow10, 21);
    }
    lemma_dec_len_bound(n, 20);
}

} // verus!
