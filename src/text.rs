use vstd::prelude::*;
use vstd::string::*;
use vstd::utf8::{decode_utf8, encode_utf8, valid_utf8};

verus! {

/// Relies on `String::push`: the character is appended at the end.
pub assume_specification[ std::string::String::push ](s: &mut std::string::String, ch: char)
    ensures
        final(s)@ == old(s)@.push(ch),
;

/// The characters of `s`, one per element.
pub fn chars_of(s: &str) -> (r: Vec<char>)
    ensures
        r@ == s@,
{
    let n = s.unicode_len();
    let mut r: Vec<char> = Vec::new();
    let mut i: usize = 0;
    while i < n
        invariant
            n == s@.len(),
            i <= n,
            r@ == s@.subrange(0, i as int),
        decreases n - i,
    {
        r.push(s.get_char(i));
        i += 1;
        assert(r@ =~= s@.subrange(0, i as int));
    }
    assert(r@ =~= s@);
    r
}

/// A string holding the characters `cs[lo..hi]`.
pub fn string_from(cs: &Vec<char>, lo: usize, hi: usize) -> (r: String)
    requires
        lo <= hi <= cs@.len(),
    ensures
        r@ == cs@.subrange(lo as int, hi as int),
{
    let mut r = String::new();
    let mut i: usize = lo;
    while i < hi
        invariant
            lo <= i <= hi <= cs@.len(),
            r@ == cs@.subrange(lo as int, i as int),
        decreases hi - i,
    {
        r.push(cs[i]);
        i += 1;
        assert(r@ =~= cs@.subrange(lo as int, i as int));
    }
    r
}

/// An owned copy of `s`.
pub fn string_of(s: &str) -> (r: String)
    ensures
        r@ == s@,
{
    let mut r = String::new();
    r.append(s);
    r
}

/// Whether two strings hold the same characters.
pub fn same_text(a: &str, b: &str) -> (r: bool)
    ensures
        r == (a@ == b@),
{
    let x = chars_of(a);
    let y = chars_of(b);
    if x.len() != y.len() {
        return false;
    }
    let mut i: usize = 0;
    while i < x.len()
        invariant
            x@ == a@,
            y@ == b@,
            x@.len() == y@.len(),
            i <= x@.len(),
            forall|j: int| 0 <= j < i ==> x@[j] == y@[j],
        decreases x@.len() - i,
    {
        if x[i] != y[i] {
            return false;
        }
        i += 1;
    }
    assert(a@ =~= b@);
    true
}

pub open spec fn is_hex_digit(c: char) -> bool {
    ('0' <= c && c <= '9') || ('a' <= c && c <= 'f') || ('A' <= c && c <= 'F')
}

/// The value of a hexadecimal digit.
pub open spec fn hex_value(c: char) -> int {
    if '0' <= c && c <= '9' {
        c as int - '0' as int
    } else if 'a' <= c && c <= 'f' {
        c as int - 'a' as int + 10
    } else {
        c as int - 'A' as int + 10
    }
}

/// The byte written by two hex digits.
pub open spec fn escaped_byte(hi: char, lo: char) -> u8 {
    (hex_value(hi) * 16 + hex_value(lo)) as u8
}

pub open spec fn is_escape(s: Seq<char>) -> bool {
    s.len() >= 3 && s[0] == '%' && is_hex_digit(s[1]) && is_hex_digit(s[2])
}

/// The bytes that a percent-encoded text stands for, read left to right in
/// one pass: each `%` followed by two hexadecimal digits is that byte; every
/// other character is its own UTF-8 encoding.
pub open spec fn percent_bytes(s: Seq<char>) -> Seq<u8>
    decreases s.len(),
{
    if s.len() == 0 {
        Seq::empty()
    } else if is_escape(s) {
        seq![escaped_byte(s[1], s[2])] + percent_bytes(s.subrange(3, s.len() as int))
    } else {
        encode_utf8(seq![s[0]]) + percent_bytes(s.subrange(1, s.len() as int))
    }
}

/// The text a percent-encoded text stands for, when its bytes are UTF-8.
pub open spec fn percent_decoded(s: Seq<char>) -> Option<Seq<char>> {
    if valid_utf8(percent_bytes(s)) {
        Some(decode_utf8(percent_bytes(s)))
    } else {
        None
    }
}

/// A path segment after decoding; a segment whose escapes do not form UTF-8
/// is kept as it was.
pub open spec fn seg_decoded(s: Seq<char>) -> Seq<char> {
    match percent_decoded(s) {
        Some(d) => d,
        None => s,
    }
}

fn hex_digit(c: char) -> (r: Option<u8>)
    ensures
        r is Some <==> is_hex_digit(c),
        r is Some ==> r->0 as int == hex_value(c) && r->0 < 16,
{
    if '0' <= c && c <= '9' {
        Some(((c as u32) - ('0' as u32)) as u8)
    } else if 'a' <= c && c <= 'f' {
        Some(((c as u32) - ('a' as u32) + 10) as u8)
    } else if 'A' <= c && c <= 'F' {
        Some(((c as u32) - ('A' as u32) + 10) as u8)
    } else {
        None
    }
}

/// Relies on `String::from_utf8`: it accepts exactly the well-formed UTF-8
/// byte sequences, and then holds the characters they encode.
#[verifier::external_body]
fn text_from_utf8(bytes: Vec<u8>) -> (r: Option<String>)
    ensures
        r is Some <==> valid_utf8(bytes@),
        r matches Some(s) ==> s@ == decode_utf8(bytes@),
{
    String::from_utf8(bytes).ok()
}

/// The UTF-8 bytes of one character.
fn char_bytes(c: char) -> (r: Vec<u8>)
    ensures
        r@ == encode_utf8(seq![c]),
{
    let mut one = String::new();
    one.push(c);
    assert(one@ =~= seq![c]);
    one.as_str().as_bytes_vec()
}

/// Decodes `%XX` escapes in a path segment, reading the bytes as UTF-8;
/// `None` when they are not UTF-8.
pub fn percent_decode(uri: &str) -> (r: Option<String>)
    ensures
        match percent_decoded(uri@) {
            Some(d) => r matches Some(s) && s@ == d,
            None => r is None,
        },
{
    let cs = chars_of(uri);
    let n = cs.len();
    let mut out: Vec<u8> = Vec::new();
    let mut i: usize = 0;
    assert(cs@.subrange(0, n as int) =~= uri@);
    assert(out@ + percent_bytes(uri@) =~= percent_bytes(uri@));
    while i < n
        invariant
            n == cs@.len(),
            cs@ == uri@,
            i <= n,
            out@ + percent_bytes(cs@.subrange(i as int, n as int)) == percent_bytes(uri@),
        decreases n - i,
    {
        let ghost rest = cs@.subrange(i as int, n as int);
        let mut escaped: Option<u8> = None;
        if n - i > 2 && cs[i] == '%' {
            if let Some(h) = hex_digit(cs[i + 1]) {
                if let Some(l) = hex_digit(cs[i + 2]) {
                    escaped = Some(h * 16 + l);
                }
            }
        }
        let ghost before = out@;
        match escaped {
            Some(b) => {
                assert(rest.subrange(3, rest.len() as int) =~= cs@.subrange(i + 3, n as int));
                assert(is_escape(rest));
                assert(b == escaped_byte(rest[1], rest[2]));
                out.push(b);
                i += 3;
                assert(out@ + percent_bytes(cs@.subrange(i as int, n as int)) =~= before + percent_bytes(rest));
            },
            None => {
                assert(rest.subrange(1, rest.len() as int) =~= cs@.subrange(i + 1, n as int));
                assert(!is_escape(rest));
                let mut more = char_bytes(cs[i]);
                let ghost m = more@;
                out.append(&mut more);
                i += 1;
                assert(out@ + percent_bytes(cs@.subrange(i as int, n as int)) =~= before + percent_bytes(rest));
            },
        }
    }
    assert(out@ =~= out@ + percent_bytes(cs@.subrange(n as int, n as int)));
    text_from_utf8(out)
}

/// Decodes `%XX` escapes in a path segment; a segment whose escapes do not
/// form UTF-8 is returned unchanged.
pub fn uri_seg_decode(uri: &str) -> (r: String)
    ensures
        r@ == seg_decoded(uri@),
{
    match percent_decode(uri) {
        Some(s) => s,
        None => string_of(uri),
    }
}

pub open spec fn is_digit(c: char) -> bool {
    '0' <= c && c <= '9'
}

/// The value of a run of decimal digits, most significant first.
pub open spec fn digits_value(s: Seq<char>) -> nat
    decreases s.len(),
{
    if s.len() == 0 {
        0
    } else {
        digits_value(s.drop_last()) * 10 + (s.last() as int - '0' as int) as nat
    }
}

/// The digits of an unsigned decimal number as `str::parse::<u64>` reads it:
/// one optional leading `+`, then at least one digit.
pub open spec fn unsigned_digits(s: Seq<char>) -> Seq<char> {
    if s.len() > 0 && s[0] == '+' {
        s.drop_first()
    } else {
        s
    }
}

/// The unsigned 64-bit number written by `s`, if it writes one.
pub open spec fn parsed_u64(s: Seq<char>) -> Option<u64> {
    let d = unsigned_digits(s);
    if d.len() > 0 && (forall|i: int| 0 <= i < d.len() ==> is_digit(#[trigger] d[i]))
        && digits_value(d) <= u64::MAX {
        Some(digits_value(d) as u64)
    } else {
        None
    }
}

proof fn lemma_digits_value_grows(s: Seq<char>, k: int)
    requires
        0 <= k <= s.len(),
        forall|i: int| 0 <= i < s.len() ==> is_digit(#[trigger] s[i]),
    ensures
        digits_value(s.subrange(0, k)) <= digits_value(s),
    decreases s.len() - k,
{
    if k < s.len() {
        lemma_digits_value_grows(s, k + 1);
        let p = s.subrange(0, k + 1);
        assert(p.drop_last() =~= s.subrange(0, k));
    } else {
        assert(s.subrange(0, k) =~= s);
    }
}

/// Reads an unsigned decimal number, as `str::parse::<u64>` does.
pub fn parse_u64(s: &str) -> (r: Option<u64>)
    ensures
        r == parsed_u64(s@),
{
    let cs = chars_of(s);
    let mut start: usize = 0;
    if cs.len() > 0 && cs[0] == '+' {
        start = 1;
    }
    let ghost d = unsigned_digits(s@);
    assert(d =~= cs@.subrange(start as int, cs@.len() as int));
    if start >= cs.len() {
        return None;
    }
    let mut value: u64 = 0;
    let mut i: usize = start;
    while i < cs.len()
        invariant
            cs@ == s@,
            d == cs@.subrange(start as int, cs@.len() as int),
            d == unsigned_digits(s@),
            start <= i <= cs@.len(),
            forall|j: int| start <= j < i ==> is_digit(#[trigger] cs@[j]),
            value as nat == digits_value(cs@.subrange(start as int, i as int)),
        decreases cs@.len() - i,
    {
        let c = cs[i];
        if !('0' <= c && c <= '9') {
            assert(d[i - start] == cs@[i as int]);
            assert(!is_digit(d[i - start]));
            assert(!(forall|j: int| 0 <= j < d.len() ==> is_digit(#[trigger] d[j])));
            assert(parsed_u64(s@) is None);
            return None;
        }
        let digit: u64 = ((c as u32) - ('0' as u32)) as u64;
        let ghost p = cs@.subrange(start as int, i + 1);
        assert(p.drop_last() =~= cs@.subrange(start as int, i as int));
        if value > (u64::MAX - digit) / 10 {
            assert(digits_value(p) > u64::MAX) by (nonlinear_arith)
                requires
                    value > (u64::MAX - digit) / 10,
                    digits_value(p) == value * 10 + digit,
                    digit <= 9,
            ;
            proof {
                if forall|j: int| 0 <= j < d.len() ==> is_digit(#[trigger] d[j]) {
                    lemma_digits_value_grows(d, i + 1 - start);
                    assert(d.subrange(0, i + 1 - start) =~= p);
                    assert(digits_value(d) > u64::MAX);
                }
            }
            assert(parsed_u64(s@) is None);
            return None;
        }
        assert(value * 10 + digit <= u64::MAX) by (nonlinear_arith)
            requires
                value <= (u64::MAX - digit) / 10,
                digit <= 9,
        ;
        value = value * 10 + digit;
        i += 1;
    }
    assert(d =~= cs@.subrange(start as int, i as int));
    Some(value)
}

pub open spec fn strings_model(v: Seq<String>) -> Seq<Seq<char>> {
    v.map_values(|s: String| s@)
}

/// The pieces of `s` between occurrences of `sep`, left to right; empty
/// pieces are kept, so `n` separators give `n + 1` pieces.
pub open spec fn split_on(s: Seq<char>, sep: char) -> Seq<Seq<char>>
    decreases s.len(),
{
    if s.len() == 0 {
        seq![Seq::empty()]
    } else {
        let front = split_on(s.drop_last(), sep);
        if s.last() == sep {
            front.push(Seq::empty())
        } else {
            front.update(front.len() - 1, front.last().push(s.last()))
        }
    }
}

/// Splits `s` on every occurrence of `sep`.
pub fn split_text(s: &str, sep: char) -> (r: Vec<String>)
    ensures
        strings_model(r@) == split_on(s@, sep),
{
    let cs = chars_of(s);
    let mut done: Vec<String> = Vec::new();
    let mut start: usize = 0;
    let mut i: usize = 0;
    assert(split_on(cs@.subrange(0, 0), sep) =~= seq![Seq::<char>::empty()]);
    assert(cs@.subrange(0, 0) =~= Seq::<char>::empty());
    assert(strings_model(done@).push(cs@.subrange(0, 0)) =~= seq![Seq::<char>::empty()]);
    while i < cs.len()
        invariant
            cs@ == s@,
            start <= i <= cs@.len(),
            split_on(cs@.subrange(0, i as int), sep) == strings_model(done@).push(cs@.subrange(start as int, i as int)),
        decreases cs@.len() - i,
    {
        let ghost before = strings_model(done@).push(cs@.subrange(start as int, i as int));
        let ghost s1 = cs@.subrange(0, i + 1);
        assert(s1.drop_last() =~= cs@.subrange(0, i as int));
        assert(s1.last() == cs@[i as int]);
        if cs[i] == sep {
            assert(split_on(s1, sep) == before.push(Seq::empty()));
            done.push(string_from(&cs, start, i));
            i += 1;
            start = i;
            assert(cs@.subrange(start as int, i as int) =~= Seq::<char>::empty());
            assert(strings_model(done@).push(cs@.subrange(start as int, i as int)) =~= before.push(Seq::empty()));
        } else {
            assert(split_on(s1, sep) == before.update(before.len() - 1, before.last().push(cs@[i as int])));
            i += 1;
            assert(cs@.subrange(start as int, i as int) =~= cs@.subrange(start as int, i - 1).push(cs@[i - 1]));
            assert(strings_model(done@).push(cs@.subrange(start as int, i as int)) =~= before.update(
                before.len() - 1,
                before.last().push(cs@[i - 1]),
            ));
        }
    }
    done.push(string_from(&cs, start, i));
    assert(cs@.subrange(0, i as int) =~= s@);
    assert(strings_model(done@) =~= split_on(s@, sep));
    done
}

/// The character of a decimal digit.
pub open spec fn digit_char(d: nat) -> char {
    ((d + 48) as u8) as char
}

/// The decimal writing of `n`, most significant digit first, with no
/// leading zero.
pub open spec fn decimal(n: nat) -> Seq<char>
    decreases n,
{
    if n < 10 {
        seq![digit_char(n)]
    } else {
        decimal(n / 10).push(digit_char(n % 10))
    }
}

/// Writes `n` in decimal.
pub fn decimal_text(n: u64) -> (r: String)
    ensures
        r@ == decimal(n as nat),
    decreases n,
{
    let digit = ((n % 10) as u8 + 48) as char;
    if n < 10 {
        let mut r = String::new();
        r.push(digit);
        assert(r@ =~= seq![digit_char(n as nat)]);
        r
    } else {
        let mut r = decimal_text(n / 10);
        r.push(digit);
        r
    }
}

proof fn lemma_decimal_digits(n: nat)
    ensures
        decimal(n).len() > 0,
        forall|i: int| 0 <= i < decimal(n).len() ==> is_digit(#[trigger] decimal(n)[i]),
        digits_value(decimal(n)) == n,
    decreases n,
{
    let d = n % 10;
    assert(digit_char(d) as int == d + 48);
    if n >= 10 {
        lemma_decimal_digits(n / 10);
        assert(decimal(n).drop_last() =~= decimal(n / 10));
        assert(decimal(n).last() == digit_char(d));
        assert(n == (n / 10) * 10 + d);
    } else {
        assert(decimal(n).drop_last() =~= Seq::<char>::empty());
        assert(decimal(n).last() == digit_char(n));
        assert(digits_value(Seq::<char>::empty()) == 0);
    }
}

/// Writing an unsigned number in decimal and reading it back gives the
/// number again.
pub proof fn lemma_decimal_round_trip(n: u64)
    ensures
        parsed_u64(decimal(n as nat)) == Some(n),
{
    lemma_decimal_digits(n as nat);
    assert(unsigned_digits(decimal(n as nat)) == decimal(n as nat));
}

} // verus!
