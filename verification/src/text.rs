//! Character-level helpers for the library's string handling.
//!
//! Strings are reasoned about through their view, the sequence of their
//! characters (`s@: Seq<char>`).

use vstd::prelude::*;

verus! {

broadcast use vstd::string::group_string_axioms;

/// Appending one character to a `String` adds it at the end.
pub assume_specification[ String::push ](s: &mut String, ch: char)
    ensures
        final(s)@ == old(s)@.push(ch),
;

/// `char::from_u32`: the character with that code point, when there is one.
pub assume_specification[ char::from_u32 ](i: u32) -> (r: Option<char>)
    ensures
        (i <= 0xD7FF || (0xE000 <= i && i <= 0x10FFFF)) ==> r == Some(i as char),
        !(i <= 0xD7FF || (0xE000 <= i && i <= 0x10FFFF)) ==> r is None,
;

/// `str::to_lowercase`: the Unicode lowercase mapping of a whole string.
/// Its full definition is Unicode's case tables, so it is named, not written out.
pub uninterp spec fn lowercase(s: Seq<char>) -> Seq<char>;

// ── Specifications ──────────────────────────────────────────────────────

/// ASCII lowercase of one character (`char::to_ascii_lowercase`).
pub open spec fn ascii_lower(c: char) -> char {
    if 'A' <= c && c <= 'Z' {
        ((c as u32) + 32) as char
    } else {
        c
    }
}

/// ASCII lowercase of a whole sequence (`str::to_ascii_lowercase`).
pub open spec fn ascii_lower_seq(s: Seq<char>) -> Seq<char> {
    s.map_values(|c: char| ascii_lower(c))
}

/// Two strings match ignoring ASCII case (`str::eq_ignore_ascii_case`).
pub open spec fn eq_ignore_ascii_case_spec(a: Seq<char>, b: Seq<char>) -> bool {
    ascii_lower_seq(a) == ascii_lower_seq(b)
}

/// `char::is_whitespace`: the Unicode `White_Space` property.
pub open spec fn is_ws(c: char) -> bool {
    let u = c as u32;
    ||| (0x09 <= u && u <= 0x0D)
    ||| u == 0x20
    ||| u == 0x85
    ||| u == 0xA0
    ||| u == 0x1680
    ||| (0x2000 <= u && u <= 0x200A)
    ||| u == 0x2028
    ||| u == 0x2029
    ||| u == 0x202F
    ||| u == 0x205F
    ||| u == 0x3000
}

/// Index of the first character that is not whitespace (or the length).
pub open spec fn trim_start_idx(s: Seq<char>) -> int
    decreases s.len(),
{
    if s.len() == 0 {
        0
    } else if is_ws(s[0]) {
        1 + trim_start_idx(s.drop_first())
    } else {
        0
    }
}

/// `s` without its trailing characters for which `p` holds.
pub open spec fn trim_end_by(s: Seq<char>, p: spec_fn(char) -> bool) -> Seq<char>
    decreases s.len(),
{
    if s.len() > 0 && p(s.last()) {
        trim_end_by(s.drop_last(), p)
    } else {
        s
    }
}

/// `s` without its leading characters for which `p` holds.
pub open spec fn trim_start_by(s: Seq<char>, p: spec_fn(char) -> bool) -> Seq<char>
    decreases s.len(),
{
    if s.len() > 0 && p(s[0]) {
        trim_start_by(s.drop_first(), p)
    } else {
        s
    }
}

/// `str::trim`: leading and trailing whitespace removed.
pub open spec fn trim_spec(s: Seq<char>) -> Seq<char> {
    trim_end_by(trim_start_by(s, |c: char| is_ws(c)), |c: char| is_ws(c))
}

pub open spec fn starts_with_spec(s: Seq<char>, p: Seq<char>) -> bool {
    p.len() <= s.len() && s.subrange(0, p.len() as int) == p
}

pub open spec fn ends_with_spec(s: Seq<char>, p: Seq<char>) -> bool {
    p.len() <= s.len() && s.subrange(s.len() - p.len(), s.len() as int) == p
}

/// `needle` occurs somewhere in `s` (`str::contains` with a string pattern).
pub open spec fn contains_spec(s: Seq<char>, needle: Seq<char>) -> bool {
    exists|i: int|
        0 <= i && i + needle.len() <= s.len() && #[trigger] s.subrange(i, i + needle.len())
            == needle
}

pub open spec fn is_digit(c: char) -> bool {
    '0' <= c && c <= '9'
}

pub open spec fn digit_value(c: char) -> int {
    (c as int) - ('0' as int)
}

pub open spec fn all_digits(s: Seq<char>) -> bool {
    forall|i: int| 0 <= i < s.len() ==> #[trigger] is_digit(s[i])
}

/// The number written by a run of decimal digits.
pub open spec fn digits_value(s: Seq<char>) -> int
    decreases s.len(),
{
    if s.len() == 0 {
        0
    } else {
        digits_value(s.drop_last()) * 10 + digit_value(s.last())
    }
}

/// What `str::parse` reads from a decimal integer: an optional sign
/// (`-` only where `signed`), then at least one digit.
pub open spec fn decimal_value(s: Seq<char>, signed: bool) -> Option<int> {
    if s.len() > 0 && (s[0] == '+' || (signed && s[0] == '-')) {
        let rest = s.drop_first();
        if rest.len() > 0 && all_digits(rest) {
            Some(
                if s[0] == '-' {
                    -digits_value(rest)
                } else {
                    digits_value(rest)
                },
            )
        } else {
            None
        }
    } else if s.len() > 0 && all_digits(s) {
        Some(digits_value(s))
    } else {
        None
    }
}

/// `s.parse::<i32>()`: the decimal value, when it fits.
pub open spec fn parse_i32_spec(s: Seq<char>) -> Option<i32> {
    match decimal_value(s, true) {
        Some(v) => if i32::MIN <= v && v <= i32::MAX {
            Some(v as i32)
        } else {
            None
        },
        None => None,
    }
}

/// `s.parse::<u32>()`: the decimal value, when it fits.
pub open spec fn parse_u32_spec(s: Seq<char>) -> Option<u32> {
    match decimal_value(s, false) {
        Some(v) => if v <= u32::MAX {
            Some(v as u32)
        } else {
            None
        },
        None => None,
    }
}

pub open spec fn digit_char(d: nat) -> char {
    (('0' as u32) + d) as char
}

/// Decimal digits of a natural number, as `Display` writes them.
pub open spec fn decimal_digits(n: nat) -> Seq<char>
    decreases n,
{
    if n < 10 {
        seq![digit_char(n)]
    } else {
        decimal_digits(n / 10).push(digit_char(n % 10))
    }
}

/// Decimal text of an integer, as `Display` writes it.
pub open spec fn int_text(n: int) -> Seq<char> {
    if n < 0 {
        seq!['-'] + decimal_digits((-n) as nat)
    } else {
        decimal_digits(n as nat)
    }
}

/// The decimal digits of a number are digits, at least one, and read back
/// as the number.
pub proof fn lemma_decimal_digits(n: nat)
    ensures
        decimal_digits(n).len() > 0,
        all_digits(decimal_digits(n)),
        digits_value(decimal_digits(n)) == n,
    decreases n,
{
    assert(digit_value(digit_char(n % 10)) == n % 10);
    if n >= 10 {
        lemma_decimal_digits(n / 10);
        let d = decimal_digits(n);
        assert(d.drop_last() == decimal_digits(n / 10));
        assert(d.last() == digit_char(n % 10));
        assert((n / 10) * 10 + n % 10 == n) by (nonlinear_arith);
        assert(digits_value(d) == digits_value(d.drop_last()) * 10 + digit_value(d.last()));
    } else {
        let d = decimal_digits(n);
        assert(d.drop_last() =~= Seq::<char>::empty());
        assert(n % 10 == n);
        assert(digits_value(d) == digits_value(d.drop_last()) * 10 + digit_value(d.last()));
        assert forall|i: int| 0 <= i < d.len() implies #[trigger] is_digit(d[i]) by {
            if i < d.len() - 1 {
                assert(d[i] == decimal_digits(n / 10)[i]);
            }
        }
    }
}

/// The decimal text of an `i32` reads back as it, and holds no `x`.
pub proof fn lemma_int_text_round_trip(v: i32)
    ensures
        parse_i32_spec(int_text(v as int)) == Some(v),
        int_text(v as int).len() > 0,
        forall|i: int| 0 <= i < int_text(v as int).len() ==> #[trigger] int_text(v as int)[i] != 'x',
{
    let t = int_text(v as int);
    if v < 0 {
        let m = (-(v as int)) as nat;
        lemma_decimal_digits(m);
        assert(t.drop_first() =~= decimal_digits(m));
        assert(t[0] == '-');
        assert forall|i: int| 0 <= i < t.len() implies #[trigger] t[i] != 'x' by {
            if i > 0 {
                assert(t[i] == decimal_digits(m)[i - 1]);
                assert(is_digit(decimal_digits(m)[i - 1]));
            }
        }
    } else {
        lemma_decimal_digits(v as nat);
        assert(is_digit(t[0]));
        assert forall|i: int| 0 <= i < t.len() implies #[trigger] t[i] != 'x' by {
            assert(is_digit(t[i]));
        }
    }
}

// ── Executable helpers ──────────────────────────────────────────────────

/// The characters of a string slice, in order.
pub fn chars_of(s: &str) -> (r: Vec<char>)
    ensures
        r@ == s@,
{
    let mut out: Vec<char> = Vec::new();
    for c in it: s.chars()
        invariant
            it.seq() == s@,
            out@ == it.seq().take(it.index() as int),
    {
        out.push(c);
    }
    out
}

/// A string made of the given characters.
pub fn string_from_chars(v: &[char]) -> (r: String)
    ensures
        r@ == v@,
{
    let mut out = String::new();
    let mut i: usize = 0;
    while i < v.len()
        invariant
            i <= v.len(),
            out@ == v@.take(i as int),
        decreases v.len() - i,
    {
        out.push(v[i]);
        i += 1;
        proof {
            assert(v@.take(i as int) == v@.take(i - 1).push(v@[i - 1]));
        }
    }
    proof {
        assert(v@.take(v.len() as int) == v@);
    }
    out
}

/// An owned copy of a string slice.
pub fn owned(s: &str) -> (r: String)
    ensures
        r@ == s@,
{
    s.to_owned()
}

/// The characters `cs[from..to]`, copied.
pub fn char_range(cs: &[char], from: usize, to: usize) -> (r: Vec<char>)
    requires
        from <= to <= cs@.len(),
    ensures
        r@ == cs@.subrange(from as int, to as int),
{
    let mut out: Vec<char> = Vec::new();
    let mut i: usize = from;
    while i < to
        invariant
            from <= i <= to,
            to <= cs@.len(),
            out@ == cs@.subrange(from as int, i as int),
        decreases to - i,
    {
        out.push(cs[i]);
        proof {
            assert(cs@.subrange(from as int, i + 1) =~= cs@.subrange(from as int, i as int).push(cs@[i as int]));
        }
        i += 1;
    }
    out
}

/// Character-wise equality of two slices of characters.
pub fn chars_eq(a: &[char], b: &[char]) -> (r: bool)
    ensures
        r == (a@ == b@),
{
    if a.len() != b.len() {
        return false;
    }
    let mut i: usize = 0;
    while i < a.len()
        invariant
            a.len() == b.len(),
            i <= a.len(),
            forall|j: int| 0 <= j < i ==> a@[j] == b@[j],
        decreases a.len() - i,
    {
        if a[i] != b[i] {
            return false;
        }
        i += 1;
    }
    proof {
        assert(a@ =~= b@);
    }
    true
}

/// String equality by characters.
pub fn str_eq(a: &str, b: &str) -> (r: bool)
    ensures
        r == (a@ == b@),
{
    let ac = chars_of(a);
    let bc = chars_of(b);
    chars_eq(ac.as_slice(), bc.as_slice())
}

/// `char::to_ascii_lowercase`.
pub fn ascii_lower_char(c: char) -> (r: char)
    ensures
        r == ascii_lower(c),
{
    if 'A' <= c && c <= 'Z' {
        let u: u32 = (c as u32) + 32;
        proof {
            assert(0x61 <= u && u <= 0x7A);
        }
        char::from_u32(u).unwrap()
    } else {
        c
    }
}

/// `str::to_ascii_lowercase`.
pub fn to_ascii_lowercase(s: &str) -> (r: String)
    ensures
        r@ == ascii_lower_seq(s@),
{
    let cs = chars_of(s);
    let mut out: Vec<char> = Vec::new();
    let mut i: usize = 0;
    while i < cs.len()
        invariant
            cs@ == s@,
            i <= cs.len(),
            out@ == ascii_lower_seq(cs@.take(i as int)),
        decreases cs.len() - i,
    {
        let c = ascii_lower_char(cs[i]);
        out.push(c);
        i += 1;
        proof {
            assert(ascii_lower_seq(cs@.take(i as int)) =~= ascii_lower_seq(cs@.take(i - 1)).push(
                c,
            ));
        }
    }
    proof {
        assert(cs@.take(cs.len() as int) == cs@);
    }
    string_from_chars(out.as_slice())
}

/// `str::eq_ignore_ascii_case`.
pub fn eq_ignore_ascii_case(a: &str, b: &str) -> (r: bool)
    ensures
        r == eq_ignore_ascii_case_spec(a@, b@),
{
    let ac = chars_of(a);
    let bc = chars_of(b);
    if ac.len() != bc.len() {
        proof {
            assert(ascii_lower_seq(a@).len() != ascii_lower_seq(b@).len());
        }
        return false;
    }
    let mut i: usize = 0;
    while i < ac.len()
        invariant
            ac@ == a@,
            bc@ == b@,
            ac.len() == bc.len(),
            i <= ac.len(),
            forall|j: int| 0 <= j < i ==> ascii_lower(a@[j]) == ascii_lower(b@[j]),
        decreases ac.len() - i,
    {
        let x = ascii_lower_char(ac[i]);
        let y = ascii_lower_char(bc[i]);
        if x != y {
            proof {
                assert(ascii_lower_seq(a@)[i as int] != ascii_lower_seq(b@)[i as int]);
            }
            return false;
        }
        i += 1;
    }
    proof {
        assert(ascii_lower_seq(a@) =~= ascii_lower_seq(b@));
    }
    true
}

/// `str::to_lowercase`.
#[verifier::external_body]
pub(crate) fn to_lowercase(s: &str) -> (r: String)
    ensures
        r@ == lowercase(s@),
{
    s.to_lowercase()
}

/// `char::is_whitespace`.
pub fn is_ws_char(c: char) -> (r: bool)
    ensures
        r == is_ws(c),
{
    let u = c as u32;
    (0x09 <= u && u <= 0x0D) || u == 0x20 || u == 0x85 || u == 0xA0 || u == 0x1680 || (0x2000
        <= u && u <= 0x200A) || u == 0x2028 || u == 0x2029 || u == 0x202F || u == 0x205F || u
        == 0x3000
}

proof fn lemma_trim_start_by_skip(s: Seq<char>, p: spec_fn(char) -> bool, k: int)
    requires
        0 <= k <= s.len(),
        forall|j: int| 0 <= j < k ==> p(#[trigger] s[j]),
    ensures
        trim_start_by(s, p) == trim_start_by(s.skip(k), p),
    decreases k,
{
    if k > 0 {
        assert(s.drop_first().skip(k - 1) =~= s.skip(k));
        lemma_trim_start_by_skip(s.drop_first(), p, k - 1);
    } else {
        assert(s.skip(0) =~= s);
    }
}

proof fn lemma_trim_end_by_take(s: Seq<char>, p: spec_fn(char) -> bool, k: int)
    requires
        0 <= k <= s.len(),
        forall|j: int| k <= j < s.len() ==> p(#[trigger] s[j]),
    ensures
        trim_end_by(s, p) == trim_end_by(s.take(k), p),
    decreases s.len() - k,
{
    if k < s.len() {
        assert(s.drop_last().take(k) =~= s.take(k));
        lemma_trim_end_by_take(s.drop_last(), p, k);
    } else {
        assert(s.take(k) =~= s);
    }
}

/// `str::trim` on a character slice.
pub fn trim_chars(s: &[char]) -> (r: Vec<char>)
    ensures
        r@ == trim_spec(s@),
{
    let ghost ws = |c: char| is_ws(c);
    let mut start: usize = 0;
    while start < s.len() && is_ws_char(s[start])
        invariant
            start <= s.len(),
            forall|j: int| 0 <= j < start ==> is_ws(#[trigger] s@[j]),
        decreases s.len() - start,
    {
        start += 1;
    }
    proof {
        lemma_trim_start_by_skip(s@, ws, start as int);
        if start < s.len() {
            assert(s@.skip(start as int)[0] == s@[start as int]);
        }
        assert(trim_start_by(s@.skip(start as int), ws) == s@.skip(start as int));
    }
    let mut end: usize = s.len();
    while end > start && is_ws_char(s[end - 1])
        invariant
            start <= end <= s.len(),
            forall|j: int| end <= j < s.len() ==> is_ws(#[trigger] s@[j]),
        decreases end,
    {
        end -= 1;
    }
    let ghost mid = s@.skip(start as int);
    proof {
        assert forall|j: int| end - start <= j < mid.len() implies ws(#[trigger] mid[j]) by {
            assert(mid[j] == s@[start + j]);
        }
        lemma_trim_end_by_take(mid, ws, end - start);
        let t = mid.take(end - start);
        if end > start {
            assert(t.last() == s@[end - 1]);
        }
        assert(trim_end_by(t, ws) == t);
    }
    let mut out: Vec<char> = Vec::new();
    let mut i = start;
    while i < end
        invariant
            start <= i <= end <= s.len(),
            out@ == s@.subrange(start as int, i as int),
        decreases end - i,
    {
        out.push(s[i]);
        i += 1;
        proof {
            assert(s@.subrange(start as int, i as int) =~= s@.subrange(start as int, i - 1).push(
                s@[i - 1],
            ));
        }
    }
    proof {
        assert(out@ =~= mid.take(end - start));
    }
    out
}

/// `str::trim`.
pub fn trim(s: &str) -> (r: String)
    ensures
        r@ == trim_spec(s@),
{
    let cs = chars_of(s);
    let t = trim_chars(cs.as_slice());
    string_from_chars(t.as_slice())
}

/// Does `s` start with `p`?
pub fn starts_with(s: &[char], p: &[char]) -> (r: bool)
    ensures
        r == starts_with_spec(s@, p@),
{
    if p.len() > s.len() {
        return false;
    }
    let mut i: usize = 0;
    while i < p.len()
        invariant
            p.len() <= s.len(),
            i <= p.len(),
            forall|j: int| 0 <= j < i ==> s@[j] == p@[j],
        decreases p.len() - i,
    {
        if s[i] != p[i] {
            proof {
                assert(s@.subrange(0, p.len() as int)[i as int] != p@[i as int]);
            }
            return false;
        }
        i += 1;
    }
    proof {
        assert(s@.subrange(0, p.len() as int) =~= p@);
    }
    true
}

/// Does `s` end with `p`?
pub fn ends_with(s: &[char], p: &[char]) -> (r: bool)
    ensures
        r == ends_with_spec(s@, p@),
{
    if p.len() > s.len() {
        return false;
    }
    let off = s.len() - p.len();
    let mut i: usize = 0;
    while i < p.len()
        invariant
            p.len() <= s.len(),
            off == s.len() - p.len(),
            i <= p.len(),
            forall|j: int| 0 <= j < i ==> s@[off + j] == p@[j],
        decreases p.len() - i,
    {
        if s[off + i] != p[i] {
            proof {
                assert(s@.subrange(off as int, s.len() as int)[i as int] != p@[i as int]);
            }
            return false;
        }
        i += 1;
    }
    proof {
        assert(s@.subrange(off as int, s.len() as int) =~= p@);
    }
    true
}

/// Does `needle` occur in `s` at position `i`?
fn matches_at(s: &[char], needle: &[char], i: usize) -> (r: bool)
    requires
        i + needle.len() <= s.len(),
    ensures
        r == (s@.subrange(i as int, i + needle@.len()) == needle@),
{
    let mut j: usize = 0;
    while j < needle.len()
        invariant
            i + needle.len() <= s.len(),
            j <= needle.len(),
            forall|t: int| 0 <= t < j ==> s@[i + t] == needle@[t],
        decreases needle.len() - j,
    {
        if s[i + j] != needle[j] {
            proof {
                assert(s@.subrange(i as int, i + needle@.len())[j as int] != needle@[j as int]);
            }
            return false;
        }
        j += 1;
    }
    proof {
        assert(s@.subrange(i as int, i + needle@.len()) =~= needle@);
    }
    true
}

/// Does `needle` occur in `s`?
pub fn contains(s: &[char], needle: &[char]) -> (r: bool)
    ensures
        r == contains_spec(s@, needle@),
{
    if needle.len() == 0 {
        proof {
            assert(s@.subrange(0int, 0int + needle@.len()) =~= needle@);
        }
        return true;
    }
    if needle.len() > s.len() {
        return false;
    }
    let last = s.len() - needle.len();
    let mut i: usize = 0;
    while i <= last
        invariant
            0 < needle.len() <= s.len(),
            last == s.len() - needle.len(),
            i <= last + 1,
            forall|k: int|
                0 <= k < i ==> #[trigger] s@.subrange(k, k + needle@.len()) != needle@,
        decreases last + 1 - i,
    {
        if matches_at(s, needle, i) {
            return true;
        }
        i += 1;
    }
    false
}

/// The byte value of a digit character.
fn digit_of(c: char) -> (r: u64)
    requires
        is_digit(c),
    ensures
        r == digit_value(c),
        r <= 9,
{
    ((c as u32) - ('0' as u32)) as u64
}

proof fn lemma_digits_value_nonneg(s: Seq<char>)
    requires
        all_digits(s),
    ensures
        digits_value(s) >= 0,
    decreases s.len(),
{
    if s.len() > 0 {
        assert(is_digit(s[s.len() - 1]));
        assert(all_digits(s.drop_last())) by {
            assert forall|i: int| 0 <= i < s.drop_last().len() implies #[trigger] is_digit(
                s.drop_last()[i],
            ) by {
                assert(is_digit(s[i]));
            }
        }
        lemma_digits_value_nonneg(s.drop_last());
    }
}

/// The value of a run of digits, or `None` once it exceeds `limit`.
fn digits_up_to(cs: &[char], from: usize, limit: u64) -> (r: Option<u64>)
    requires
        from <= cs.len(),
        limit <= 0xFFFF_FFFF,
        all_digits(cs@.skip(from as int)),
    ensures
        match r {
            Some(v) => v == digits_value(cs@.skip(from as int)) && v <= limit,
            None => digits_value(cs@.skip(from as int)) > limit,
        },
{
    let ghost d = cs@.skip(from as int);
    let mut acc: u64 = 0;
    let mut i = from;
    while i < cs.len()
        invariant
            from <= i <= cs.len(),
            limit <= 0xFFFF_FFFF,
            d == cs@.skip(from as int),
            all_digits(d),
            acc == digits_value(d.take(i - from)),
            acc <= limit,
        decreases cs.len() - i,
    {
        assert(is_digit(d[i - from]));
        let dv = digit_of(cs[i]);
        let next = acc * 10 + dv;
        proof {
            assert(d.take(i - from + 1).drop_last() =~= d.take(i - from));
            assert(d.take(i - from + 1).last() == cs@[i as int]);
        }
        if next > limit {
            proof {
                // every further digit can only grow the value
                lemma_digits_prefix_monotone(d, i - from + 1);
            }
            return None;
        }
        acc = next;
        i += 1;
    }
    proof {
        assert(d.take(cs.len() - from) =~= d);
    }
    Some(acc)
}

/// A longer run of digits is worth at least as much as its prefix.
proof fn lemma_digits_prefix_monotone(d: Seq<char>, k: int)
    requires
        all_digits(d),
        0 <= k <= d.len(),
    ensures
        digits_value(d) >= digits_value(d.take(k)),
    decreases d.len() - k,
{
    if k < d.len() {
        lemma_digits_prefix_monotone(d, k + 1);
        assert(d.take(k + 1).drop_last() =~= d.take(k));
        assert(is_digit(d[k]));
        assert(all_digits(d.take(k))) by {
            assert forall|i: int| 0 <= i < d.take(k).len() implies #[trigger] is_digit(
                d.take(k)[i],
            ) by {
                assert(is_digit(d[i]));
            }
        }
        lemma_digits_value_nonneg(d.take(k));
    } else {
        assert(d.take(k) =~= d);
    }
}

/// Are all characters of `cs` from index `from` on digits?
fn all_digits_from(cs: &[char], from: usize) -> (r: bool)
    requires
        from <= cs.len(),
    ensures
        r == all_digits(cs@.skip(from as int)),
{
    let mut i = from;
    while i < cs.len()
        invariant
            from <= i <= cs.len(),
            forall|j: int| from <= j < i ==> is_digit(#[trigger] cs@[j]),
        decreases cs.len() - i,
    {
        if !('0' <= cs[i] && cs[i] <= '9') {
            proof {
                assert(!is_digit(cs@.skip(from as int)[i - from]));
            }
            return false;
        }
        i += 1;
    }
    proof {
        assert forall|j: int| 0 <= j < cs@.skip(from as int).len() implies #[trigger] is_digit(
            cs@.skip(from as int)[j],
        ) by {
            assert(cs@.skip(from as int)[j] == cs@[from + j]);
        }
    }
    true
}

/// `str::parse::<i32>` on a character slice.
pub fn parse_i32_chars(cs: &[char]) -> (r: Option<i32>)
    ensures
        r == parse_i32_spec(cs@),
{
    if cs.len() == 0 {
        return None;
    }
    let signed = cs[0] == '+' || cs[0] == '-';
    let from: usize = if signed {
        1
    } else {
        0
    };
    proof {
        assert(cs@.skip(0) =~= cs@);
        assert(cs@.skip(1) =~= cs@.drop_first());
    }
    if from == cs.len() || !all_digits_from(cs, from) {
        return None;
    }
    let neg = cs[0] == '-';
    let limit: u64 = if neg {
        0x8000_0000
    } else {
        0x7FFF_FFFF
    };
    match digits_up_to(cs, from, limit) {
        Some(v) => {
            if neg {
                Some((0 - (v as i64)) as i32)
            } else {
                Some(v as i32)
            }
        },
        None => None,
    }
}

/// `str::parse::<u32>` on a character slice.
pub fn parse_u32_chars(cs: &[char]) -> (r: Option<u32>)
    ensures
        r == parse_u32_spec(cs@),
{
    if cs.len() == 0 {
        return None;
    }
    let from: usize = if cs[0] == '+' {
        1
    } else {
        0
    };
    proof {
        assert(cs@.skip(0) =~= cs@);
        assert(cs@.skip(1) =~= cs@.drop_first());
    }
    if from == cs.len() || !all_digits_from(cs, from) {
        proof {
            if cs@[0] == '-' {
                assert(!is_digit(cs@[0]));
                assert(!all_digits(cs@));
            }
        }
        return None;
    }
    match digits_up_to(cs, from, 0xFFFF_FFFF) {
        Some(v) => Some(v as u32),
        None => None,
    }
}

/// Append the decimal digits of `n` to `s`.
pub fn push_decimal(s: &mut String, n: u64)
    ensures
        final(s)@ == old(s)@ + decimal_digits(n as nat),
    decreases n,
{
    if n >= 10 {
        push_decimal(s, n / 10);
    }
    let d = (n % 10) as u32;
    let c = char::from_u32(('0' as u32) + d).unwrap();
    s.push(c);
    proof {
        if n >= 10 {
            assert(decimal_digits(n as nat) == decimal_digits((n / 10) as nat).push(
                digit_char((n % 10) as nat),
            ));
        }
    }
}

/// Append the decimal text of a signed integer to `s`, as `Display` does.
pub fn push_int(s: &mut String, n: i64)
    ensures
        final(s)@ == old(s)@ + int_text(n as int),
{
    if n < 0 {
        s.push('-');
        let m: u64 = if n == i64::MIN {
            0x8000_0000_0000_0000
        } else {
            (-n) as u64
        };
        push_decimal(s, m);
        proof {
            assert(old(s)@.push('-') + decimal_digits(m as nat) =~= old(s)@ + (seq!['-']
                + decimal_digits(m as nat)));
        }
    } else {
        push_decimal(s, n as u64);
    }
}

} // verus!
