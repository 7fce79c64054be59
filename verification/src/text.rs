//! Character-level text handling shared by the protocol parsers: whitespace,
//! trimming, splitting, unsigned decimal parsing and number formatting.
use vstd::prelude::*;
use vstd::utf8::{decode_utf8, valid_utf8};

verus! {

// ---------------------------------------------------------------------------
// Specifications
// ---------------------------------------------------------------------------

/// Unicode `White_Space`, as `char::is_whitespace` classifies it.
pub open spec fn is_ws(c: char) -> bool {
    let u = c as u32;
    ||| 0x09 <= u <= 0x0D
    ||| u == 0x20
    ||| u == 0x85
    ||| u == 0xA0
    ||| u == 0x1680
    ||| 0x2000 <= u <= 0x200A
    ||| u == 0x2028
    ||| u == 0x2029
    ||| u == 0x202F
    ||| u == 0x205F
    ||| u == 0x3000
}

/// `s` with leading whitespace removed.
pub open spec fn trim_start(s: Seq<char>) -> Seq<char>
    decreases s.len(),
{
    if s.len() > 0 && is_ws(s[0]) {
        trim_start(s.drop_first())
    } else {
        s
    }
}

/// `s` with trailing whitespace removed.
pub open spec fn trim_end(s: Seq<char>) -> Seq<char>
    decreases s.len(),
{
    if s.len() > 0 && is_ws(s.last()) {
        trim_end(s.drop_last())
    } else {
        s
    }
}

/// `s` with whitespace removed at both ends (`str::trim`).
pub open spec fn trim(s: Seq<char>) -> Seq<char> {
    trim_end(trim_start(s))
}

/// Every character of `s` is whitespace.
pub open spec fn all_ws(s: Seq<char>) -> bool {
    forall|i: int| 0 <= i < s.len() ==> #[trigger] is_ws(s[i])
}

/// The whitespace-separated words of `s` (`str::split_whitespace`).
pub open spec fn words(s: Seq<char>) -> Seq<Seq<char>>
    decreases s.len(),
{
    if s.len() == 0 {
        seq![]
    } else if is_ws(s[0]) {
        words(s.drop_first())
    } else {
        let rest = words(s.drop_first());
        if s.len() > 1 && !is_ws(s[1]) {
            rest.update(0, seq![s[0]] + rest[0])
        } else {
            seq![seq![s[0]]] + rest
        }
    }
}

/// The pieces of `s` between occurrences of `c` (`str::split` on a char).
pub open spec fn split_char(s: Seq<char>, c: char) -> Seq<Seq<char>>
    decreases s.len(),
{
    if s.len() == 0 {
        seq![seq![]]
    } else if s[0] == c {
        seq![Seq::<char>::empty()] + split_char(s.drop_first(), c)
    } else {
        let rest = split_char(s.drop_first(), c);
        rest.update(0, seq![s[0]] + rest[0])
    }
}

/// `c` does not occur in `s`.
pub open spec fn lacks(s: Seq<char>, c: char) -> bool {
    forall|i: int| 0 <= i < s.len() ==> s[i] != c
}

pub open spec fn is_ascii_digit(c: char) -> bool {
    0x30 <= (c as u32) <= 0x39
}

pub open spec fn digit_value(c: char) -> nat {
    ((c as u32) - 0x30) as nat
}

/// Value of a string of decimal digits, most significant first.
pub open spec fn digits_value(s: Seq<char>) -> nat
    decreases s.len(),
{
    if s.len() == 0 {
        0
    } else {
        digits_value(s.drop_last()) * 10 + digit_value(s.last())
    }
}

pub open spec fn all_ascii_digits(s: Seq<char>) -> bool {
    forall|i: int| 0 <= i < s.len() ==> #[trigger] is_ascii_digit(s[i])
}

/// The digits of an unsigned number: one leading `+` is dropped.
pub open spec fn unsigned_digits(s: Seq<char>) -> Seq<char> {
    if s.len() > 0 && s[0] == '+' {
        s.drop_first()
    } else {
        s
    }
}

/// `str::parse` into an unsigned integer type whose largest value is `max`:
/// an optional `+`, then at least one ASCII digit, and a value up to `max`.
pub open spec fn parse_unsigned(s: Seq<char>, max: nat) -> Option<nat> {
    let d = unsigned_digits(s);
    if d.len() > 0 && all_ascii_digits(d) && digits_value(d) <= max {
        Some(digits_value(d))
    } else {
        None
    }
}

/// What `str::to_lowercase` returns for `s`: its Unicode lower-case
/// mapping (a final sigma included).
pub uninterp spec fn lowercase(s: Seq<char>) -> Seq<char>;

/// The character of a digit in base 16, lower case (`0`-`9`, `a`-`f`).
pub open spec fn digit_char(d: nat) -> char {
    if d < 10 {
        (0x30 + d) as char
    } else {
        (0x61 + d - 10) as char
    }
}

/// `n` written in decimal without leading zeros.
pub open spec fn decimal(n: nat) -> Seq<char>
    decreases n,
{
    if n < 10 {
        seq![digit_char(n)]
    } else {
        decimal(n / 10).push(digit_char(n % 10))
    }
}

/// `n` written in decimal, with a leading `-` when negative.
pub open spec fn signed_decimal(n: int) -> Seq<char> {
    if n < 0 {
        seq!['-'] + decimal((-n) as nat)
    } else {
        decimal(n as nat)
    }
}

/// `n` written in lower-case hexadecimal without leading zeros.
pub open spec fn hex_lower(n: nat) -> Seq<char>
    decreases n,
{
    if n < 16 {
        seq![digit_char(n)]
    } else {
        hex_lower(n / 16).push(digit_char(n % 16))
    }
}

// ---------------------------------------------------------------------------
// Lemmas
// ---------------------------------------------------------------------------

/// Leading whitespace does not change the words of a string.
pub proof fn lemma_words_skip_ws(s: Seq<char>, k: int)
    requires
        0 <= k <= s.len(),
        all_ws(s.take(k)),
    ensures
        words(s) == words(s.skip(k)),
    decreases k,
{
    if k > 0 {
        assert(is_ws(s.take(k)[0]));
        assert(s.drop_first().take(k - 1) =~= s.take(k).drop_first());
        assert forall|i: int| 0 <= i < k - 1 implies #[trigger] is_ws(s.drop_first().take(k - 1)[i]) by {
            assert(is_ws(s.take(k)[i + 1]));
        }
        lemma_words_skip_ws(s.drop_first(), k - 1);
        assert(s.drop_first().skip(k - 1) =~= s.skip(k));
    } else {
        assert(s.skip(0) =~= s);
    }
}

/// A maximal run of non-whitespace at the front is the first word.
pub proof fn lemma_words_first(s: Seq<char>, m: int)
    requires
        1 <= m <= s.len(),
        forall|i: int| 0 <= i < m ==> !is_ws(#[trigger] s[i]),
        m == s.len() || is_ws(s[m]),
    ensures
        words(s) =~= seq![s.take(m)] + words(s.skip(m)),
    decreases m,
{
    if m == 1 {
        assert(s.skip(1) =~= s.drop_first());
        assert(s.take(1) =~= seq![s[0]]);
    } else {
        let t = s.drop_first();
        assert(!is_ws(s[1]));
        assert forall|i: int| 0 <= i < m - 1 implies !is_ws(#[trigger] t[i]) by {
            assert(!is_ws(s[i + 1]));
        }
        lemma_words_first(t, m - 1);
        assert(t.skip(m - 1) =~= s.skip(m));
        assert(seq![s[0]] + t.take(m - 1) =~= s.take(m));
    }
}

/// A string of whitespace has no words.
pub proof fn lemma_words_all_ws(s: Seq<char>)
    requires
        all_ws(s),
    ensures
        words(s) =~= Seq::<Seq<char>>::empty(),
{
    assert(s.take(s.len() as int) =~= s);
    lemma_words_skip_ws(s, s.len() as int);
    assert(s.skip(s.len() as int) =~= Seq::<char>::empty());
}

/// Splitting at the first occurrence of `c`.
pub proof fn lemma_split_first(s: Seq<char>, c: char, k: int)
    requires
        0 <= k < s.len(),
        s[k] == c,
        lacks(s.take(k), c),
    ensures
        split_char(s, c) =~= seq![s.take(k)] + split_char(s.skip(k + 1), c),
    decreases k,
{
    if k == 0 {
        assert(s.skip(1) =~= s.drop_first());
        assert(s.take(0) =~= Seq::<char>::empty());
    } else {
        let t = s.drop_first();
        assert(s[0] != c) by {
            assert(s.take(k)[0] == s[0]);
        }
        assert forall|i: int| 0 <= i < k - 1 implies #[trigger] t.take(k - 1)[i] != c by {
            assert(s.take(k)[i + 1] == t.take(k - 1)[i]);
        }
        lemma_split_first(t, c, k - 1);
        assert(t.skip(k) =~= s.skip(k + 1));
        assert(seq![s[0]] + t.take(k - 1) =~= s.take(k));
    }
}

/// Without `c`, splitting yields the string itself.
pub proof fn lemma_split_none(s: Seq<char>, c: char)
    requires
        lacks(s, c),
    ensures
        split_char(s, c) =~= seq![s],
    decreases s.len(),
{
    if s.len() > 0 {
        assert(lacks(s.drop_first(), c)) by {
            assert forall|i: int| 0 <= i < s.len() - 1 implies s.drop_first()[i] != c by {
                assert(s[i + 1] != c);
            }
        }
        lemma_split_none(s.drop_first(), c);
        assert(s[0] != c);
        assert(seq![s[0]] + s.drop_first() =~= s);
    } else {
        assert(s =~= Seq::<char>::empty());
    }
}

/// Any split has at least one piece.
pub proof fn lemma_split_nonempty(s: Seq<char>, c: char)
    ensures
        split_char(s, c).len() >= 1,
    decreases s.len(),
{
    if s.len() > 0 {
        lemma_split_nonempty(s.drop_first(), c);
    }
}

proof fn lemma_digits_value_step(s: Seq<char>, i: int)
    requires
        0 <= i < s.len(),
    ensures
        digits_value(s.take(i + 1)) == digits_value(s.take(i)) * 10 + digit_value(s[i]),
{
    assert(s.take(i + 1).drop_last() =~= s.take(i));
}

/// A prefix of a digit string is worth no more than the whole.
pub proof fn lemma_digits_value_prefix(s: Seq<char>, i: int)
    requires
        0 <= i <= s.len(),
        all_ascii_digits(s),
    ensures
        digits_value(s.take(i)) <= digits_value(s),
    decreases s.len() - i,
{
    if i < s.len() {
        lemma_digits_value_step(s, i);
        lemma_digits_value_prefix(s, i + 1);
    } else {
        assert(s.take(i) =~= s);
    }
}

proof fn lemma_digit_char(d: nat)
    requires
        d < 10,
    ensures
        is_ascii_digit(digit_char(d)),
        digit_value(digit_char(d)) == d,
        digit_char(d) != '+',
{
    assert(((0x30 + d) as char) as u32 == 0x30 + d);
}

/// Decimal text is a non-empty run of ASCII digits worth `n`.
pub proof fn lemma_decimal_digits(n: nat)
    ensures
        all_ascii_digits(decimal(n)),
        decimal(n).len() >= 1,
        digits_value(decimal(n)) == n,
        decimal(n)[0] != '+',
    decreases n,
{
    lemma_digit_char(n % 10);
    if n >= 10 {
        lemma_decimal_digits(n / 10);
        let d = decimal(n);
        assert(d.drop_last() =~= decimal(n / 10));
        assert(d.last() == digit_char(n % 10));
        assert(digits_value(d) == digits_value(decimal(n / 10)) * 10 + n % 10);
        assert((n / 10) * 10 + n % 10 == n);
        assert forall|i: int| 0 <= i < d.len() implies #[trigger] is_ascii_digit(d[i]) by {
            if i < d.len() - 1 {
                assert(d[i] == decimal(n / 10)[i]);
            }
        }
    } else {
        assert(decimal(n).drop_last() =~= Seq::<char>::empty());
        assert(digits_value(Seq::<char>::empty()) == 0);
        assert(decimal(n).last() == digit_char(n));
    }
}

/// Parsing gives back a number written in decimal.
pub proof fn lemma_parse_decimal(n: nat, max: nat)
    requires
        n <= max,
    ensures
        parse_unsigned(decimal(n), max) == Some(n),
{
    lemma_decimal_digits(n);
}

// ---------------------------------------------------------------------------
// Executable helpers
// ---------------------------------------------------------------------------

/// The characters of a string slice.
pub(crate) fn chars_of(s: &str) -> (v: Vec<char>)
    ensures
        v@ == s@,
{
    broadcast use vstd::string::group_string_axioms;
    let mut v: Vec<char> = Vec::new();
    for c in it: s.chars()
        invariant
            v@ == it.seq().take(it.index() as int),
    {
        v.push(c);
    }
    assert(v@ =~= s@);
    v
}

/// A string made of the given characters.
#[verifier::external_body]
pub(crate) fn string_of(v: &Vec<char>) -> (s: String)
    ensures
        s@ == v@,
{
    v.iter().collect()
}

/// `String::from_utf8`: the bytes as text, when they are valid UTF-8.
#[verifier::external_body]
pub(crate) fn utf8_to_string(bytes: &[u8]) -> (r: Option<String>)
    ensures
        r is Some <==> valid_utf8(bytes@),
        r matches Some(s) ==> s@ == decode_utf8(bytes@),
{
    String::from_utf8(bytes.to_vec()).ok()
}

/// `str::to_lowercase`.
#[verifier::external_body]
pub(crate) fn to_lowercase(s: &str) -> (r: String)
    ensures
        r@ == lowercase(s@),
{
    s.to_lowercase()
}

/// The text (`Display` of `ParseIntError`) of the error that `u16::from_str`
/// reports for `s`.
pub uninterp spec fn u16_parse_error_text(s: Seq<char>) -> Seq<char>;

/// `u16::from_str` (`str::parse::<u16>`) on `s`, with its error as text.
/// As its documentation gives it, it succeeds exactly on an optional `+`
/// followed by one or more ASCII digits worth at most 65535, with that value.
#[verifier::external_body]
pub(crate) fn parse_u16(s: &str) -> (r: Result<u16, String>)
    ensures
        r is Ok <==> parse_unsigned(s@, 65535) is Some,
        r matches Ok(n) ==> parse_unsigned(s@, 65535) == Some(n as nat),
        r matches Err(m) ==> m@ == u16_parse_error_text(s@),
{
    match s.parse::<u16>() {
        Ok(n) => Ok(n),
        Err(e) => Err(e.to_string()),
    }
}

/// Whether two strings hold the same characters.
pub fn str_eq(a: &str, b: &str) -> (r: bool)
    ensures
        r == (a@ == b@),
{
    let x = chars_of(a);
    let y = chars_of(b);
    if x.len() != y.len() {
        return false;
    }
    let mut i: usize = 0;
    while i < x.len()
        invariant
            i <= x@.len() == y@.len(),
            x@ == a@,
            y@ == b@,
            forall|j: int| 0 <= j < i ==> x@[j] == y@[j],
        decreases x@.len() - i,
    {
        if x[i] != y[i] {
            return false;
        }
        i = i + 1;
    }
    assert(x@ =~= y@);
    true
}

/// Whether `line` is empty or all whitespace.
pub fn is_blank_line(line: &str) -> (b: bool)
    ensures
        b == (trim(line@).len() == 0),
{
    let v = chars_of(line);
    assert(v@.subrange(0, v@.len() as int) =~= v@);
    is_blank(&v, 0, v.len())
}

/// The characters `v[lo..hi]` as a string.
pub fn string_of_range(v: &Vec<char>, lo: usize, hi: usize) -> (s: String)
    requires
        lo <= hi <= v@.len(),
    ensures
        s@ == v@.subrange(lo as int, hi as int),
{
    let mut out: Vec<char> = Vec::new();
    push_range(&mut out, v, lo, hi);
    assert(out@ =~= v@.subrange(lo as int, hi as int));
    string_of(&out)
}

/// Appends the characters of `s` to `out`.
pub fn push_str(out: &mut Vec<char>, s: &str)
    ensures
        final(out)@ == old(out)@ + s@,
{
    let mut v = chars_of(s);
    out.append(&mut v);
}

/// Appends the characters `v[lo..hi]` to `out`.
pub fn push_range(out: &mut Vec<char>, v: &Vec<char>, lo: usize, hi: usize)
    requires
        lo <= hi <= v@.len(),
    ensures
        final(out)@ == old(out)@ + v@.subrange(lo as int, hi as int),
{
    let mut i = lo;
    while i < hi
        invariant
            lo <= i <= hi <= v@.len(),
            out@ == old(out)@ + v@.subrange(lo as int, i as int),
        decreases hi - i,
    {
        out.push(v[i]);
        i = i + 1;
        assert(v@.subrange(lo as int, i as int) =~= v@.subrange(lo as int, i - 1 as int).push(v@[i - 1]));
    }
}

/// The character of a digit in base 16.
pub fn digit_to_char(d: u8) -> (c: char)
    requires
        d < 16,
    ensures
        c == digit_char(d as nat),
{
    if d < 10 {
        (0x30u8 + d) as char
    } else {
        (0x61u8 + d - 10) as char
    }
}

/// Appends `n` in decimal to `out`.
pub fn push_decimal(out: &mut Vec<char>, n: u64)
    ensures
        final(out)@ == old(out)@ + decimal(n as nat),
    decreases n,
{
    if n >= 10 {
        push_decimal(out, n / 10);
    }
    let c = digit_to_char((n % 10) as u8);
    out.push(c);
}

/// Appends `n` in lower-case hexadecimal to `out`.
pub fn push_hex(out: &mut Vec<char>, n: u64)
    ensures
        final(out)@ == old(out)@ + hex_lower(n as nat),
    decreases n,
{
    if n >= 16 {
        push_hex(out, n / 16);
    }
    let c = digit_to_char((n % 16) as u8);
    out.push(c);
}

/// `n` written in decimal.
pub fn decimal_string(n: u64) -> (s: String)
    ensures
        s@ == decimal(n as nat),
{
    let mut v: Vec<char> = Vec::new();
    push_decimal(&mut v, n);
    string_of(&v)
}

/// `prefix` followed by `n` in decimal.
pub fn labeled_number(prefix: &str, n: u64) -> (s: String)
    ensures
        s@ == prefix@ + decimal(n as nat),
{
    let mut v = chars_of(prefix);
    push_decimal(&mut v, n);
    string_of(&v)
}

/// `prefix` followed by `n` in decimal, with its sign.
pub fn labeled_signed(prefix: &str, n: i32) -> (s: String)
    ensures
        s@ == prefix@ + signed_decimal(n as int),
{
    let mut v = chars_of(prefix);
    if n < 0 {
        v.push('-');
        let m: i64 = -(n as i64);
        push_decimal(&mut v, m as u64);
        assert(v@ =~= prefix@ + signed_decimal(n as int));
    } else {
        push_decimal(&mut v, n as u64);
    }
    string_of(&v)
}

/// `prefix` followed by `rest`.
pub fn labeled_text(prefix: &str, rest: &str) -> (s: String)
    ensures
        s@ == prefix@ + rest@,
{
    let mut v = chars_of(prefix);
    push_str(&mut v, rest);
    string_of(&v)
}

/// Whether `c` is whitespace (`char::is_whitespace`).
pub fn char_is_ws(c: char) -> (b: bool)
    ensures
        b == is_ws(c),
{
    let u = c as u32;
    (0x09 <= u && u <= 0x0D) || u == 0x20 || u == 0x85 || u == 0xA0 || u == 0x1680 || (0x2000
        <= u && u <= 0x200A) || u == 0x2028 || u == 0x2029 || u == 0x202F || u == 0x205F || u
        == 0x3000
}

/// `s` without the copies of `c` at its start.
pub open spec fn trim_char_start(s: Seq<char>, c: char) -> Seq<char>
    decreases s.len(),
{
    if s.len() > 0 && s[0] == c {
        trim_char_start(s.drop_first(), c)
    } else {
        s
    }
}

/// `s` without the copies of `c` at its end.
pub open spec fn trim_char_end(s: Seq<char>, c: char) -> Seq<char>
    decreases s.len(),
{
    if s.len() > 0 && s.last() == c {
        trim_char_end(s.drop_last(), c)
    } else {
        s
    }
}

/// `s` without the copies of `c` at either end (`str::trim_matches`).
pub open spec fn trim_char(s: Seq<char>, c: char) -> Seq<char> {
    trim_char_end(trim_char_start(s, c), c)
}

/// Bounds of `trim_char(v[lo..hi], c)` within `v`.
pub fn trim_char_bounds(v: &Vec<char>, lo: usize, hi: usize, c: char) -> (r: (usize, usize))
    requires
        lo <= hi <= v@.len(),
    ensures
        lo <= r.0 <= r.1 <= hi,
        v@.subrange(r.0 as int, r.1 as int) == trim_char(v@.subrange(lo as int, hi as int), c),
{
    let mut a = lo;
    while a < hi && v[a] == c
        invariant
            lo <= a <= hi <= v@.len(),
            trim_char_start(v@.subrange(lo as int, hi as int), c) == trim_char_start(
                v@.subrange(a as int, hi as int),
                c,
            ),
        decreases hi - a,
    {
        assert(v@.subrange(a as int, hi as int).drop_first() =~= v@.subrange(a + 1, hi as int));
        a = a + 1;
    }
    let mut b = hi;
    while b > a && v[b - 1] == c
        invariant
            lo <= a <= b <= hi <= v@.len(),
            trim_char_end(v@.subrange(a as int, hi as int), c) == trim_char_end(
                v@.subrange(a as int, b as int),
                c,
            ),
        decreases b - a,
    {
        assert(v@.subrange(a as int, b as int).drop_last() =~= v@.subrange(a as int, b - 1));
        b = b - 1;
    }
    (a, b)
}

/// Bounds of `trim(v[lo..hi])` within `v`.
pub fn trim_bounds(v: &Vec<char>, lo: usize, hi: usize) -> (r: (usize, usize))
    requires
        lo <= hi <= v@.len(),
    ensures
        lo <= r.0 <= r.1 <= hi,
        v@.subrange(r.0 as int, r.1 as int) == trim(v@.subrange(lo as int, hi as int)),
{
    let mut a = lo;
    while a < hi && char_is_ws(v[a])
        invariant
            lo <= a <= hi <= v@.len(),
            trim_start(v@.subrange(lo as int, hi as int)) == trim_start(
                v@.subrange(a as int, hi as int),
            ),
        decreases hi - a,
    {
        assert(v@.subrange(a as int, hi as int).drop_first() =~= v@.subrange(a + 1, hi as int));
        a = a + 1;
    }
    let mut b = hi;
    while b > a && char_is_ws(v[b - 1])
        invariant
            lo <= a <= b <= hi <= v@.len(),
            trim_end(v@.subrange(a as int, hi as int)) == trim_end(v@.subrange(a as int, b as int)),
        decreases b - a,
    {
        assert(v@.subrange(a as int, b as int).drop_last() =~= v@.subrange(a as int, b - 1));
        b = b - 1;
    }
    (a, b)
}

/// Whether `v[lo..hi]` holds only whitespace, that is trims to nothing.
pub fn is_blank(v: &Vec<char>, lo: usize, hi: usize) -> (b: bool)
    requires
        lo <= hi <= v@.len(),
    ensures
        b == (trim(v@.subrange(lo as int, hi as int)).len() == 0),
{
    let (a, b) = trim_bounds(v, lo, hi);
    a == b
}

/// First index of `c` in `v[lo..hi]`.
pub fn find_char(v: &Vec<char>, lo: usize, hi: usize, c: char) -> (r: Option<usize>)
    requires
        lo <= hi <= v@.len(),
    ensures
        r is None ==> lacks(v@.subrange(lo as int, hi as int), c),
        r matches Some(k) ==> lo <= k < hi && v@[k as int] == c && lacks(
            v@.subrange(lo as int, k as int),
            c,
        ),
{
    let mut i = lo;
    while i < hi
        invariant
            lo <= i <= hi <= v@.len(),
            lacks(v@.subrange(lo as int, i as int), c),
        decreases hi - i,
    {
        if v[i] == c {
            return Some(i);
        }
        assert(lacks(v@.subrange(lo as int, i + 1), c)) by {
            assert forall|j: int| 0 <= j < i + 1 - lo implies #[trigger] v@.subrange(lo as int, i + 1)[j]
                != c by {
                if j < i - lo {
                    assert(v@.subrange(lo as int, i + 1)[j] == v@.subrange(lo as int, i as int)[j]);
                }
            }
        }
        i = i + 1;
    }
    None
}

/// Parses `v[lo..hi]` as an unsigned number no larger than `max`, as
/// `str::parse` does for unsigned integer types.
pub fn parse_unsigned_range(v: &Vec<char>, lo: usize, hi: usize, max: u64) -> (r: Option<u64>)
    requires
        lo <= hi <= v@.len(),
    ensures
        r matches Some(n) ==> parse_unsigned(v@.subrange(lo as int, hi as int), max as nat) == Some(
            n as nat,
        ),
        r is None ==> parse_unsigned(v@.subrange(lo as int, hi as int), max as nat) is None,
{
    let ghost s = v@.subrange(lo as int, hi as int);
    let mut start = lo;
    if lo < hi && v[lo] == '+' {
        start = lo + 1;
    }
    let ghost d = v@.subrange(start as int, hi as int);
    assert(d =~= unsigned_digits(s));
    if start == hi {
        return None;
    }
    let mut acc: u64 = 0;
    let mut i = start;
    while i < hi
        invariant
            lo <= start <= i <= hi <= v@.len(),
            d == v@.subrange(start as int, hi as int),
            d == unsigned_digits(v@.subrange(lo as int, hi as int)),
            forall|j: int| 0 <= j < i - start ==> #[trigger] is_ascii_digit(d[j]),
            acc as nat == digits_value(d.take(i - start)),
            acc <= max,
        decreases hi - i,
    {
        let c = v[i];
        assert(d[i - start] == v@[i as int]);
        let u = c as u32;
        if u < 0x30 || u > 0x39 {
            assert(!is_ascii_digit(d[i - start]));
            return None;
        }
        let dv = (u - 0x30) as u64;
        proof {
            lemma_digits_value_step(d, i - start);
        }
        if dv > max || acc > (max - dv) / 10 {
            proof {
                assert(acc * 10 + dv > max) by (nonlinear_arith)
                    requires
                        dv > max || acc > (max - dv) / 10,
                        dv > max || dv <= max,
                ;
                assert forall|j: int| 0 <= j < i - start + 1 implies #[trigger] is_ascii_digit(
                    d.take(i - start + 1)[j],
                ) by {
                    if j < i - start {
                        assert(is_ascii_digit(d[j]));
                    }
                }
                if all_ascii_digits(d) {
                    lemma_digits_value_prefix(d, i - start + 1);
                }
            }
            return None;
        }
        assert(acc * 10 + dv <= max) by (nonlinear_arith)
            requires
                acc <= (max - dv) / 10,
                dv <= max,
        ;
        acc = acc * 10 + dv;
        i = i + 1;
    }
    assert(d.take(hi - start) =~= d);
    Some(acc)
}

} // verus!
