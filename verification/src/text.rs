//! Character-level text model shared by the whole library.
//!
//! Text is specified as a `Seq<char>` (the view of a `String` or `&str`).
//! Byte offsets into UTF-8 text are specified with `utf8_len`, the number of
//! bytes that UTF-8 needs for a sequence of characters.
use vstd::prelude::*;

verus! {

/// Number of bytes UTF-8 uses for one character.
pub open spec fn utf8_width(c: char) -> nat {
    if (c as u32) < 0x80 {
        1
    } else if (c as u32) < 0x800 {
        2
    } else if (c as u32) < 0x10000 {
        3
    } else {
        4
    }
}

/// Number of bytes UTF-8 uses for a sequence of characters.
pub open spec fn utf8_len(s: Seq<char>) -> nat
    decreases s.len(),
{
    if s.len() == 0 {
        0
    } else {
        utf8_len(s.drop_last()) + utf8_width(s.last())
    }
}

/// Byte offset at which the character with index `k` starts.
pub open spec fn byte_offset(s: Seq<char>, k: int) -> nat {
    utf8_len(s.take(k))
}

/// `b` is the byte offset of a character boundary of `s` (the end counts).
pub open spec fn is_boundary(s: Seq<char>, b: int) -> bool {
    exists|k: int| 0 <= k <= s.len() && #[trigger] byte_offset(s, k) == b
}

/// The length in bytes of a concatenation is the sum of the lengths.
pub proof fn lemma_utf8_len_concat(a: Seq<char>, b: Seq<char>)
    ensures
        utf8_len(a + b) == utf8_len(a) + utf8_len(b),
    decreases b.len(),
{
    if b.len() == 0 {
        assert(a + b =~= a);
    } else {
        lemma_utf8_len_concat(a, b.drop_last());
        assert((a + b).drop_last() =~= a + b.drop_last());
    }
}

/// Every character takes at least one and at most four bytes.
pub proof fn lemma_utf8_len_bounds(s: Seq<char>)
    ensures
        s.len() <= utf8_len(s) <= 4 * s.len(),
    decreases s.len(),
{
    if s.len() > 0 {
        lemma_utf8_len_bounds(s.drop_last());
    }
}

/// Byte offsets grow strictly with the character index.
pub proof fn lemma_byte_offset_strict(s: Seq<char>, j: int, k: int)
    requires
        0 <= j < k <= s.len(),
    ensures
        byte_offset(s, j) + (k - j) <= byte_offset(s, k),
{
    assert(s.take(k) =~= s.take(j) + s.subrange(j, k));
    lemma_utf8_len_concat(s.take(j), s.subrange(j, k));
    lemma_utf8_len_bounds(s.subrange(j, k));
}

/// Byte offsets are monotone in the character index.
pub proof fn lemma_byte_offset_mono(s: Seq<char>, j: int, k: int)
    requires
        0 <= j <= k <= s.len(),
    ensures
        byte_offset(s, j) <= byte_offset(s, k),
{
    if j < k {
        lemma_byte_offset_strict(s, j, k);
    }
}

/// The offset of the next character adds the width of the current one.
pub proof fn lemma_byte_offset_step(s: Seq<char>, k: int)
    requires
        0 <= k < s.len(),
    ensures
        byte_offset(s, k + 1) == byte_offset(s, k) + utf8_width(s[k]),
{
    assert(s.take(k + 1).drop_last() =~= s.take(k));
}

/// The byte offset of the end is the byte length.
pub proof fn lemma_byte_offset_end(s: Seq<char>)
    ensures
        byte_offset(s, s.len() as int) == utf8_len(s),
{
    assert(s.take(s.len() as int) =~= s);
}

/// The UTF-8 encoding that `str::len` measures has `utf8_len` bytes.
pub proof fn lemma_encode_utf8_len(s: Seq<char>)
    ensures
        vstd::utf8::encode_utf8(s).len() == utf8_len(s),
    decreases s.len(),
{
    if s.len() > 0 {
        lemma_encode_utf8_len(s.drop_first());
        vstd::utf8::char_is_scalar(s[0]);
        assert(vstd::utf8::encode_scalar(s[0] as u32).len() == utf8_width(s[0]));
        assert(s =~= seq![s[0]] + s.drop_first());
        let t = seq![s[0]];
        assert(utf8_len(t) == utf8_width(s[0])) by {
            assert(t.drop_last() =~= Seq::<char>::empty());
            assert(utf8_len(t.drop_last()) == 0);
            assert(t.last() == s[0]);
        }
        lemma_utf8_len_concat(seq![s[0]], s.drop_first());
        assert(seq![s[0]].drop_last() =~= Seq::<char>::empty());
    }
}

/// Length in bytes of a string slice.
pub fn byte_len(s: &str) -> (n: usize)
    ensures
        n == utf8_len(s@),
{
    proof {
        lemma_encode_utf8_len(s@);
    }
    let b = s.as_bytes();
    b.len()
}

/// Greatest character index whose start offset is at most `b` (for `b >= 0`).
pub open spec fn floor_index(s: Seq<char>, b: int) -> int
    decreases s.len(),
{
    if s.len() == 0 {
        0
    } else if utf8_len(s) <= b {
        s.len() as int
    } else {
        floor_index(s.drop_last(), b)
    }
}

pub proof fn lemma_floor_index(s: Seq<char>, b: int)
    requires
        b >= 0,
    ensures
        0 <= floor_index(s, b) <= s.len(),
        byte_offset(s, floor_index(s, b)) <= b,
        floor_index(s, b) < s.len() ==> byte_offset(s, floor_index(s, b) + 1) > b,
    decreases s.len(),
{
    let k = floor_index(s, b);
    if s.len() == 0 {
        assert(s.take(0) =~= Seq::<char>::empty());
    } else if utf8_len(s) <= b {
        lemma_byte_offset_end(s);
    } else {
        let t = s.drop_last();
        lemma_floor_index(t, b);
        assert(s.take(k) =~= t.take(k));
        if k < t.len() {
            assert(s.take(k + 1) =~= t.take(k + 1));
        } else {
            lemma_byte_offset_end(s);
        }
    }
}

/// Every character index is below `k` exactly when its offset is below the
/// offset of `k`.
pub proof fn lemma_floor_index_unique(s: Seq<char>, b: int, k: int)
    requires
        b >= 0,
        0 <= k <= s.len(),
        byte_offset(s, k) <= b,
        k < s.len() ==> byte_offset(s, k + 1) > b,
    ensures
        floor_index(s, b) == k,
{
    lemma_floor_index(s, b);
    let f = floor_index(s, b);
    if f < k {
        lemma_byte_offset_mono(s, f + 1, k);
    } else if k < f {
        lemma_byte_offset_mono(s, k + 1, f);
    }
}

/// Finds the greatest character index whose start offset is at most `b`,
/// together with that offset.
pub fn floor_index_of(v: &[char], b: usize) -> (r: (usize, usize))
    ensures
        r.0 == floor_index(v@, b as int),
        r.1 == byte_offset(v@, r.0 as int),
{
    let mut k: usize = 0;
    let mut off: usize = 0;
    assert(v@.take(0) =~= Seq::<char>::empty());
    while k < v.len() && char_utf8_len(v[k]) <= b - off
        invariant
            k <= v@.len(),
            off == byte_offset(v@, k as int),
            off <= b,
        decreases v@.len() - k,
    {
        proof {
            lemma_byte_offset_step(v@, k as int);
        }
        off = off + char_utf8_len(v[k]);
        k = k + 1;
    }
    proof {
        if k < v@.len() {
            lemma_byte_offset_step(v@, k as int);
        }
        lemma_floor_index_unique(v@, b as int, k as int);
    }
    (k, off)
}

/// Number of bytes UTF-8 uses for `c`.
pub fn char_utf8_len(c: char) -> (n: usize)
    ensures
        n == utf8_width(c),
        1 <= n <= 4,
{
    let v = c as u32;
    if v < 0x80 {
        1
    } else if v < 0x800 {
        2
    } else if v < 0x10000 {
        3
    } else {
        4
    }
}

/// Collects the characters of a string slice.
pub fn chars_of(s: &str) -> (v: Vec<char>)
    ensures
        v@ == s@,
{
    let mut v: Vec<char> = Vec::new();
    for c in it: s.chars()
        invariant
            v@ == it.seq().take(it.index() as int),
            it.seq() == s@,
    {
        v.push(c);
    }
    v
}

/// Appends one character to a `String`.
pub assume_specification[ String::push ](s: &mut String, ch: char)
    ensures
        final(s)@ == old(s)@.push(ch),
;

/// Builds a `String` from a run of characters.
pub fn string_of(v: &[char]) -> (s: String)
    ensures
        s@ == v@,
{
    let mut s = String::new();
    let mut i: usize = 0;
    while i < v.len()
        invariant
            i <= v@.len(),
            s@ == v@.take(i as int),
        decreases v@.len() - i,
    {
        s.push(v[i]);
        assert(v@.take(i + 1) =~= v@.take(i as int).push(v@[i as int]));
        i = i + 1;
    }
    assert(v@.take(v@.len() as int) =~= v@);
    s
}

/// Appends a run of characters to a `String`.
pub fn push_chars(s: &mut String, v: &[char])
    ensures
        final(s)@ == old(s)@ + v@,
{
    let mut i: usize = 0;
    while i < v.len()
        invariant
            i <= v@.len(),
            s@ == old(s)@ + v@.take(i as int),
        decreases v@.len() - i,
    {
        s.push(v[i]);
        assert(v@.take(i + 1) =~= v@.take(i as int).push(v@[i as int]));
        i = i + 1;
    }
    assert(v@.take(v@.len() as int) =~= v@);
}

/// Appends the characters of a string slice to a `String`.
pub fn push_str_chars(s: &mut String, t: &str)
    ensures
        final(s)@ == old(s)@ + t@,
{
    let v = chars_of(t);
    push_chars(s, v.as_slice());
}

/// The number of bytes of UTF-8 of a run of characters.
pub fn utf8_len_of(v: &[char]) -> (n: usize)
    requires
        4 * v@.len() <= usize::MAX,
    ensures
        n == utf8_len(v@),
{
    let mut n: usize = 0;
    let mut i: usize = 0;
    while i < v.len()
        invariant
            i <= v@.len(),
            4 * v@.len() <= usize::MAX,
            n == utf8_len(v@.take(i as int)),
            n <= 4 * i,
        decreases v@.len() - i,
    {
        proof {
            lemma_byte_offset_step(v@, i as int);
        }
        n = n + char_utf8_len(v[i]);
        i = i + 1;
    }
    assert(v@.take(v@.len() as int) =~= v@);
    n
}

/// The lowercase form of a text, as `str::to_lowercase` computes it.
pub uninterp spec fn lowercase(s: Seq<char>) -> Seq<char>;

/// `str::to_lowercase`: the result is the lowercase mapping of the argument;
/// an empty argument gives an empty result.
pub assume_specification[ str::to_lowercase ](s: &str) -> (r: String)
    ensures
        r@ == lowercase(s@),
        s@.len() == 0 ==> r@.len() == 0,
;

/// `needle` occurs in `hay` as a contiguous run.
pub open spec fn is_substring(needle: Seq<char>, hay: Seq<char>) -> bool {
    exists|i: int|
        0 <= i && i + needle.len() <= hay.len() && #[trigger] hay.subrange(i, i + needle.len())
            == needle
}

/// `needle` occurs in `hay` starting at index `i`.
pub open spec fn occurs_at(needle: Seq<char>, hay: Seq<char>, i: int) -> bool {
    0 <= i && i + needle.len() <= hay.len() && hay.subrange(i, i + needle.len()) == needle
}

/// Whether `needle` occurs at index `i` of `hay`.
pub fn matches_at(hay: &[char], needle: &[char], i: usize) -> (b: bool)
    ensures
        b == occurs_at(needle@, hay@, i as int),
{
    if i > hay.len() || needle.len() > hay.len() - i {
        return false;
    }
    let hay_len = hay.len();
    let mut j: usize = 0;
    while j < needle.len()
        invariant
            j <= needle@.len(),
            hay_len == hay@.len(),
            i + needle@.len() <= hay@.len(),
            forall|k: int| 0 <= k < j ==> hay@[i + k] == needle@[k],
        decreases needle@.len() - j,
    {
        assert(i + j < hay@.len());
        if hay[i + j] != needle[j] {
            assert(hay@.subrange(i as int, i + needle@.len())[j as int] != needle@[j as int]);
            return false;
        }
        j = j + 1;
    }
    assert(hay@.subrange(i as int, i + needle@.len()) =~= needle@);
    true
}

/// First index at which `needle` occurs in `hay`, if any.
pub open spec fn first_occurrence(needle: Seq<char>, hay: Seq<char>) -> Option<int> {
    if is_substring(needle, hay) {
        Some(choose|i: int| occurs_at(needle, hay, i) && forall|j: int| 0 <= j < i ==> !occurs_at(needle, hay, j))
    } else {
        None
    }
}

/// Finds the first index at which `needle` occurs in `hay`.
pub fn find_seq(hay: &[char], needle: &[char]) -> (r: Option<usize>)
    ensures
        match r {
            Some(i) => occurs_at(needle@, hay@, i as int) && forall|j: int|
                0 <= j < i ==> !occurs_at(needle@, hay@, j),
            None => !is_substring(needle@, hay@),
        },
        r is Some <==> is_substring(needle@, hay@),
{
    if needle.len() > hay.len() {
        assert forall|i: int|
            0 <= i && i + needle@.len() <= hay@.len() implies #[trigger] hay@.subrange(
            i,
            i + needle@.len(),
        ) != needle@ by {}
        return None;
    }
    let last = hay.len() - needle.len();
    let mut i: usize = 0;
    while i < last
        invariant
            last == hay@.len() - needle@.len(),
            i <= last,
            forall|j: int| 0 <= j < i ==> !occurs_at(needle@, hay@, j),
        decreases last - i,
    {
        if matches_at(hay, needle, i) {
            return Some(i);
        }
        i = i + 1;
    }
    if matches_at(hay, needle, last) {
        return Some(last);
    }
    assert forall|k: int|
        0 <= k && k + needle@.len() <= hay@.len() implies #[trigger] hay@.subrange(
        k,
        k + needle@.len(),
    ) != needle@ by {
        assert(!occurs_at(needle@, hay@, k));
    }
    None
}

/// Whether `needle` occurs in `hay`.
pub fn contains_seq(hay: &[char], needle: &[char]) -> (b: bool)
    ensures
        b == is_substring(needle@, hay@),
{
    find_seq(hay, needle).is_some()
}

/// The characters that have the Unicode `White_Space` property.
pub open spec fn is_white_space(c: char) -> bool {
    let v = c as u32;
    (0x09 <= v <= 0x0D) || v == 0x20 || v == 0x85 || v == 0xA0 || v == 0x1680 || (0x2000 <= v
        <= 0x200A) || v == 0x2028 || v == 0x2029 || v == 0x202F || v == 0x205F || v == 0x3000
}

/// Whether `c` has the Unicode `White_Space` property (as `char::is_whitespace`).
pub fn is_whitespace(c: char) -> (b: bool)
    ensures
        b == is_white_space(c),
{
    let v = c as u32;
    (0x09 <= v && v <= 0x0D) || v == 0x20 || v == 0x85 || v == 0xA0 || v == 0x1680 || (0x2000 <= v
        && v <= 0x200A) || v == 0x2028 || v == 0x2029 || v == 0x202F || v == 0x205F || v == 0x3000
}

/// Index of the first character that is not white space (the length if none).
pub open spec fn leading_ws(s: Seq<char>) -> int
    decreases s.len(),
{
    if s.len() > 0 && is_white_space(s[0]) {
        1 + leading_ws(s.drop_first())
    } else {
        0
    }
}

/// `s` without its leading white space (as `str::trim_start`).
pub open spec fn trim_start(s: Seq<char>) -> Seq<char> {
    s.skip(leading_ws(s))
}

/// Number of trailing white-space characters of `s`.
pub open spec fn trailing_ws(s: Seq<char>) -> int
    decreases s.len(),
{
    if s.len() > 0 && is_white_space(s.last()) {
        1 + trailing_ws(s.drop_last())
    } else {
        0
    }
}

/// `s` without its trailing white space (as `str::trim_end`).
pub open spec fn trim_end(s: Seq<char>) -> Seq<char> {
    s.take(s.len() - trailing_ws(s))
}

/// `s` without leading and trailing white space (as `str::trim`).
pub open spec fn trim(s: Seq<char>) -> Seq<char> {
    trim_end(trim_start(s))
}

pub proof fn lemma_leading_ws_bounds(s: Seq<char>)
    ensures
        0 <= leading_ws(s) <= s.len(),
        leading_ws(s) < s.len() ==> !is_white_space(s[leading_ws(s)]),
        forall|i: int| 0 <= i < leading_ws(s) ==> is_white_space(#[trigger] s[i]),
    decreases s.len(),
{
    if s.len() > 0 && is_white_space(s[0]) {
        lemma_leading_ws_bounds(s.drop_first());
        assert forall|i: int| 0 <= i < leading_ws(s) implies is_white_space(#[trigger] s[i]) by {
            if i > 0 {
                assert(s[i] == s.drop_first()[i - 1]);
            }
        }
    }
}

pub proof fn lemma_trailing_ws_bounds(s: Seq<char>)
    ensures
        0 <= trailing_ws(s) <= s.len(),
        trailing_ws(s) < s.len() ==> !is_white_space(s[s.len() - 1 - trailing_ws(s)]),
        forall|i: int|
            s.len() - trailing_ws(s) <= i < s.len() ==> is_white_space(#[trigger] s[i]),
    decreases s.len(),
{
    if s.len() > 0 && is_white_space(s.last()) {
        lemma_trailing_ws_bounds(s.drop_last());
        assert forall|i: int|
            s.len() - trailing_ws(s) <= i < s.len() implies is_white_space(#[trigger] s[i]) by {
            if i < s.len() - 1 {
                assert(s[i] == s.drop_last()[i]);
            }
        }
    }
}

/// Index of the first character that is not white space.
pub fn leading_ws_count(v: &[char]) -> (n: usize)
    ensures
        n == leading_ws(v@),
{
    proof {
        lemma_leading_ws_bounds(v@);
    }
    let mut i: usize = 0;
    while i < v.len() && is_whitespace(v[i])
        invariant
            i <= v@.len(),
            i <= leading_ws(v@),
            0 <= leading_ws(v@) <= v@.len(),
            leading_ws(v@) < v@.len() ==> !is_white_space(v@[leading_ws(v@)]),
        decreases v@.len() - i,
    {
        i = i + 1;
    }
    proof {
        lemma_leading_ws_bounds(v@);
        if i < leading_ws(v@) {
            assert(is_white_space(v@[i as int]));
        }
    }
    i
}

/// Number of trailing white-space characters.
pub fn trailing_ws_count(v: &[char]) -> (n: usize)
    ensures
        n == trailing_ws(v@),
{
    proof {
        lemma_trailing_ws_bounds(v@);
    }
    let mut n: usize = 0;
    while n < v.len() && is_whitespace(v[v.len() - 1 - n])
        invariant
            n <= v@.len(),
            n <= trailing_ws(v@),
            0 <= trailing_ws(v@) <= v@.len(),
            trailing_ws(v@) < v@.len() ==> !is_white_space(v@[v@.len() - 1 - trailing_ws(v@)]),
        decreases v@.len() - n,
    {
        n = n + 1;
    }
    proof {
        lemma_trailing_ws_bounds(v@);
        if n < trailing_ws(v@) {
            assert(is_white_space(v@[v@.len() - 1 - n]));
        }
    }
    n
}

/// `s` starts with `p`.
pub open spec fn starts_with(s: Seq<char>, p: Seq<char>) -> bool {
    p.len() <= s.len() && s.take(p.len() as int) == p
}

/// Whether `s` starts with `p`.
pub fn starts_with_seq(s: &[char], p: &[char]) -> (b: bool)
    ensures
        b == starts_with(s@, p@),
{
    if p.len() > s.len() {
        return false;
    }
    let r = matches_at(s, p, 0);
    assert(s@.subrange(0, p@.len() as int) =~= s@.take(p@.len() as int));
    r
}

/// The characters of `s` without leading and trailing white space.
pub fn trimmed_chars(s: &str) -> (r: Vec<char>)
    ensures
        r@ == trim(s@),
{
    let v = chars_of(s);
    let lead = leading_ws_count(v.as_slice());
    proof {
        lemma_leading_ws_bounds(v@);
    }
    let rest = crate::edit::slice_skip(v.as_slice(), lead);
    let trail = trailing_ws_count(rest.as_slice());
    proof {
        lemma_trailing_ws_bounds(rest@);
    }
    crate::edit::slice_take(rest.as_slice(), rest.len() - trail)
}

/// The decimal digit for `d < 10`.
pub open spec fn digit_char(d: int) -> char {
    (48 + d) as char
}

/// The decimal text of `n` (as `format!("{}", n)`).
pub open spec fn decimal(n: nat) -> Seq<char>
    decreases n,
{
    if n < 10 {
        seq![digit_char(n as int)]
    } else {
        decimal(n / 10).push(digit_char((n % 10) as int))
    }
}

/// The decimal text of `n`.
pub fn decimal_text(n: u64) -> (r: String)
    ensures
        r@ == decimal(n as nat),
{
    let mut digits: Vec<char> = Vec::new();
    let mut m: u64 = n;
    while m >= 10
        invariant
            decimal(n as nat) == decimal(m as nat) + digits@.reverse(),
        decreases m,
    {
        let d = (m % 10) as u32;
        let c = ((48 + d) as u8) as char;
        let ghost before = digits@;
        digits.push(c);
        assert(decimal(m as nat) == decimal((m / 10) as nat).push(digit_char((m % 10) as int)));
        assert(digits@.reverse() =~= seq![c] + before.reverse());
        assert(decimal((m / 10) as nat).push(c) + before.reverse() =~= decimal((m / 10) as nat)
            + digits@.reverse());
        m = m / 10;
    }
    let c = ((48 + m as u32) as u8) as char;
    digits.push(c);
    let mut out = String::new();
    let mut i: usize = digits.len();
    while i > 0
        invariant
            i <= digits@.len(),
            out@ == digits@.subrange(i as int, digits@.len() as int).reverse(),
        decreases i,
    {
        i = i - 1;
        out.push(digits[i]);
        assert(digits@.subrange(i as int, digits@.len() as int).reverse() =~= digits@.subrange(
            i + 1,
            digits@.len() as int,
        ).reverse().push(digits@[i as int]));
    }
    assert(digits@.subrange(0, digits@.len() as int) =~= digits@);
    assert(digits@.reverse() =~= seq![c] + digits@.drop_last().reverse());
    out
}

/// An ASCII decimal digit.
pub open spec fn is_digit(c: char) -> bool {
    48 <= c as int <= 57
}

/// The number that a run of ASCII decimal digits writes.
pub open spec fn digits_value(d: Seq<char>) -> nat
    decreases d.len(),
{
    if d.len() == 0 {
        0
    } else {
        digits_value(d.drop_last()) * 10 + ((d.last() as int - 48) as nat)
    }
}

/// The digits of an unsigned integer's text as `str::parse` reads it: an
/// optional `+`, then at least one digit, and nothing else.
pub open spec fn unsigned_digits(s: Seq<char>) -> Option<Seq<char>> {
    let d = unsigned_body(s);
    if d.len() > 0 && all_digits(d) {
        Some(d)
    } else {
        None
    }
}

/// The text after an optional leading `+`.
pub open spec fn unsigned_body(s: Seq<char>) -> Seq<char> {
    if s.len() > 0 && s[0] == '+' {
        s.skip(1)
    } else {
        s
    }
}

/// Every character is an ASCII decimal digit.
pub open spec fn all_digits(d: Seq<char>) -> bool {
    forall|i: int| 0 <= i < d.len() ==> is_digit(#[trigger] d[i])
}

/// What `str::parse` gives for an unsigned integer type whose largest value
/// is `max`: the number, or none when the text is not one or it is too big.
pub open spec fn parsed_unsigned(s: Seq<char>, max: nat) -> Option<nat> {
    match unsigned_digits(s) {
        Some(d) => if digits_value(d) <= max {
            Some(digits_value(d))
        } else {
            None
        },
        None => None,
    }
}

/// Reading more digits never makes the number smaller.
proof fn lemma_digits_value_grows(d: Seq<char>, j: int, k: int)
    requires
        0 <= j <= k <= d.len(),
        forall|i: int| 0 <= i < d.len() ==> is_digit(#[trigger] d[i]),
    ensures
        digits_value(d.take(j)) <= digits_value(d.take(k)),
    decreases k - j,
{
    if j < k {
        lemma_digits_value_grows(d, j, k - 1);
        assert(d.take(k).drop_last() =~= d.take(k - 1));
        assert(d.take(k).last() == d[k - 1]);
    }
}

/// Reads an unsigned integer no greater than `max` as `str::parse` does.
pub fn parse_unsigned(s: &str, max: u64) -> (r: Option<u64>)
    ensures
        match r {
            Some(n) => parsed_unsigned(s@, max as nat) == Some(n as nat),
            None => parsed_unsigned(s@, max as nat) is None,
        },
{
    let v = chars_of(s);
    let start: usize = if v.len() > 0 && v[0] == '+' {
        1
    } else {
        0
    };
    let d = crate::edit::slice_skip(v.as_slice(), start);
    let ghost body = unsigned_body(s@);
    assert(d@ =~= body);
    if d.len() == 0 {
        return None;
    }
    let mut i: usize = 0;
    while i < d.len()
        invariant
            i <= d@.len(),
            d@ == body,
            body == unsigned_body(s@),
            forall|j: int| 0 <= j < i ==> is_digit(#[trigger] d@[j]),
        decreases d@.len() - i,
    {
        let ch: char = d[i];
        if ch < '0' || ch > '9' {
            assert(!is_digit(body[i as int]));
            assert(!all_digits(body));
            assert(unsigned_digits(s@) is None);
            return None;
        }
        assert(is_digit(d@[i as int]));
        i = i + 1;
    }
    let mut acc: u64 = 0;
    let mut k: usize = 0;
    assert(d@.take(0) =~= Seq::<char>::empty());
    while k < d.len()
        invariant
            k <= d@.len(),
            d@.len() > 0,
            d@ == body,
            body == unsigned_body(s@),
            forall|j: int| 0 <= j < d@.len() ==> is_digit(#[trigger] d@[j]),
            acc == digits_value(d@.take(k as int)),
            acc <= max,
        decreases d@.len() - k,
    {
        let digit = (d[k] as u32 - 48) as u64;
        assert(is_digit(d@[k as int]));
        assert(d@.take(k + 1).drop_last() =~= d@.take(k as int));
        assert(d@.take(k + 1).last() == d@[k as int]);
        let next: u128 = acc as u128 * 10 + digit as u128;
        if next > max as u128 {
            proof {
                assert(digits_value(d@.take(k + 1)) == next);
                lemma_digits_value_grows(d@, k + 1, d@.len() as int);
                assert(d@.take(d@.len() as int) =~= d@);
                assert(unsigned_digits(s@) == Some(d@));
                assert(digits_value(d@) > max);
            }
            return None;
        }
        acc = next as u64;
        k = k + 1;
    }
    assert(d@.take(d@.len() as int) =~= d@);
    Some(acc)
}

/// `a` comes no later than `b` in the order of `String`'s comparison:
/// character by character (UTF-8 keeps the order of the characters' code
/// points), a prefix first.
pub open spec fn lex_le(a: Seq<char>, b: Seq<char>) -> bool
    decreases a.len(),
{
    if a.len() == 0 {
        true
    } else if b.len() == 0 {
        false
    } else if (a[0] as int) < (b[0] as int) {
        true
    } else if (a[0] as int) > (b[0] as int) {
        false
    } else {
        lex_le(a.drop_first(), b.drop_first())
    }
}

/// Any two texts are ordered one way or the other.
pub proof fn lemma_lex_total(a: Seq<char>, b: Seq<char>)
    ensures
        lex_le(a, b) || lex_le(b, a),
    decreases a.len(),
{
    if a.len() > 0 && b.len() > 0 && a[0] == b[0] {
        lemma_lex_total(a.drop_first(), b.drop_first());
    }
}

/// The order is transitive.
pub proof fn lemma_lex_trans(a: Seq<char>, b: Seq<char>, c: Seq<char>)
    requires
        lex_le(a, b),
        lex_le(b, c),
    ensures
        lex_le(a, c),
    decreases a.len(),
{
    if a.len() > 0 && b.len() > 0 && c.len() > 0 && a[0] == b[0] && b[0] == c[0] {
        lemma_lex_trans(a.drop_first(), b.drop_first(), c.drop_first());
    }
}

/// Whether `a` comes no later than `b` (see `lex_le`).
pub fn lex_le_of(a: &[char], b: &[char]) -> (r: bool)
    ensures
        r == lex_le(a@, b@),
{
    let mut i: usize = 0;
    assert(a@.skip(0) =~= a@);
    assert(b@.skip(0) =~= b@);
    while i < a.len() && i < b.len() && a[i] == b[i]
        invariant
            i <= a@.len(),
            i <= b@.len(),
            lex_le(a@, b@) == lex_le(a@.skip(i as int), b@.skip(i as int)),
        decreases a@.len() - i,
    {
        assert(a@.skip(i as int).drop_first() =~= a@.skip(i + 1));
        assert(b@.skip(i as int).drop_first() =~= b@.skip(i + 1));
        assert(a@.skip(i as int)[0] == a@[i as int]);
        assert(b@.skip(i as int)[0] == b@[i as int]);
        i = i + 1;
    }
    if i == a.len() {
        return true;
    }
    if i == b.len() {
        return false;
    }
    assert(a@.skip(i as int)[0] == a@[i as int]);
    assert(b@.skip(i as int)[0] == b@[i as int]);
    a[i] < b[i]
}

/// The texts are in order.
pub open spec fn lex_sorted(v: Seq<Seq<char>>) -> bool {
    forall|i: int, j: int| 0 <= i < j < v.len() ==> lex_le(#[trigger] v[i], #[trigger] v[j])
}

/// The texts of `v` in the order of `String`'s comparison.
pub fn sort_texts(v: &Vec<String>) -> (r: Vec<String>)
    ensures
        crate::filter::views(r@).to_multiset() == crate::filter::views(v@).to_multiset(),
        lex_sorted(crate::filter::views(r@)),
{
    broadcast use vstd::seq_lib::group_to_multiset_ensures;
    let mut r: Vec<String> = Vec::new();
    let mut i: usize = 0;
    assert(v@.take(0) =~= Seq::<String>::empty());
    assert(crate::filter::views(v@.take(0)) =~= Seq::<Seq<char>>::empty());
    while i < v.len()
        invariant
            i <= v@.len(),
            crate::filter::views(r@).to_multiset() == crate::filter::views(v@.take(i as int)).to_multiset(),
            lex_sorted(crate::filter::views(r@)),
        decreases v@.len() - i,
    {
        let x = chars_of(v[i].as_str());
        let ghost rv = crate::filter::views(r@);
        let mut p: usize = 0;
        while p < r.len() && lex_le_of(chars_of(r[p].as_str()).as_slice(), x.as_slice())
            invariant
                p <= r@.len(),
                rv == crate::filter::views(r@),
                forall|k: int| 0 <= k < p ==> lex_le(#[trigger] rv[k], x@),
            decreases r@.len() - p,
        {
            p = p + 1;
        }
        proof {
            if p < r@.len() {
                assert(!lex_le(rv[p as int], x@));
                lemma_lex_total(rv[p as int], x@);
            }
        }
        let ghost xv = x@;
        r.insert(p, string_of(x.as_slice()));
        let ghost nv = crate::filter::views(r@);
        assert(nv =~= rv.insert(p as int, xv));
        assert(crate::filter::views(v@.take(i + 1)) =~= crate::filter::views(v@.take(i as int)).push(xv));
        proof {
            vstd::seq_lib::to_multiset_insert(rv, p as int, xv);
            vstd::seq_lib::to_multiset_build(crate::filter::views(v@.take(i as int)), xv);
        }
        assert forall|a: int, b: int| 0 <= a < b < nv.len() implies lex_le(#[trigger] nv[a], #[trigger] nv[b]) by {
            if b < p {
                assert(nv[a] == rv[a] && nv[b] == rv[b]);
            } else if b == p {
                assert(nv[a] == rv[a]);
            } else if a == p {
                assert(nv[b] == rv[b - 1]);
                assert(lex_le(xv, rv[p as int]));
                if b - 1 > p {
                    lemma_lex_trans(xv, rv[p as int], rv[b - 1]);
                }
            } else if a < p {
                assert(nv[a] == rv[a] && nv[b] == rv[b - 1]);
            } else {
                assert(nv[a] == rv[a - 1] && nv[b] == rv[b - 1]);
            }
        }
        i = i + 1;
    }
    assert(v@.take(v@.len() as int) =~= v@);
    r
}

} // verus!
