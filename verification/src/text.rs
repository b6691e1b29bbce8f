//! Character-level text handling: the model of strings as `Seq<char>` and the
//! verified operations (trimming, splitting, joining, case folding, decimal
//! numbers) that the rest of the library builds on.
use vstd::prelude::*;

verus! {

broadcast use vstd::string::group_string_axioms;

// ---------------------------------------------------------------------------
// Character classes
// ---------------------------------------------------------------------------

pub open spec fn is_ascii_digit(c: char) -> bool {
    '0' <= c && c <= '9'
}

pub open spec fn is_ascii_upper(c: char) -> bool {
    'A' <= c && c <= 'Z'
}

pub open spec fn is_ascii_lower(c: char) -> bool {
    'a' <= c && c <= 'z'
}

pub open spec fn is_ascii_alphanumeric(c: char) -> bool {
    is_ascii_digit(c) || is_ascii_upper(c) || is_ascii_lower(c)
}

/// The characters that `char::is_whitespace` accepts: the Unicode
/// `White_Space` property.
pub open spec fn is_unicode_whitespace(c: char) -> bool {
    let u = c as u32;
    ||| 0x09 <= u <= 0x0D
    ||| u == 0x20
    ||| u == 0x85
    ||| u == 0xA0
    ||| u == 0x1680
    ||| 0x2000 <= u <= 0x200A
    ||| u == 0x2028
    ||| u == 0x2029
    ||| u == 0x202F
    ||| u == 0x205F
    ||| u == 0x3000
}

/// ASCII lower-casing of one character; every other character is unchanged.
pub open spec fn ascii_lower_char(c: char) -> char {
    if is_ascii_upper(c) {
        ((c as u32) + 32) as char
    } else {
        c
    }
}

pub open spec fn ascii_lowercase(s: Seq<char>) -> Seq<char> {
    s.map_values(|c: char| ascii_lower_char(c))
}

pub fn is_digit(c: char) -> (b: bool)
    ensures
        b == is_ascii_digit(c),
{
    '0' <= c && c <= '9'
}

pub fn is_alphanumeric(c: char) -> (b: bool)
    ensures
        b == is_ascii_alphanumeric(c),
{
    ('0' <= c && c <= '9') || ('A' <= c && c <= 'Z') || ('a' <= c && c <= 'z')
}

pub fn is_whitespace(c: char) -> (b: bool)
    ensures
        b == is_unicode_whitespace(c),
{
    let u = c as u32;
    (0x09 <= u && u <= 0x0D) || u == 0x20 || u == 0x85 || u == 0xA0 || u == 0x1680 || (0x2000
        <= u && u <= 0x200A) || u == 0x2028 || u == 0x2029 || u == 0x202F || u == 0x205F || u
        == 0x3000
}

pub fn lower_char(c: char) -> (r: char)
    ensures
        r == ascii_lower_char(c),
{
    if 'A' <= c && c <= 'Z' {
        let b = c as u8;
        ((b + 32) as char)
    } else {
        c
    }
}

pub fn to_ascii_lowercase(s: &[char]) -> (res: Vec<char>)
    ensures
        res@ == ascii_lowercase(s@),
{
    let mut res: Vec<char> = Vec::new();
    for i in 0..s.len()
        invariant
            res@ == ascii_lowercase(s@.take(i as int)),
    {
        res.push(lower_char(s[i]));
        assert(ascii_lowercase(s@.take(i + 1)) =~= ascii_lowercase(s@.take(i as int)).push(
            ascii_lower_char(s@[i as int]),
        ));
    }
    assert(s@.take(s.len() as int) =~= s@);
    res
}

// ---------------------------------------------------------------------------
// Conversions between strings and character vectors
// ---------------------------------------------------------------------------

/// The characters of a string slice, in order.
pub fn chars_of(s: &str) -> (res: Vec<char>)
    ensures
        res@ == s@,
{
    let mut res: Vec<char> = Vec::new();
    for c in it: s.chars()
        invariant
            res@ == it.seq().take(it.index() as int),
    {
        res.push(c);
    }
    res
}

/// Collects characters into a `String` (std's `FromIterator<&char>`); the
/// string holds exactly the given characters, in order.
#[verifier::external_body]
pub(crate) fn string_of(cs: &[char]) -> (res: String)
    ensures
        res@ == cs@,
{
    cs.iter().collect()
}

/// The views of a sequence of character vectors.
pub open spec fn char_seqs(v: Seq<Vec<char>>) -> Seq<Seq<char>> {
    v.map_values(|x: Vec<char>| x@)
}

pub fn chars_equal(a: &[char], b: &[char]) -> (res: bool)
    ensures
        res == (a@ == b@),
{
    if a.len() != b.len() {
        return false;
    }
    for i in 0..a.len()
        invariant
            a@.len() == b@.len(),
            forall|j: int| 0 <= j < i ==> a@[j] == b@[j],
    {
        if a[i] != b[i] {
            return false;
        }
    }
    assert(a@ =~= b@);
    true
}

/// Whether a string holds exactly the characters of a literal.
pub fn str_is(s: &str, lit: &str) -> (res: bool)
    ensures
        res == (s@ == lit@),
{
    let a = chars_of(s);
    let b = chars_of(lit);
    chars_equal(a.as_slice(), b.as_slice())
}

// ---------------------------------------------------------------------------
// Prefixes, trimming
// ---------------------------------------------------------------------------

pub open spec fn starts_with(s: Seq<char>, prefix: Seq<char>) -> bool {
    prefix.len() <= s.len() && s.take(prefix.len() as int) == prefix
}

pub fn has_prefix(s: &[char], prefix: &[char]) -> (res: bool)
    ensures
        res == starts_with(s@, prefix@),
{
    if prefix.len() > s.len() {
        return false;
    }
    for i in 0..prefix.len()
        invariant
            prefix@.len() <= s@.len(),
            forall|j: int| 0 <= j < i ==> s@[j] == prefix@[j],
    {
        if s[i] != prefix[i] {
            assert(s@.take(prefix@.len() as int)[i as int] != prefix@[i as int]);
            return false;
        }
    }
    assert(s@.take(prefix@.len() as int) =~= prefix@);
    true
}

/// Copy of `s[from..]`.
pub fn chars_from(s: &[char], from: usize) -> (res: Vec<char>)
    requires
        from <= s@.len(),
    ensures
        res@ == s@.skip(from as int),
{
    let mut res: Vec<char> = Vec::new();
    let mut i = from;
    while i < s.len()
        invariant
            from <= i <= s@.len(),
            res@ == s@.subrange(from as int, i as int),
        decreases s@.len() - i,
    {
        res.push(s[i]);
        i = i + 1;
        assert(res@ =~= s@.subrange(from as int, i as int));
    }
    assert(res@ =~= s@.skip(from as int));
    res
}

/// Copy of `s[from..to]`.
pub fn chars_between(s: &[char], from: usize, to: usize) -> (res: Vec<char>)
    requires
        from <= to <= s@.len(),
    ensures
        res@ == s@.subrange(from as int, to as int),
{
    let mut res: Vec<char> = Vec::new();
    let mut i = from;
    while i < to
        invariant
            from <= i <= to <= s@.len(),
            res@ == s@.subrange(from as int, i as int),
        decreases to - i,
    {
        res.push(s[i]);
        i = i + 1;
        assert(res@ =~= s@.subrange(from as int, i as int));
    }
    res
}

/// `str::strip_prefix` on characters.
pub fn strip_prefix(s: &[char], prefix: &[char]) -> (res: Option<Vec<char>>)
    ensures
        match res {
            Some(r) => starts_with(s@, prefix@) && r@ == s@.skip(prefix@.len() as int),
            None => !starts_with(s@, prefix@),
        },
{
    if has_prefix(s, prefix) {
        Some(chars_from(s, prefix.len()))
    } else {
        None
    }
}

/// Drops leading characters that satisfy `p`.
pub open spec fn trim_start_by(s: Seq<char>, p: spec_fn(char) -> bool) -> Seq<char>
    decreases s.len(),
{
    if s.len() > 0 && p(s[0]) {
        trim_start_by(s.drop_first(), p)
    } else {
        s
    }
}

/// Drops trailing characters that satisfy `p`.
pub open spec fn trim_end_by(s: Seq<char>, p: spec_fn(char) -> bool) -> Seq<char>
    decreases s.len(),
{
    if s.len() > 0 && p(s.last()) {
        trim_end_by(s.drop_last(), p)
    } else {
        s
    }
}

pub open spec fn ws() -> spec_fn(char) -> bool {
    |c: char| is_unicode_whitespace(c)
}

pub open spec fn is_char(x: char) -> spec_fn(char) -> bool {
    |c: char| c == x
}

/// `str::trim`: whitespace removed from both ends.
pub open spec fn trim(s: Seq<char>) -> Seq<char> {
    trim_end_by(trim_start_by(s, ws()), ws())
}

/// `str::trim_matches(x)`: every leading and trailing `x` removed.
pub open spec fn trim_matches(s: Seq<char>, x: char) -> Seq<char> {
    trim_end_by(trim_start_by(s, is_char(x)), is_char(x))
}

/// `str::trim_start_matches(x)`.
pub open spec fn trim_start_matches(s: Seq<char>, x: char) -> Seq<char> {
    trim_start_by(s, is_char(x))
}

/// The number of leading characters that `trim_start_by` removes.
/// `str::trim_start_matches` with a text pattern: every leading copy of
/// `p` removed.
pub open spec fn trim_start_seq(s: Seq<char>, p: Seq<char>) -> Seq<char>
    decreases s.len(),
{
    if p.len() > 0 && starts_with(s, p) {
        trim_start_seq(s.skip(p.len() as int), p)
    } else {
        s
    }
}

/// `str::trim_start_matches` with a text pattern, on characters.
pub fn trim_start_text(s: &[char], p: &[char]) -> (res: Vec<char>)
    ensures
        res@ == trim_start_seq(s@, p@),
{
    let mut rest = chars_from(s, 0);
    assert(rest@ =~= s@);
    if p.len() == 0 {
        return rest;
    }
    while has_prefix(rest.as_slice(), p)
        invariant
            p@.len() > 0,
            trim_start_seq(rest@, p@) == trim_start_seq(s@, p@),
        decreases rest@.len(),
    {
        rest = chars_from(rest.as_slice(), p.len());
    }
    rest
}

pub proof fn lemma_trim_start_is_skip(s: Seq<char>, p: spec_fn(char) -> bool, i: int)
    requires
        0 <= i <= s.len(),
        forall|j: int| 0 <= j < i ==> p(#[trigger] s[j]),
    ensures
        trim_start_by(s, p) == trim_start_by(s.skip(i), p),
    decreases i,
{
    if i > 0 {
        assert(s.skip(1) =~= s.drop_first());
        lemma_trim_start_is_skip(s.drop_first(), p, i - 1);
        assert(s.drop_first().skip(i - 1) =~= s.skip(i));
    } else {
        assert(s.skip(0) =~= s);
    }
}

pub proof fn lemma_trim_end_is_take(s: Seq<char>, p: spec_fn(char) -> bool, k: int)
    requires
        0 <= k <= s.len(),
        forall|j: int| k <= j < s.len() ==> p(#[trigger] s[j]),
    ensures
        trim_end_by(s, p) == trim_end_by(s.take(k), p),
    decreases s.len() - k,
{
    if k < s.len() {
        lemma_trim_end_is_take(s.drop_last(), p, k);
        assert(s.drop_last().take(k) =~= s.take(k));
    } else {
        assert(s.take(k) =~= s);
    }
}

/// Trimming the front of a concatenation: once the first part keeps a
/// character, the second part is untouched.
pub proof fn lemma_trim_start_append(s: Seq<char>, t: Seq<char>, p: spec_fn(char) -> bool)
    ensures
        trim_start_by(s + t, p) == (if trim_start_by(s, p).len() > 0 {
            trim_start_by(s, p) + t
        } else {
            trim_start_by(t, p)
        }),
    decreases s.len(),
{
    if s.len() == 0 {
        assert(s + t =~= t);
    } else if p(s[0]) {
        assert((s + t).drop_first() =~= s.drop_first() + t);
        lemma_trim_start_append(s.drop_first(), t, p);
    } else {
        assert((s + t)[0] == s[0]);
    }
}

/// One more `x` at the end changes nothing that `trim_matches` keeps.
pub proof fn lemma_trim_matches_trailing(s: Seq<char>, x: char)
    ensures
        trim_matches(s + seq![x], x) == trim_matches(s, x),
{
    lemma_trim_start_append(s, seq![x], is_char(x));
    let a = trim_start_by(s, is_char(x));
    if a.len() > 0 {
        assert((a + seq![x]).last() == x);
        assert((a + seq![x]).drop_last() =~= a);
    } else {
        assert(seq![x].drop_first() =~= Seq::<char>::empty());
        assert(trim_start_by(Seq::<char>::empty(), is_char(x)) == Seq::<char>::empty());
    }
}

/// One more `x` at the front changes nothing that `trim_matches` keeps.
pub proof fn lemma_trim_matches_leading(s: Seq<char>, x: char)
    ensures
        trim_matches(seq![x] + s, x) == trim_matches(s, x),
{
    let w = seq![x] + s;
    assert(w[0] == x);
    assert(w.drop_first() =~= s);
}

/// One more `x` at each end changes nothing that `trim_matches` keeps.
pub proof fn lemma_trim_matches_outer(s: Seq<char>, x: char)
    ensures
        trim_matches(seq![x] + s + seq![x], x) == trim_matches(s, x),
{
    lemma_trim_matches_trailing(seq![x] + s, x);
    lemma_trim_matches_leading(s, x);
}

/// A text that neither starts nor ends with `x` is kept whole.
pub proof fn lemma_trim_matches_none(s: Seq<char>, x: char)
    requires
        s.len() > 0,
        s[0] != x,
        s.last() != x,
    ensures
        trim_matches(s, x) == s,
{
}

/// Position of the first character that does not satisfy the predicate, and
/// one past the last; shared by the trimming functions.
proof fn lemma_trim_window(s: Seq<char>, p: spec_fn(char) -> bool, i: int, k: int)
    requires
        0 <= i <= k <= s.len(),
        forall|j: int| 0 <= j < i ==> p(#[trigger] s[j]),
        forall|j: int| k <= j < s.len() ==> p(#[trigger] s[j]),
        i == k || (!p(s[i]) && !p(s[k - 1])),
        i == k ==> k == s.len(),
    ensures
        trim_end_by(trim_start_by(s, p), p) == s.subrange(i, k),
{
    lemma_trim_start_is_skip(s, p, i);
    let t = s.skip(i);
    if i == k {
        assert(t.len() == 0);
        assert(s.subrange(i, k) =~= t);
    } else {
        assert(t[0] == s[i]);
        assert(trim_start_by(t, p) == t);
        lemma_trim_end_is_take(t, p, k - i);
        let u = t.take(k - i);
        assert(u.last() == s[k - 1]);
        assert(trim_end_by(u, p) == u);
        assert(u =~= s.subrange(i, k));
    }
}

/// `str::trim` on characters.
pub fn trim_whitespace(s: &[char]) -> (res: Vec<char>)
    ensures
        res@ == trim(s@),
{
    let mut i: usize = 0;
    while i < s.len() && is_whitespace(s[i])
        invariant
            i <= s@.len(),
            forall|j: int| 0 <= j < i ==> is_unicode_whitespace(#[trigger] s@[j]),
        decreases s@.len() - i,
    {
        i = i + 1;
    }
    let mut k: usize = s.len();
    while k > i && is_whitespace(s[k - 1])
        invariant
            i <= k <= s@.len(),
            forall|j: int| k <= j < s@.len() ==> is_unicode_whitespace(#[trigger] s@[j]),
        decreases k,
    {
        k = k - 1;
    }
    proof {
        lemma_trim_window(s@, ws(), i as int, k as int);
    }
    chars_between(s, i, k)
}

/// `str::trim_matches(x)` on characters.
pub fn trim_char(s: &[char], x: char) -> (res: Vec<char>)
    ensures
        res@ == trim_matches(s@, x),
{
    let mut i: usize = 0;
    while i < s.len() && s[i] == x
        invariant
            i <= s@.len(),
            forall|j: int| 0 <= j < i ==> #[trigger] s@[j] == x,
        decreases s@.len() - i,
    {
        i = i + 1;
    }
    let mut k: usize = s.len();
    while k > i && s[k - 1] == x
        invariant
            i <= k <= s@.len(),
            forall|j: int| k <= j < s@.len() ==> #[trigger] s@[j] == x,
        decreases k,
    {
        k = k - 1;
    }
    proof {
        lemma_trim_window(s@, is_char(x), i as int, k as int);
    }
    chars_between(s, i, k)
}

/// `str::trim_start_matches(x)` on characters.
pub fn trim_start_char(s: &[char], x: char) -> (res: Vec<char>)
    ensures
        res@ == trim_start_matches(s@, x),
{
    let mut i: usize = 0;
    while i < s.len() && s[i] == x
        invariant
            i <= s@.len(),
            forall|j: int| 0 <= j < i ==> #[trigger] s@[j] == x,
        decreases s@.len() - i,
    {
        i = i + 1;
    }
    proof {
        lemma_trim_start_is_skip(s@, is_char(x), i as int);
        if i < s@.len() {
            assert(s@.skip(i as int)[0] == s@[i as int]);
        }
    }
    chars_from(s, i)
}


// ---------------------------------------------------------------------------
// Splitting, joining, searching
// ---------------------------------------------------------------------------

/// `str::split(sep)`: the pieces between separators, empty pieces included.
pub open spec fn split_on(s: Seq<char>, sep: char) -> Seq<Seq<char>>
    decreases s.len(),
{
    if s.len() == 0 {
        seq![Seq::empty()]
    } else {
        let init = split_on(s.drop_last(), sep);
        if s.last() == sep {
            init.push(Seq::empty())
        } else {
            init.update(init.len() - 1, init.last().push(s.last()))
        }
    }
}

pub proof fn lemma_split_on_nonempty(s: Seq<char>, sep: char)
    ensures
        split_on(s, sep).len() >= 1,
    decreases s.len(),
{
    if s.len() > 0 {
        lemma_split_on_nonempty(s.drop_last(), sep);
    }
}

/// `str::split(sep)` on characters.
pub fn split_chars(s: &[char], sep: char) -> (res: Vec<Vec<char>>)
    ensures
        char_seqs(res@) == split_on(s@, sep),
{
    let mut parts: Vec<Vec<char>> = Vec::new();
    let mut cur: Vec<char> = Vec::new();
    assert(s@.take(0) =~= Seq::<char>::empty());
    assert(char_seqs(parts@).push(cur@) =~= split_on(s@.take(0), sep));
    for i in 0..s.len()
        invariant
            char_seqs(parts@).push(cur@) == split_on(s@.take(i as int), sep),
    {
        proof {
            assert(s@.take(i + 1).drop_last() =~= s@.take(i as int));
            lemma_split_on_nonempty(s@.take(i as int), sep);
        }
        let ghost before = char_seqs(parts@);
        if s[i] == sep {
            parts.push(cur);
            cur = Vec::new();
            assert(char_seqs(parts@) =~= before.push(split_on(s@.take(i as int), sep).last()));
            assert(char_seqs(parts@).push(cur@) =~= split_on(s@.take(i + 1), sep));
        } else {
            cur.push(s[i]);
            assert(char_seqs(parts@).push(cur@) =~= split_on(s@.take(i + 1), sep));
        }
    }
    parts.push(cur);
    assert(s@.take(s@.len() as int) =~= s@);
    assert(char_seqs(parts@) =~= split_on(s@, sep));
    parts
}

/// `join(sep)` of a list of strings.
pub open spec fn join(parts: Seq<Seq<char>>, sep: Seq<char>) -> Seq<char>
    decreases parts.len(),
{
    if parts.len() == 0 {
        Seq::empty()
    } else if parts.len() == 1 {
        parts[0]
    } else {
        join(parts.drop_last(), sep) + sep + parts.last()
    }
}

/// Appends `src` to `dst`.
pub fn append_chars(dst: &mut Vec<char>, src: &[char])
    ensures
        final(dst)@ == old(dst)@ + src@,
{
    for i in 0..src.len()
        invariant
            dst@ == old(dst)@ + src@.take(i as int),
    {
        dst.push(src[i]);
        assert(dst@ =~= old(dst)@ + src@.take(i + 1));
    }
    assert(src@.take(src@.len() as int) =~= src@);
}

/// `join(sep)` on character vectors.
pub fn join_chars(parts: &Vec<Vec<char>>, sep: &[char]) -> (res: Vec<char>)
    ensures
        res@ == join(char_seqs(parts@), sep@),
{
    let mut res: Vec<char> = Vec::new();
    for i in 0..parts.len()
        invariant
            res@ == join(char_seqs(parts@).take(i as int), sep@),
    {
        let ghost before = char_seqs(parts@).take(i as int);
        assert(char_seqs(parts@).take(i + 1).drop_last() =~= before);
        if i != 0 {
            append_chars(&mut res, sep);
        }
        append_chars(&mut res, parts[i].as_slice());
        if i == 0 {
            assert(res@ =~= join(char_seqs(parts@).take(1), sep@));
        }
    }
    assert(char_seqs(parts@).take(parts@.len() as int) =~= char_seqs(parts@));
    res
}

/// `str::contains(needle)`.
pub open spec fn contains_seq(hay: Seq<char>, needle: Seq<char>) -> bool {
    exists|i: int|
        0 <= i && i + needle.len() <= hay.len() && #[trigger] hay.subrange(i, i + needle.len())
            == needle
}

fn matches_at(hay: &[char], needle: &[char], i: usize) -> (res: bool)
    requires
        i + needle@.len() <= hay@.len(),
    ensures
        res == (hay@.subrange(i as int, i + needle@.len()) == needle@),
{
    for j in 0..needle.len()
        invariant
            i + needle@.len() <= hay@.len(),
            hay@.len() == hay.len(),
            forall|k: int| 0 <= k < j ==> hay@[i + k] == needle@[k],
    {
        if hay[i + j] != needle[j] {
            assert(hay@.subrange(i as int, i + needle@.len())[j as int] != needle@[j as int]);
            return false;
        }
    }
    assert(hay@.subrange(i as int, i + needle@.len()) =~= needle@);
    true
}

/// `str::contains` on characters.
pub fn contains_chars(hay: &[char], needle: &[char]) -> (res: bool)
    ensures
        res == contains_seq(hay@, needle@),
{
    if needle.len() > hay.len() {
        return false;
    }
    let last = hay.len() - needle.len();
    let mut i: usize = 0;
    loop
        invariant
            last + needle@.len() == hay@.len(),
            i <= last,
            forall|k: int|
                0 <= k < i ==> #[trigger] hay@.subrange(k, k + needle@.len()) != needle@,
        decreases last - i,
    {
        if matches_at(hay, needle, i) {
            return true;
        }
        if i == last {
            return false;
        }
        i = i + 1;
    }
}

// ---------------------------------------------------------------------------
// Decimal numbers
// ---------------------------------------------------------------------------

pub open spec fn digit_char(d: nat) -> char {
    (48 + d) as char
}

/// The decimal notation of a natural number (`u64::to_string`).
pub open spec fn decimal(n: nat) -> Seq<char>
    decreases n,
{
    if n < 10 {
        seq![digit_char(n)]
    } else {
        decimal(n / 10).push(digit_char(n % 10))
    }
}

fn digit(d: u64) -> (c: char)
    requires
        d < 10,
    ensures
        c == digit_char(d as nat),
{
    let b: u8 = 48 + d as u8;
    b as char
}

/// The decimal digits of `n`.
pub fn decimal_chars(n: u64) -> (res: Vec<char>)
    ensures
        res@ == decimal(n as nat),
    decreases n,
{
    if n < 10 {
        let mut v: Vec<char> = Vec::new();
        v.push(digit(n));
        assert(v@ =~= seq![digit_char(n as nat)]);
        v
    } else {
        let mut v = decimal_chars(n / 10);
        v.push(digit(n % 10));
        v
    }
}

pub open spec fn digit_value(c: char) -> nat {
    ((c as u32) - 48) as nat
}

pub open spec fn all_digits(s: Seq<char>) -> bool {
    forall|i: int| 0 <= i < s.len() ==> is_ascii_digit(#[trigger] s[i])
}

/// The number that a string of decimal digits denotes.
pub open spec fn digits_value(s: Seq<char>) -> nat
    decreases s.len(),
{
    if s.len() == 0 {
        0
    } else {
        digits_value(s.drop_last()) * 10 + digit_value(s.last())
    }
}

/// `str::parse::<u64>`: an optional `+`, then at least one ASCII digit, and a
/// value that fits in a `u64`.
pub open spec fn parse_u64_spec(s: Seq<char>) -> Option<u64> {
    let digits = if s.len() > 0 && s[0] == '+' {
        s.drop_first()
    } else {
        s
    };
    if digits.len() > 0 && all_digits(digits) && digits_value(digits) <= u64::MAX {
        Some(digits_value(digits) as u64)
    } else {
        None
    }
}

proof fn lemma_digits_value_monotone(s: Seq<char>, k: int)
    requires
        0 <= k <= s.len(),
        all_digits(s),
    ensures
        digits_value(s.take(k)) <= digits_value(s),
    decreases s.len() - k,
{
    if k < s.len() {
        assert(all_digits(s.drop_last()));
        lemma_digits_value_monotone(s.drop_last(), k);
        assert(s.drop_last().take(k) =~= s.take(k));
    } else {
        assert(s.take(k) =~= s);
    }
}

/// `str::parse::<u64>` on characters.
pub fn parse_u64(s: &[char]) -> (res: Option<u64>)
    ensures
        res == parse_u64_spec(s@),
{
    let start: usize = if s.len() > 0 && s[0] == '+' {
        1
    } else {
        0
    };
    let ghost digits = s@.skip(start as int);
    assert(digits =~= (if s@.len() > 0 && s@[0] == '+' {
        s@.drop_first()
    } else {
        s@
    }));
    if start == s.len() {
        assert(digits.len() == 0);
        return None;
    }
    let mut acc: u64 = 0;
    let mut i: usize = start;
    assert(digits.take(0) =~= Seq::<char>::empty());
    while i < s.len()
        invariant
            start <= i <= s@.len(),
            start < s@.len(),
            digits == s@.skip(start as int),
            parse_u64_spec(s@) == (if digits.len() > 0 && all_digits(digits) && digits_value(
                digits,
            ) <= u64::MAX {
                Some(digits_value(digits) as u64)
            } else {
                None
            }),
            all_digits(digits.take(i - start)),
            acc == digits_value(digits.take(i - start)),
        decreases s@.len() - i,
    {
        let c = s[i];
        let ghost k = i - start;
        assert(digits.take(k + 1).drop_last() =~= digits.take(k));
        assert(digits[k] == c);
        if !is_digit(c) {
            assert(!is_ascii_digit(digits[k]));
            assert(!all_digits(digits));
            return None;
        }
        let d = (c as u32 - 48) as u64;
        match acc.checked_mul(10) {
            None => {
                proof {
                    assert(all_digits(digits.take(k + 1)));
                    if all_digits(digits) {
                        lemma_digits_value_monotone(digits, k + 1);
                    }
                }
                return None;
            },
            Some(m) => match m.checked_add(d) {
                None => {
                    proof {
                        assert(all_digits(digits.take(k + 1)));
                        if all_digits(digits) {
                            lemma_digits_value_monotone(digits, k + 1);
                        }
                    }
                    return None;
                },
                Some(v) => {
                    acc = v;
                },
            },
        }
        i = i + 1;
        assert(all_digits(digits.take(i - start)));
    }
    assert(digits.take(s@.len() - start) =~= digits);
    Some(acc)
}


/// Decimal notation is made of ASCII digits, at least one.
pub proof fn lemma_decimal_digits(n: nat)
    ensures
        decimal(n).len() > 0,
        all_digits(decimal(n)),
    decreases n,
{
    if n >= 10 {
        lemma_decimal_digits(n / 10);
        assert(is_ascii_digit(digit_char(n % 10)));
        assert forall|i: int| 0 <= i < decimal(n).len() implies is_ascii_digit(
            #[trigger] decimal(n)[i],
        ) by {
            if i < decimal(n / 10).len() {
                assert(decimal(n)[i] == decimal(n / 10)[i]);
            }
        }
    } else {
        assert(is_ascii_digit(digit_char(n)));
    }
}


// ---------------------------------------------------------------------------
// Facts about splitting and joining
// ---------------------------------------------------------------------------

/// Every character of every piece satisfies `p` when every character of the
/// text does; no piece holds the separator.
pub proof fn lemma_split_pieces(s: Seq<char>, sep: char, p: spec_fn(char) -> bool)
    requires
        forall|i: int| 0 <= i < s.len() && s[i] != sep ==> p(#[trigger] s[i]),
    ensures
        split_on(s, sep).len() >= 1,
        forall|k: int, j: int|
            0 <= k < split_on(s, sep).len() && 0 <= j < split_on(s, sep)[k].len() ==> #[trigger] split_on(
                s,
                sep,
            )[k][j] != sep && p(split_on(s, sep)[k][j]),
    decreases s.len(),
{
    if s.len() > 0 {
        let init = s.drop_last();
        assert forall|i: int| 0 <= i < init.len() && init[i] != sep implies p(#[trigger] init[i]) by {
            assert(init[i] == s[i]);
        }
        lemma_split_pieces(init, sep, p);
        let r = split_on(init, sep);
        if s.last() != sep {
            let last = r.last().push(s.last());
            assert(p(s[s.len() - 1]));
            assert forall|k: int, j: int|
                0 <= k < split_on(s, sep).len() && 0 <= j < split_on(s, sep)[k].len() implies #[trigger] split_on(
                s,
                sep,
            )[k][j] != sep && p(split_on(s, sep)[k][j]) by {
                if k == r.len() - 1 {
                    if j < r.last().len() {
                        assert(split_on(s, sep)[k][j] == r[k][j]);
                    }
                } else {
                    assert(split_on(s, sep)[k] == r[k]);
                }
            }
        } else {
            assert forall|k: int, j: int|
                0 <= k < split_on(s, sep).len() && 0 <= j < split_on(s, sep)[k].len() implies #[trigger] split_on(
                s,
                sep,
            )[k][j] != sep && p(split_on(s, sep)[k][j]) by {
                assert(split_on(s, sep)[k] == r[k]);
            }
        }
    }
}

/// Appending text without the separator extends the last piece.
pub proof fn lemma_split_append(s: Seq<char>, t: Seq<char>, sep: char)
    requires
        forall|i: int| 0 <= i < t.len() ==> t[i] != sep,
    ensures
        split_on(s + t, sep) == split_on(s, sep).update(
            split_on(s, sep).len() - 1,
            split_on(s, sep).last() + t,
        ),
    decreases t.len(),
{
    lemma_split_on_nonempty(s, sep);
    if t.len() == 0 {
        assert(s + t =~= s);
        assert(split_on(s, sep).last() + t =~= split_on(s, sep).last());
        assert(split_on(s, sep).update(split_on(s, sep).len() - 1, split_on(s, sep).last())
            =~= split_on(s, sep));
    } else {
        let t0 = t.drop_last();
        lemma_split_append(s, t0, sep);
        assert((s + t).drop_last() =~= s + t0);
        assert((s + t).last() == t.last());
        lemma_split_on_nonempty(s + t0, sep);
        let r = split_on(s, sep);
        let r0 = split_on(s + t0, sep);
        assert(t.last() != sep) by {
            assert(t[t.len() - 1] != sep);
        }
        assert(r0 == r.update(r.len() - 1, r.last() + t0));
        assert(r0.len() == r.len());
        assert(r0.last() == r.last() + t0);
        assert(split_on(s + t, sep) == r0.update(r0.len() - 1, r0.last().push(t.last())));
        assert((r.last() + t0).push(t.last()) =~= r.last() + t);
        assert(split_on(s + t, sep) =~= r.update(r.len() - 1, r.last() + t));
    }
}

/// Splitting a joined list of pieces that do not hold the separator gives
/// the pieces back.
pub proof fn lemma_split_join(parts: Seq<Seq<char>>, sep: char)
    requires
        parts.len() >= 1,
        forall|k: int, j: int| 0 <= k < parts.len() && 0 <= j < parts[k].len() ==> #[trigger] parts[k][j] != sep,
    ensures
        split_on(join(parts, seq![sep]), sep) == parts,
    decreases parts.len(),
{
    if parts.len() == 1 {
        let t = parts[0];
        lemma_split_append(Seq::empty(), t, sep);
        assert(Seq::<char>::empty() + t =~= t);
        assert(split_on(Seq::<char>::empty(), sep) =~= seq![Seq::<char>::empty()]);
        assert(Seq::<char>::empty() + t =~= t);
        assert(seq![Seq::<char>::empty()].update(0, Seq::<char>::empty() + t) =~= parts);
    } else {
        let init = parts.drop_last();
        assert forall|k: int, j: int| 0 <= k < init.len() && 0 <= j < init[k].len() implies #[trigger] init[k][j] != sep by {
            assert(init[k] == parts[k]);
        }
        lemma_split_join(init, sep);
        let a = join(init, seq![sep]);
        let t = parts.last();
        assert forall|i: int| 0 <= i < t.len() implies t[i] != sep by {
            assert(parts[parts.len() - 1][i] != sep);
        }
        assert(join(parts, seq![sep]) == a + seq![sep] + t);
        lemma_split_append(a + seq![sep], t, sep);
        assert((a + seq![sep]).drop_last() =~= a);
        assert(split_on(a + seq![sep], sep) == init.push(Seq::empty()));
        assert(Seq::<char>::empty() + t =~= t);
        assert(init.push(Seq::empty()).update(init.len() as int, Seq::<char>::empty() + t) =~= parts);
    }
}

/// Every character of a joined text is a character of a piece or of the
/// separator.
pub proof fn lemma_join_chars(parts: Seq<Seq<char>>, sep: Seq<char>, p: spec_fn(char) -> bool)
    requires
        forall|k: int, j: int| 0 <= k < parts.len() && 0 <= j < parts[k].len() ==> p(#[trigger] parts[k][j]),
        forall|j: int| 0 <= j < sep.len() ==> p(#[trigger] sep[j]),
    ensures
        forall|i: int| 0 <= i < join(parts, sep).len() ==> p(#[trigger] join(parts, sep)[i]),
    decreases parts.len(),
{
    if parts.len() == 1 {
        assert forall|i: int| 0 <= i < join(parts, sep).len() implies p(#[trigger] join(parts, sep)[i]) by {
            assert(join(parts, sep)[i] == parts[0][i]);
        }
    } else if parts.len() > 1 {
        let init = parts.drop_last();
        assert forall|k: int, j: int| 0 <= k < init.len() && 0 <= j < init[k].len() implies p(#[trigger] init[k][j]) by {
            assert(init[k] == parts[k]);
        }
        lemma_join_chars(init, sep, p);
        let a = join(init, sep);
        let t = parts.last();
        assert forall|i: int| 0 <= i < join(parts, sep).len() implies p(#[trigger] join(parts, sep)[i]) by {
            let whole = a + sep + t;
            assert(join(parts, sep) == whole);
            if i < a.len() {
                assert(whole[i] == a[i]);
            } else if i < a.len() + sep.len() {
                assert(whole[i] == sep[i - a.len()]);
            } else {
                assert(whole[i] == t[i - a.len() - sep.len()]);
                assert(p(parts[parts.len() - 1][i - a.len() - sep.len()]));
            }
        }
    }
}


/// Filtering keeps a sequence whole when every element passes.
pub proof fn lemma_filter_all<A>(s: Seq<A>, pred: spec_fn(A) -> bool)
    requires
        forall|i: int| 0 <= i < s.len() ==> pred(#[trigger] s[i]),
    ensures
        s.filter(pred) == s,
    decreases s.len(),
{
    reveal(Seq::filter);
    if s.len() > 0 {
        lemma_filter_all(s.drop_last(), pred);
        assert(pred(s[s.len() - 1]));
        assert(s.drop_last().push(s.last()) =~= s);
    }
}

/// A joined text starts with the first piece and ends with the last one.
pub proof fn lemma_join_ends(parts: Seq<Seq<char>>, sep: Seq<char>)
    requires
        parts.len() >= 1,
    ensures
        join(parts, sep).len() >= parts[0].len(),
        join(parts, sep).len() >= parts.last().len(),
        forall|i: int| 0 <= i < parts[0].len() ==> #[trigger] join(parts, sep)[i] == parts[0][i],
        forall|i: int|
            0 <= i < parts.last().len() ==> #[trigger] join(parts, sep)[join(parts, sep).len()
                - parts.last().len() + i] == parts.last()[i],
    decreases parts.len(),
{
    if parts.len() > 1 {
        let init = parts.drop_last();
        lemma_join_ends(init, sep);
        let a = join(init, sep);
        let whole = a + sep + parts.last();
        assert(join(parts, sep) == whole);
        assert(init[0] == parts[0]);
        assert forall|i: int| 0 <= i < parts[0].len() implies #[trigger] join(parts, sep)[i]
            == parts[0][i] by {
            assert(whole[i] == a[i]);
        }
        assert forall|i: int| 0 <= i < parts.last().len() implies #[trigger] join(parts, sep)[join(
            parts,
            sep,
        ).len() - parts.last().len() + i] == parts.last()[i] by {
            assert(whole[whole.len() - parts.last().len() + i] == parts.last()[i]);
        }
    }
}


/// Joining non-empty pieces that do not hold the separator character never
/// puts two separators side by side.
pub proof fn lemma_join_no_double_separator(parts: Seq<Seq<char>>, c: char)
    requires
        forall|k: int| 0 <= k < parts.len() ==> #[trigger] parts[k].len() > 0,
        forall|k: int, j: int| 0 <= k < parts.len() && 0 <= j < parts[k].len() ==> #[trigger] parts[k][j] != c,
    ensures
        forall|i: int|
            0 <= i < join(parts, seq![c]).len() - 1 && #[trigger] join(parts, seq![c])[i] == c
                ==> join(parts, seq![c])[i + 1] != c,
    decreases parts.len(),
{
    if parts.len() > 1 {
        let init = parts.drop_last();
        assert forall|k: int| 0 <= k < init.len() implies #[trigger] init[k].len() > 0 by {
            assert(init[k] == parts[k]);
        }
        assert forall|k: int, j: int| 0 <= k < init.len() && 0 <= j < init[k].len() implies #[trigger] init[k][j] != c by {
            assert(init[k] == parts[k]);
        }
        lemma_join_no_double_separator(init, c);
        lemma_join_ends(init, seq![c]);
        let a = join(init, seq![c]);
        let t = parts.last();
        let w = a + seq![c] + t;
        assert(join(parts, seq![c]) == w);
        assert(init.last().len() > 0);
        assert(a[a.len() - 1] != c) by {
            let l = init.last();
            assert(a[a.len() - l.len() + (l.len() - 1)] == l[l.len() - 1]);
            assert(init[init.len() - 1][l.len() - 1] != c);
        }
        assert(t.len() > 0);
        assert(parts[parts.len() - 1][0] != c);
        assert forall|i: int| 0 <= i < w.len() - 1 && #[trigger] w[i] == c implies w[i + 1] != c by {
            if i < a.len() - 1 {
                assert(w[i] == a[i]);
                assert(w[i + 1] == a[i + 1]);
            } else if i == a.len() - 1 {
                assert(w[i] == a[i]);
            } else if i == a.len() {
                assert(w[i + 1] == t[0]);
            } else {
                assert(w[i] == t[i - a.len() - 1]);
                assert(parts[parts.len() - 1][i - a.len() - 1] != c);
            }
        }
    } else if parts.len() == 1 {
        assert forall|i: int| 0 <= i < join(parts, seq![c]).len() - 1 && #[trigger] join(parts, seq![c])[i] == c
            implies join(parts, seq![c])[i + 1] != c by {
            assert(parts[0][i] != c);
        }
    }
}

} // verus!
