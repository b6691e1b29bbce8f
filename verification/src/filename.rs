//! File names for downloads: reading them out of a `Content-Disposition`
//! header (including RFC 5987 `filename*=` values with percent escapes) and
//! making them safe to use as the name of a local file.
use vstd::prelude::*;
use vstd::utf8::{
    decode_utf8, encode_scalar, encode_utf8, encode_utf8_decode_utf8, encode_utf8_valid_utf8,
    has_width_1_encoding, has_width_2_encoding, has_width_3_encoding, valid_utf8,
};

use crate::text::{
    is_ascii_alphanumeric, is_alphanumeric,
    char_seqs, chars_from, chars_of, split_chars, split_on, starts_with,
    strip_prefix, string_of, trim, trim_char, trim_matches, trim_whitespace,
};

verus! {

broadcast use vstd::string::group_string_axioms;

// ---------------------------------------------------------------------------
// Percent decoding
// ---------------------------------------------------------------------------

pub open spec fn is_hex_byte(b: u8) -> bool {
    (48 <= b && b <= 57) || (65 <= b && b <= 70) || (97 <= b && b <= 102)
}

pub open spec fn hex_byte_value(b: u8) -> u8 {
    if b <= 57 {
        (b - 48) as u8
    } else if b <= 70 {
        (b - 55) as u8
    } else {
        (b - 87) as u8
    }
}

/// The byte that the two bytes after a `%` stand for: what
/// `u8::from_str_radix(pair, 16)` gives for them, which accepts two hex
/// digits, or a `+` sign followed by one hex digit.
pub open spec fn escape_value(high: u8, low: u8) -> Option<u8> {
    if is_hex_byte(high) && is_hex_byte(low) {
        Some((hex_byte_value(high) * 16 + hex_byte_value(low)) as u8)
    } else if high == 43 && is_hex_byte(low) {
        Some(hex_byte_value(low))
    } else {
        None
    }
}

pub open spec fn prepend(prefix: Seq<u8>, rest: Option<Seq<u8>>) -> Option<Seq<u8>> {
    match rest {
        Some(r) => Some(prefix + r),
        None => None,
    }
}

/// Percent decoding of a byte string: each `%` and the two bytes after it
/// become one byte; a `%` without two valid bytes after it fails.
pub open spec fn percent_decode_bytes(b: Seq<u8>) -> Option<Seq<u8>>
    decreases b.len(),
{
    if b.len() == 0 {
        Some(Seq::empty())
    } else if b[0] == 37 {
        if b.len() < 3 {
            None
        } else {
            match escape_value(b[1], b[2]) {
                Some(v) => prepend(seq![v], percent_decode_bytes(b.skip(3))),
                None => None,
            }
        }
    } else {
        prepend(seq![b[0]], percent_decode_bytes(b.skip(1)))
    }
}

/// What `percent_decode` gives for a string: its UTF-8 bytes percent-decoded,
/// read back as UTF-8.
pub open spec fn percent_decode_spec(s: Seq<char>) -> Option<Seq<char>> {
    match percent_decode_bytes(encode_utf8(s)) {
        Some(d) => if valid_utf8(d) {
            Some(decode_utf8(d))
        } else {
            None
        },
        None => None,
    }
}

fn is_hex(b: u8) -> (r: bool)
    ensures
        r == is_hex_byte(b),
{
    (48 <= b && b <= 57) || (65 <= b && b <= 70) || (97 <= b && b <= 102)
}

fn hex_value(b: u8) -> (r: u8)
    requires
        is_hex_byte(b),
    ensures
        r == hex_byte_value(b),
        r < 16,
{
    if b <= 57 {
        b - 48
    } else if b <= 70 {
        b - 55
    } else {
        b - 87
    }
}

fn decode_escape(high: u8, low: u8) -> (r: Option<u8>)
    ensures
        r == escape_value(high, low),
{
    if is_hex(high) && is_hex(low) {
        let h = hex_value(high);
        let l = hex_value(low);
        Some(h * 16 + l)
    } else if high == 43 && is_hex(low) {
        Some(hex_value(low))
    } else {
        None
    }
}

/// `String::from_utf8`: succeeds exactly on valid UTF-8, with the characters
/// that the bytes encode.
#[verifier::external_body]
fn string_from_utf8(bytes: Vec<u8>) -> (res: Option<String>)
    ensures
        res is Some <==> valid_utf8(bytes@),
        res matches Some(s) ==> s@ == decode_utf8(bytes@),
{
    String::from_utf8(bytes).ok()
}

/// Decodes `%XX` escapes in a string; `None` where an escape is cut short or
/// malformed, or where the decoded bytes are not UTF-8.
pub fn percent_decode(value: &str) -> (res: Option<String>)
    ensures
        match res {
            Some(s) => percent_decode_spec(value@) == Some(s@),
            None => percent_decode_spec(value@) is None,
        },
{
    let bytes = value.as_bytes();
    let ghost b = bytes@;
    assert(b == encode_utf8(value@));
    let mut decoded: Vec<u8> = Vec::new();
    let mut i: usize = 0;
    assert(b.skip(0) =~= b);
    assert(prepend(decoded@, percent_decode_bytes(b.skip(0))) =~= percent_decode_bytes(b)) by {
        match percent_decode_bytes(b) {
            Some(r) => assert(decoded@ + r =~= r),
            None => {},
        }
    }
    while i < bytes.len()
        invariant
            i <= b.len(),
            b == bytes@,
            b == encode_utf8(value@),
            percent_decode_bytes(b) == prepend(decoded@, percent_decode_bytes(b.skip(i as int))),
        decreases b.len() - i,
    {
        let byte = bytes[i];
        let ghost t = b.skip(i as int);
        assert(t[0] == byte);
        if byte == 37 {
            if bytes.len() - i < 3 {
                assert(percent_decode_bytes(t) is None);
                return None;
            }
            let high = bytes[i + 1];
            let low = bytes[i + 2];
            assert(t[1] == high && t[2] == low);
            match decode_escape(high, low) {
                Some(v) => {
                    proof {
                        assert(t.skip(3) =~= b.skip(i + 3));
                        match percent_decode_bytes(b.skip(i + 3)) {
                            Some(r) => {
                                assert(decoded@ + (seq![v] + r) =~= decoded@.push(v) + r);
                            },
                            None => {},
                        }
                    }
                    decoded.push(v);
                    i = i + 3;
                },
                None => {
                    assert(percent_decode_bytes(t) is None);
                    return None;
                },
            }
        } else {
            proof {
                assert(t.skip(1) =~= b.skip(i + 1));
                match percent_decode_bytes(b.skip(i + 1)) {
                    Some(r) => {
                        assert(decoded@ + (seq![byte] + r) =~= decoded@.push(byte) + r);
                    },
                    None => {},
                }
            }
            decoded.push(byte);
            i = i + 1;
        }
    }
    assert(b.skip(i as int).len() == 0);
    assert(decoded@ + Seq::<u8>::empty() =~= decoded@);
    string_from_utf8(decoded)
}

// ---------------------------------------------------------------------------
// RFC 5987 values and Content-Disposition
// ---------------------------------------------------------------------------

/// The text after the first `''` (`str::split_once("''")`), if there is one.
pub open spec fn after_first_quote_pair(s: Seq<char>) -> Option<Seq<char>>
    decreases s.len(),
{
    if s.len() < 2 {
        None
    } else if s[0] == '\'' && s[1] == '\'' {
        Some(s.skip(2))
    } else {
        after_first_quote_pair(s.drop_first())
    }
}

/// The decoded value of a `filename*=` parameter: surrounding quotes
/// removed, the `charset'language'` part dropped, then percent-decoded.
pub open spec fn rfc5987_spec(value: Seq<char>) -> Option<Seq<char>> {
    let trimmed = trim_matches(value, '"');
    let encoded = match after_first_quote_pair(trimmed) {
        Some(rest) => rest,
        None => trimmed,
    };
    percent_decode_spec(encoded)
}

fn skip_language_tag(s: &[char]) -> (res: Vec<char>)
    ensures
        res@ == match after_first_quote_pair(s@) {
            Some(rest) => rest,
            None => s@,
        },
{
    let mut i: usize = 0;
    assert(s@.skip(0) =~= s@);
    while s.len() - i >= 2
        invariant
            i <= s@.len(),
            after_first_quote_pair(s@) == after_first_quote_pair(s@.skip(i as int)),
        decreases s@.len() - i,
    {
        let ghost t = s@.skip(i as int);
        if s[i] == '\'' && s[i + 1] == '\'' {
            assert(t.skip(2) =~= s@.skip(i + 2));
            return chars_from(s, i + 2);
        }
        assert(t.drop_first() =~= s@.skip(i + 1));
        i = i + 1;
    }
    assert(s@.skip(i as int).len() < 2);
    chars_from(s, 0)
}

fn decode_rfc5987_chars(value: &[char]) -> (res: Option<Vec<char>>)
    ensures
        match res {
            Some(r) => rfc5987_spec(value@) == Some(r@),
            None => rfc5987_spec(value@) is None,
        },
{
    let trimmed = trim_char(value, '"');
    let encoded = skip_language_tag(trimmed.as_slice());
    let text = string_of(encoded.as_slice());
    match percent_decode(text.as_str()) {
        Some(s) => Some(chars_of(s.as_str())),
        None => None,
    }
}

/// Decodes an RFC 5987 extended parameter value such as
/// `UTF-8''report%20Q1.pdf`.
pub fn decode_rfc5987_filename(value: &str) -> (res: Option<String>)
    ensures
        match res {
            Some(s) => rfc5987_spec(value@) == Some(s@),
            None => rfc5987_spec(value@) is None,
        },
{
    let chars = chars_of(value);
    match decode_rfc5987_chars(chars.as_slice()) {
        Some(r) => Some(string_of(r.as_slice())),
        None => None,
    }
}

/// The first `Some` that `f` gives along `s`.
pub open spec fn first_some(s: Seq<Seq<char>>, f: spec_fn(Seq<char>) -> Option<Seq<char>>) -> Option<
    Seq<char>,
>
    decreases s.len(),
{
    if s.len() == 0 {
        None
    } else {
        match first_some(s.drop_last(), f) {
            Some(x) => Some(x),
            None => f(s.last()),
        }
    }
}

pub open spec fn nonempty(v: Option<Seq<char>>) -> Option<Seq<char>> {
    match v {
        Some(x) => if x.len() > 0 {
            Some(x)
        } else {
            None
        },
        None => None,
    }
}

/// The decoded, non-empty value of a `filename*=` parameter.
pub open spec fn extended_filename(part: Seq<char>) -> Option<Seq<char>> {
    let t = trim(part);
    if starts_with(t, "filename*="@) {
        nonempty(rfc5987_spec(t.skip(10)))
    } else {
        None
    }
}

/// The unquoted, non-empty value of a plain `filename=` parameter.
pub open spec fn plain_filename(part: Seq<char>) -> Option<Seq<char>> {
    let t = trim(part);
    if starts_with(t, "filename*="@) {
        None
    } else if starts_with(t, "filename="@) {
        nonempty(Some(trim_matches(t.skip(9), '"')))
    } else {
        None
    }
}

pub open spec fn extended_filename_fn() -> spec_fn(Seq<char>) -> Option<Seq<char>> {
    |p: Seq<char>| extended_filename(p)
}

pub open spec fn plain_filename_fn() -> spec_fn(Seq<char>) -> Option<Seq<char>> {
    |p: Seq<char>| plain_filename(p)
}

/// The file name that a `Content-Disposition` header names: the first
/// usable `filename*=` value if there is one, else the first usable
/// `filename=` value.
pub open spec fn content_disposition_filename(header: Seq<char>) -> Option<Seq<char>> {
    let parts = split_on(header, ';');
    match first_some(parts, extended_filename_fn()) {
        Some(name) => Some(name),
        None => first_some(parts, plain_filename_fn()),
    }
}

pub fn extract_download_filename(content_disposition: &str) -> (res: Option<String>)
    ensures
        match res {
            Some(s) => content_disposition_filename(content_disposition@) == Some(s@),
            None => content_disposition_filename(content_disposition@) is None,
        },
{
    let header = chars_of(content_disposition);
    let parts = split_chars(header.as_slice(), ';');
    let ghost ps = char_seqs(parts@);
    let ghost ext = extended_filename_fn();
    let ghost pl = plain_filename_fn();
    let star_prefix = chars_of("filename*=");
    let plain_prefix = chars_of("filename=");
    proof {
        reveal_strlit("filename*=");
        reveal_strlit("filename=");
    }
    let mut fallback: Option<Vec<char>> = None;
    for i in 0..parts.len()
        invariant
            ps == char_seqs(parts@),
            ps == split_on(header@, ';'),
            header@ == content_disposition@,
            star_prefix@ == "filename*="@,
            plain_prefix@ == "filename="@,
            star_prefix@.len() == 10,
            plain_prefix@.len() == 9,
            ext == extended_filename_fn(),
            pl == plain_filename_fn(),
            first_some(ps.take(i as int), ext) is None,
            match fallback {
                Some(f) => first_some(ps.take(i as int), pl) == Some(f@),
                None => first_some(ps.take(i as int), pl) is None,
            },
    {
        assert(ps.take(i + 1).drop_last() =~= ps.take(i as int));
        assert(ps.take(i + 1).last() == parts@[i as int]@);
        let trimmed = trim_whitespace(parts[i].as_slice());
        match strip_prefix(trimmed.as_slice(), star_prefix.as_slice()) {
            Some(value) => {
                match decode_rfc5987_chars(value.as_slice()) {
                    Some(decoded) => {
                        if decoded.len() > 0 {
                            assert(first_some(ps.take(i + 1), ext) == Some(decoded@));
                            assert(first_some(ps, ext) == Some(decoded@)) by {
                                lemma_first_some_prefix(ps, ext, i + 1);
                            }
                            return Some(string_of(decoded.as_slice()));
                        }
                    },
                    None => {},
                }
            },
            None => {
                if fallback.is_none() {
                    fallback = match strip_prefix(trimmed.as_slice(), plain_prefix.as_slice()) {
                        Some(value) => {
                            let unquoted = trim_char(value.as_slice(), '"');
                            if unquoted.len() > 0 {
                                Some(unquoted)
                            } else {
                                None
                            }
                        },
                        None => None,
                    };
                }
            },
        }
    }
    assert(ps.take(parts@.len() as int) =~= ps);
    match fallback {
        Some(f) => Some(string_of(f.as_slice())),
        None => None,
    }
}

/// A `Some` found on a prefix stays the first `Some` of the whole sequence.
pub proof fn lemma_first_some_prefix(
    s: Seq<Seq<char>>,
    f: spec_fn(Seq<char>) -> Option<Seq<char>>,
    k: int,
)
    requires
        0 <= k <= s.len(),
        first_some(s.take(k), f) is Some,
    ensures
        first_some(s, f) == first_some(s.take(k), f),
    decreases s.len() - k,
{
    if k < s.len() {
        assert(s.drop_last().take(k) =~= s.take(k));
        lemma_first_some_prefix(s.drop_last(), f, k);
    } else {
        assert(s.take(k) =~= s);
    }
}


// ---------------------------------------------------------------------------
// Safe local file names
// ---------------------------------------------------------------------------

pub open spec fn is_safe_filename_char(c: char) -> bool {
    is_ascii_alphanumeric(c) || c == '.' || c == '-' || c == '_'
}

/// Each character of a sanitized name: kept when safe, else `_`.
pub open spec fn safe_char(c: char) -> char {
    if is_safe_filename_char(c) {
        c
    } else {
        '_'
    }
}

/// A component of a Unix path as `Path::components` yields it: empty pieces
/// (repeated or trailing `/`) and `.` are not components.
pub open spec fn is_path_component(piece: Seq<char>) -> bool {
    piece.len() > 0 && piece != "."@
}

pub open spec fn path_component_fn() -> spec_fn(Seq<char>) -> bool {
    |piece: Seq<char>| is_path_component(piece)
}

/// `Path::file_name` on a Unix path: the last component, unless there is
/// none or it is `..`.
pub open spec fn path_file_name_spec(path: Seq<char>) -> Option<Seq<char>> {
    let components = split_on(path, '/').filter(path_component_fn());
    if components.len() == 0 || components.last() == ".."@ {
        None
    } else {
        Some(components.last())
    }
}

/// The name that `sanitize_filename` gives: the file-name part of the input
/// (or `download.bin` when it has none) with every unsafe character replaced
/// by `_`.
pub open spec fn sanitize_filename_spec(name: Seq<char>) -> Seq<char> {
    let leaf = match path_file_name_spec(name) {
        Some(l) => l,
        None => "download.bin"@,
    };
    let mapped = leaf.map_values(|c: char| safe_char(c));
    if mapped.len() == 0 {
        "download.bin"@
    } else {
        mapped
    }
}

/// `Path::new(path).file_name()` read back as a string. On Unix the path's
/// components are the pieces between `/` separators, with empty pieces and
/// `.` left out; the file name is the last component unless there is none or
/// it is `..`. A name cut from a `str` at `/` is always valid UTF-8, so
/// `to_str` does not fail. The contract states these Unix path rules; on
/// Windows, where `\` also separates and paths may carry a prefix, it does
/// not hold, and the library is meant for Unix-like systems.
#[verifier::external_body]
fn path_file_name(path: &str) -> (res: Option<String>)
    ensures
        match res {
            Some(s) => path_file_name_spec(path@) == Some(s@),
            None => path_file_name_spec(path@) is None,
        },
{
    std::path::Path::new(path).file_name().and_then(|name| name.to_str()).map(
        |name| name.to_string(),
    )
}

fn sanitize_char(c: char) -> (r: char)
    ensures
        r == safe_char(c),
{
    if is_alphanumeric(c) || c == '.' || c == '-' || c == '_' {
        c
    } else {
        '_'
    }
}

proof fn lemma_download_bin_safe()
    ensures
        "download.bin"@.len() == 12,
        forall|i: int| 0 <= i < 12 ==> is_safe_filename_char(#[trigger] "download.bin"@[i]),
{
    reveal_strlit("download.bin");
}

/// Turns a name from a server into a safe local file name: only its last
/// path component is kept, and every character other than ASCII letters,
/// digits, `.`, `-` and `_` becomes `_`. The result is never empty.
pub fn sanitize_filename(name: &str) -> (res: String)
    ensures
        res@ == sanitize_filename_spec(name@),
        res@.len() > 0,
        forall|i: int| 0 <= i < res@.len() ==> is_safe_filename_char(#[trigger] res@[i]),
{
    proof {
        lemma_download_bin_safe();
    }
    let leaf: Vec<char> = match path_file_name(name) {
        Some(l) => chars_of(l.as_str()),
        None => chars_of("download.bin"),
    };
    let mut out: Vec<char> = Vec::new();
    for i in 0..leaf.len()
        invariant
            out@ == leaf@.take(i as int).map_values(|c: char| safe_char(c)),
    {
        out.push(sanitize_char(leaf[i]));
        assert(out@ =~= leaf@.take(i + 1).map_values(|c: char| safe_char(c)));
    }
    assert(leaf@.take(leaf@.len() as int) =~= leaf@);
    if out.len() == 0 {
        let fallback = chars_of("download.bin");
        return string_of(fallback.as_slice());
    }
    string_of(out.as_slice())
}

proof fn lemma_split_without_separator(s: Seq<char>, sep: char)
    requires
        forall|i: int| 0 <= i < s.len() ==> s[i] != sep,
    ensures
        split_on(s, sep) == seq![s],
    decreases s.len(),
{
    if s.len() > 0 {
        lemma_split_without_separator(s.drop_last(), sep);
        assert(s.drop_last().push(s.last()) =~= s);
        assert(split_on(s, sep) =~= seq![s]);
    } else {
        assert(s =~= Seq::<char>::empty());
        assert(split_on(s, sep) =~= seq![s]);
    }
}

/// A sanitized name is one non-empty path component of safe characters,
/// other than `.` and `..`.
pub proof fn lemma_sanitized_name_is_component(name: Seq<char>)
    ensures
        sanitize_filename_spec(name).len() > 0,
        forall|i: int|
            0 <= i < sanitize_filename_spec(name).len() ==> is_safe_filename_char(
                #[trigger] sanitize_filename_spec(name)[i],
            ),
        sanitize_filename_spec(name) != "."@,
        sanitize_filename_spec(name) != ".."@,
{
    reveal_strlit("download.bin");
    reveal_strlit(".");
    reveal_strlit("..");
    let x = sanitize_filename_spec(name);
    let leaf = match path_file_name_spec(name) {
        Some(l) => l,
        None => "download.bin"@,
    };
    let mapped = leaf.map_values(|c: char| safe_char(c));
    assert(forall|i: int| 0 <= i < x.len() ==> is_safe_filename_char(#[trigger] x[i]));
    // A file name is a path component other than `..`, so neither `.` nor
    // `..`; a mapped character is `.` only where the original one was.
    let components = split_on(name, '/').filter(path_component_fn());
    if path_file_name_spec(name) is Some {
        broadcast use vstd::seq_lib::group_filter_ensures;

        assert(is_path_component(components[components.len() - 1]));
    }
    assert(x != "."@) by {
        if x == "."@ && mapped.len() != 0 {
            assert(mapped[0] == '.');
            assert(leaf =~= "."@);
        }
    }
    assert(x != ".."@) by {
        if x == ".."@ && mapped.len() != 0 {
            assert(mapped[0] == '.' && mapped[1] == '.');
            assert(leaf =~= ".."@);
        }
    }
}

/// Law: sanitizing is idempotent; a name that `sanitize_filename` produced
/// comes back unchanged.
pub proof fn law_sanitize_filename_idempotent(name: Seq<char>)
    ensures
        sanitize_filename_spec(sanitize_filename_spec(name)) == sanitize_filename_spec(name),
{
    let x = sanitize_filename_spec(name);
    lemma_sanitized_name_is_component(name);
    assert forall|i: int| 0 <= i < x.len() implies x[i] != '/' by {
        assert(is_safe_filename_char(x[i]));
    }
    lemma_split_without_separator(x, '/');
    reveal_with_fuel(Seq::<_>::filter, 2);
    assert(seq![x].drop_last() =~= Seq::<Seq<char>>::empty());
    assert(path_component_fn()(x));
    assert(split_on(x, '/').filter(path_component_fn()) =~= seq![x]);
    assert(path_file_name_spec(x) == Some(x));
    assert(x.map_values(|c: char| safe_char(c)) =~= x);
}

// ---------------------------------------------------------------------------
// Percent decoding leaves text without escapes unchanged
// ---------------------------------------------------------------------------

proof fn lemma_scalar_has_no_percent_byte(v: u32)
    requires
        v != 37,
        v <= 0x10FFFF,
    ensures
        forall|i: int| 0 <= i < encode_scalar(v).len() ==> #[trigger] encode_scalar(v)[i] != 37,
{
    if has_width_1_encoding(v) {
        assert((v & 0x7F) as u8 != 37) by (bit_vector)
            requires
                v <= 0x7F && v != 37,
        ;
    } else if has_width_2_encoding(v) {
        assert(0xC0u8 | ((v >> 6) & 0x1F) as u8 != 37) by (bit_vector);
        assert(0x80u8 | (v & 0x3F) as u8 != 37) by (bit_vector);
    } else if has_width_3_encoding(v) {
        assert(0xE0u8 | ((v >> 12) & 0x0F) as u8 != 37) by (bit_vector);
        assert(0x80u8 | ((v >> 6) & 0x3F) as u8 != 37) by (bit_vector);
        assert(0x80u8 | (v & 0x3F) as u8 != 37) by (bit_vector);
    } else {
        assert(0xF0u8 | ((v >> 18) & 0x7) as u8 != 37) by (bit_vector);
        assert(0x80u8 | ((v >> 12) & 0x3F) as u8 != 37) by (bit_vector);
        assert(0x80u8 | ((v >> 6) & 0x3F) as u8 != 37) by (bit_vector);
        assert(0x80u8 | (v & 0x3F) as u8 != 37) by (bit_vector);
    }
}

proof fn lemma_encoding_has_no_percent_byte(s: Seq<char>)
    requires
        !s.contains('%'),
    ensures
        forall|i: int| 0 <= i < encode_utf8(s).len() ==> #[trigger] encode_utf8(s)[i] != 37,
    decreases s.len(),
{
    if s.len() > 0 {
        let rest = s.drop_first();
        assert(!rest.contains('%')) by {
            if rest.contains('%') {
                let j = choose|j: int| 0 <= j < rest.len() && rest[j] == '%';
                assert(s[j + 1] == '%');
            }
        }
        lemma_encoding_has_no_percent_byte(rest);
        assert(s[0] != '%');
        assert(('%' as u32) == 37);
        vstd::utf8::char_u32_cast(s[0], s[0] as u32);
        vstd::utf8::char_u32_cast('%', 37);
        vstd::utf8::char_is_scalar(s[0]);
        lemma_scalar_has_no_percent_byte(s[0] as u32);
        let head = encode_scalar(s[0] as u32);
        assert forall|i: int| 0 <= i < encode_utf8(s).len() implies #[trigger] encode_utf8(s)[i]
            != 37 by {
            if i < head.len() {
                assert(encode_utf8(s)[i] == head[i]);
            } else {
                assert(encode_utf8(s)[i] == encode_utf8(rest)[i - head.len()]);
            }
        }
    }
}

proof fn lemma_percent_decode_bytes_identity(b: Seq<u8>)
    requires
        forall|i: int| 0 <= i < b.len() ==> #[trigger] b[i] != 37,
    ensures
        percent_decode_bytes(b) == Some(b),
    decreases b.len(),
{
    if b.len() > 0 {
        let rest = b.skip(1);
        assert forall|i: int| 0 <= i < rest.len() implies #[trigger] rest[i] != 37 by {
            assert(rest[i] == b[i + 1]);
        }
        lemma_percent_decode_bytes_identity(rest);
        assert(b[0] != 37);
        assert(seq![b[0]] + rest =~= b);
    }
}

/// Law: text with no `%` in it percent-decodes to itself.
pub proof fn law_percent_decode_plain_text(s: Seq<char>)
    requires
        !s.contains('%'),
    ensures
        percent_decode_spec(s) == Some(s),
{
    lemma_encoding_has_no_percent_byte(s);
    lemma_percent_decode_bytes_identity(encode_utf8(s));
    encode_utf8_valid_utf8(s);
    encode_utf8_decode_utf8(s);
}

} // verus!
