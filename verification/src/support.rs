//! Shared parsing helpers: size checks, fixed-width copies and text fields.
use vstd::prelude::*;
use vstd::string::StrSliceExecFns;
use vstd::string::StringExecFns;

verus! {

/// Why a game file could not be decoded.
#[derive(Debug, Clone, PartialEq, Eq)]
pub enum ParseError {
    /// The file must have exactly `expected` bytes.
    WrongSize { file_type: &'static str, expected: usize, actual: usize },
    /// The file must be a whole number of `record_size`-byte records.
    WrongRecordMultiple { file_type: &'static str, record_size: usize, actual: usize },
}

/// Checks that `data` holds exactly `expected` bytes.
pub fn expect_size(data: &[u8], expected: usize, file_type: &'static str) -> (r: Result<
    (),
    ParseError,
>)
    ensures
        r is Ok <==> data@.len() == expected,
        r is Err ==> r == Err::<(), ParseError>(
            ParseError::WrongSize { file_type, expected, actual: data@.len() as usize },
        ),
{
    if data.len() == expected {
        Ok(())
    } else {
        Err(ParseError::WrongSize { file_type, expected, actual: data.len() })
    }
}

/// Copies a slice of exactly `N` bytes into a fixed-size array.
pub fn copy_array<const N: usize>(data: &[u8]) -> (out: [u8; N])
    requires
        data@.len() == N,
    ensures
        out@ == data@,
{
    let mut out = [0u8;N];
    let mut i: usize = 0;
    while i < N
        invariant
            i <= N,
            data@.len() == N,
            out@.len() == N,
            forall|k: int| 0 <= k < i ==> out@[k] == data@[k],
        decreases N - i,
    {
        out[i] = data[i];
        i = i + 1;
    }
    assert(out@ =~= data@);
    out
}

/// The characters that `char::is_whitespace` accepts (Unicode `White_Space`).
pub open spec fn is_unicode_whitespace(c: char) -> bool {
    let u = c as u32;
    (0x09 <= u <= 0x0D) || u == 0x20 || u == 0x85 || u == 0xA0 || u == 0x1680 || (0x2000 <= u
        <= 0x200A) || u == 0x2028 || u == 0x2029 || u == 0x202F || u == 0x205F || u == 0x3000
}

/// `char::is_whitespace`, written out over its code points.
pub fn char_is_whitespace(c: char) -> (r: bool)
    ensures
        r == is_unicode_whitespace(c),
{
    let u = c as u32;
    (0x09 <= u && u <= 0x0D) || u == 0x20 || u == 0x85 || u == 0xA0 || u == 0x1680 || (0x2000
        <= u && u <= 0x200A) || u == 0x2028 || u == 0x2029 || u == 0x202F || u == 0x205F || u
        == 0x3000
}

/// The characters that `String::from_utf8_lossy` produces for `bytes`.
pub uninterp spec fn utf8_lossy_chars(bytes: Seq<u8>) -> Seq<char>;

/// Calls `String::from_utf8_lossy`. The contract names its result; the one
/// fact stated besides is the documented one that valid UTF-8 (here: ASCII)
/// input is taken over unchanged, one character per byte.
#[verifier::external_body]
fn decode_utf8_lossy(bytes: &[u8]) -> (s: String)
    ensures
        s@ == utf8_lossy_chars(bytes@),
        (forall|i: int| 0 <= i < bytes@.len() ==> bytes@[i] < 128) ==> s@ == bytes@.map_values(
            |b: u8| b as char,
        ),
{
    String::from_utf8_lossy(bytes).into_owned()
}

/// The padding character that text fields are filled with.
pub open spec fn is_nul(c: char) -> bool {
    c == '\0'
}

/// `s.trim_matches('\0')`.
pub open spec fn trim_nuls(s: Seq<char>) -> Seq<char>
    decreases s.len(),
{
    if s.len() == 0 {
        s
    } else if is_nul(s[0]) {
        trim_nuls(s.drop_first())
    } else if is_nul(s.last()) {
        trim_nuls(s.drop_last())
    } else {
        s
    }
}

/// `s.trim()`.
pub open spec fn trim_whitespace(s: Seq<char>) -> Seq<char>
    decreases s.len(),
{
    if s.len() == 0 {
        s
    } else if is_unicode_whitespace(s[0]) {
        trim_whitespace(s.drop_first())
    } else if is_unicode_whitespace(s.last()) {
        trim_whitespace(s.drop_last())
    } else {
        s
    }
}

/// What `trim_ascii_field` returns for `bytes`.
pub open spec fn trimmed_field(bytes: Seq<u8>) -> Seq<char> {
    trim_whitespace(trim_nuls(utf8_lossy_chars(bytes)))
}

/// Bounds `lo..hi` of `s@` such that cutting them out equals `trim_nuls`.
fn nul_trim_bounds(s: &str) -> (r: (usize, usize))
    ensures
        r.0 <= r.1 <= s@.len(),
        s@.subrange(r.0 as int, r.1 as int) == trim_nuls(s@),
{
    let n = s.unicode_len();
    let ghost full = s@;
    let mut lo: usize = 0;
    let mut hi: usize = n;
    assert(full.subrange(0, n as int) =~= full);
    while lo < hi
        invariant
            lo <= hi <= n,
            n == full.len(),
            s@ == full,
            trim_nuls(full) == trim_nuls(full.subrange(lo as int, hi as int)),
        decreases hi - lo,
    {
        let ghost cur = full.subrange(lo as int, hi as int);
        let first = s.get_char(lo);
        let last = s.get_char(hi - 1);
        if first == '\0' {
            assert(cur.drop_first() =~= full.subrange(lo + 1, hi as int));
            lo = lo + 1;
        } else if last == '\0' {
            assert(cur.drop_last() =~= full.subrange(lo as int, hi - 1));
            hi = hi - 1;
        } else {
            assert(cur[0] == first && cur.last() == last);
            return (lo, hi);
        }
    }
    (lo, hi)
}

/// Bounds `lo..hi` of `s@` such that cutting them out equals `trim_whitespace`.
pub(crate) fn whitespace_trim_bounds(s: &str) -> (r: (usize, usize))
    ensures
        r.0 <= r.1 <= s@.len(),
        s@.subrange(r.0 as int, r.1 as int) == trim_whitespace(s@),
{
    let n = s.unicode_len();
    let ghost full = s@;
    let mut lo: usize = 0;
    let mut hi: usize = n;
    assert(full.subrange(0, n as int) =~= full);
    while lo < hi
        invariant
            lo <= hi <= n,
            n == full.len(),
            s@ == full,
            trim_whitespace(full) == trim_whitespace(full.subrange(lo as int, hi as int)),
        decreases hi - lo,
    {
        let ghost cur = full.subrange(lo as int, hi as int);
        let first = s.get_char(lo);
        let last = s.get_char(hi - 1);
        if char_is_whitespace(first) {
            assert(cur.drop_first() =~= full.subrange(lo + 1, hi as int));
            lo = lo + 1;
        } else if char_is_whitespace(last) {
            assert(cur.drop_last() =~= full.subrange(lo as int, hi - 1));
            hi = hi - 1;
        } else {
            assert(cur[0] == first && cur.last() == last);
            return (lo, hi);
        }
    }
    (lo, hi)
}

/// Strips `\0` padding, then surrounding whitespace, from decoded text.
pub fn trim_field_text(text: &str) -> (out: String)
    ensures
        out@ == trim_whitespace(trim_nuls(text@)),
{
    let (lo, hi) = nul_trim_bounds(text);
    let inner = text.substring_char(lo, hi);
    let (lo2, hi2) = whitespace_trim_bounds(inner);
    String::from_str(inner.substring_char(lo2, hi2))
}

/// Strips `\0` padding, then surrounding whitespace, from a text field.
pub fn trim_ascii_field(bytes: &[u8]) -> (out: String)
    ensures
        out@ == trimmed_field(bytes@),
{
    let text = decode_utf8_lossy(bytes);
    trim_field_text(text.as_str())
}

} // verus!
