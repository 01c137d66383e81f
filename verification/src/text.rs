//! Character-level text utilities with their specifications: Unicode
//! whitespace, trimming, ASCII case folding, substring search and the
//! splitting of a text into lines.
use vstd::prelude::*;

verus! {

broadcast use vstd::string::group_string_axioms;

// ---------------------------------------------------------------------------
// Specifications
// ---------------------------------------------------------------------------

/// The Unicode `White_Space` property (PropList.txt), which is what
/// `char::is_whitespace` and the `trim` family of `str` go by.
pub open spec fn is_whitespace(c: char) -> bool {
    let u = c as u32;
    ||| 0x09 <= u <= 0x0D
    ||| u == 0x20
    ||| u == 0x85
    ||| u == 0xA0
    ||| u == 0x1680
    ||| 0x2000 <= u <= 0x200A
    ||| u == 0x2028
    ||| u == 0x2029
    ||| u == 0x202F
    ||| u == 0x205F
    ||| u == 0x3000
}

/// `s` without its leading whitespace.
pub open spec fn trim_start(s: Seq<char>) -> Seq<char>
    decreases s.len(),
{
    if s.len() > 0 && is_whitespace(s[0]) {
        trim_start(s.drop_first())
    } else {
        s
    }
}

/// `s` without its trailing whitespace.
pub open spec fn trim_end(s: Seq<char>) -> Seq<char>
    decreases s.len(),
{
    if s.len() > 0 && is_whitespace(s.last()) {
        trim_end(s.drop_last())
    } else {
        s
    }
}

/// `s` without leading and trailing whitespace.
pub open spec fn trim(s: Seq<char>) -> Seq<char> {
    trim_end(trim_start(s))
}

/// One character with ASCII `A`..`Z` mapped to `a`..`z`.
pub open spec fn ascii_lower(c: char) -> char {
    if 'A' <= c && c <= 'Z' {
        ((c as u32) + 32) as char
    } else {
        c
    }
}

/// `s` with every ASCII upper-case letter mapped to lower case, and every
/// other character left as it is.
pub open spec fn to_ascii_lowercase(s: Seq<char>) -> Seq<char> {
    s.map_values(|c: char| ascii_lower(c))
}

/// `needle` occurs in `hay` as a contiguous run.
pub open spec fn contains_run(hay: Seq<char>, needle: Seq<char>) -> bool {
    exists|i: int|
        0 <= i && i + needle.len() <= hay.len() && #[trigger] hay.subrange(i, i + needle.len())
            == needle
}

/// The pieces of `s` between its `'\n'` characters: one more piece than
/// there are newlines.
pub open spec fn newline_pieces(s: Seq<char>) -> Seq<Seq<char>>
    decreases s.len(),
{
    if s.len() == 0 {
        seq![Seq::empty()]
    } else {
        let p = newline_pieces(s.drop_last());
        if s.last() == '\n' {
            p.push(Seq::empty())
        } else {
            p.update(p.len() - 1, p.last().push(s.last()))
        }
    }
}

/// A line that ended in `"\r\n"` loses its `'\r'`.
pub open spec fn strip_cr(line: Seq<char>) -> Seq<char> {
    if line.len() > 0 && line.last() == '\r' {
        line.drop_last()
    } else {
        line
    }
}

/// The lines of a text as `str::lines` yields them: split at `'\n'`, a
/// `'\r'` just before the `'\n'` removed, and no empty line after a final
/// newline.
pub open spec fn text_lines(s: Seq<char>) -> Seq<Seq<char>> {
    let p = newline_pieces(s);
    let ended = p.drop_last().map_values(|l: Seq<char>| strip_cr(l));
    if p.last().len() > 0 {
        ended.push(p.last())
    } else {
        ended
    }
}

/// The character sequences held by a sequence of character vectors.
pub open spec fn line_views(v: Seq<Vec<char>>) -> Seq<Seq<char>> {
    v.map_values(|l: Vec<char>| l@)
}

pub proof fn lemma_newline_pieces_nonempty(s: Seq<char>)
    ensures
        newline_pieces(s).len() >= 1,
    decreases s.len(),
{
    if s.len() > 0 {
        lemma_newline_pieces_nonempty(s.drop_last());
    }
}

// ---------------------------------------------------------------------------
// Trusted std calls
// ---------------------------------------------------------------------------

/// `String::push`: appends one character.
#[verifier::external_body]
fn push_char(s: &mut String, c: char)
    ensures
        final(s)@ == old(s)@.push(c),
{
    s.push(c)
}

/// `String::push_str`: appends the characters of a string slice.
#[verifier::external_body]
pub(crate) fn push_str(s: &mut String, t: &str)
    ensures
        final(s)@ == old(s)@ + t@,
{
    s.push_str(t)
}

/// `m` is the length of the longest prefix of `bytes` that is well-formed
/// UTF-8.
pub open spec fn is_longest_valid_prefix(bytes: Seq<u8>, m: int) -> bool {
    &&& 0 <= m <= bytes.len()
    &&& vstd::utf8::valid_utf8(bytes.take(m))
    &&& forall|k: int| m < k <= bytes.len() ==> !vstd::utf8::valid_utf8(#[trigger] bytes.take(k))
}

/// The length of the longest well-formed UTF-8 prefix of `bytes`.
pub open spec fn longest_valid_prefix(bytes: Seq<u8>) -> int {
    choose|m: int| is_longest_valid_prefix(bytes, m)
}

/// What `Utf8Error::error_len` reports for malformed bytes: the length of
/// the invalid sequence, or nothing when the input ends in the middle of a
/// character.
pub uninterp spec fn utf8_error_len(bytes: Seq<u8>) -> Option<usize>;

/// Where and how a byte sequence stops being well-formed UTF-8, as
/// `std::str::Utf8Error` reports it.
#[derive(Debug, PartialEq, Eq)]
pub struct Utf8Failure {
    /// Length of the longest well-formed prefix.
    pub valid_up_to: usize,
    /// Length of the invalid sequence after it; `None` when the input ends
    /// in the middle of a character.
    pub error_len: Option<usize>,
}

/// `std::str::from_utf8`: succeeds exactly on well-formed UTF-8, and the
/// text then holds the characters the bytes encode. On failure its error
/// gives the longest well-formed prefix (`valid_up_to`, the largest index
/// up to which the bytes decode) and the named `utf8_error_len`, which is
/// between 1 and 3 when present.
#[verifier::external_body]
pub(crate) fn decode_utf8_text(bytes: &[u8]) -> (r: Result<&str, Utf8Failure>)
    ensures
        r is Ok <==> vstd::utf8::valid_utf8(bytes@),
        r matches Ok(s) ==> s@ == vstd::utf8::decode_utf8(bytes@),
        r matches Err(e) ==> is_longest_valid_prefix(bytes@, e.valid_up_to as int) && e.error_len
            == utf8_error_len(bytes@) && (e.error_len matches Some(n) ==> 1 <= n <= 3),
{
    std::str::from_utf8(bytes).map_err(|e| Utf8Failure {
        valid_up_to: e.valid_up_to(),
        error_len: e.error_len(),
    })
}

/// The longest valid prefix is unique.
pub proof fn lemma_longest_valid_prefix(bytes: Seq<u8>, m: int)
    requires
        is_longest_valid_prefix(bytes, m),
    ensures
        longest_valid_prefix(bytes) == m,
{
    let c = longest_valid_prefix(bytes);
    assert(is_longest_valid_prefix(bytes, c));
    if c < m {
        assert(!vstd::utf8::valid_utf8(bytes.take(m)));
    }
    if m < c {
        assert(!vstd::utf8::valid_utf8(bytes.take(c)));
    }
}

// ---------------------------------------------------------------------------
// Executable functions
// ---------------------------------------------------------------------------

/// The characters of a string slice, in order.
pub fn chars_of(s: &str) -> (r: Vec<char>)
    ensures
        r@ == s@,
{
    let mut out: Vec<char> = Vec::new();
    for c in it: s.chars()
        invariant
            it.seq() == s@,
            out@ == it.seq().take(it.index()),
    {
        out.push(c);
    }
    out
}

/// Whether two string slices hold the same characters (compared through
/// their UTF-8 encodings, which determine the characters).
pub fn str_eq(a: &str, b: &str) -> (r: bool)
    ensures
        r == (a@ == b@),
{
    let x = a.as_bytes();
    let y = b.as_bytes();
    proof {
        vstd::utf8::encode_utf8_decode_utf8(a@);
        vstd::utf8::encode_utf8_decode_utf8(b@);
    }
    if x.len() != y.len() {
        return false;
    }
    let mut i: usize = 0;
    while i < x.len()
        invariant
            x@.len() == y@.len(),
            x@ == vstd::utf8::encode_utf8(a@),
            y@ == vstd::utf8::encode_utf8(b@),
            i <= x@.len(),
            forall|j: int| 0 <= j < i ==> x@[j] == y@[j],
        decreases x@.len() - i,
    {
        if x[i] != y[i] {
            assert(x@[i as int] != y@[i as int]);
            return false;
        }
        i = i + 1;
    }
    assert(x@ =~= y@);
    true
}

/// A `String` holding exactly the given characters.
pub fn string_of(cs: &[char]) -> (r: String)
    ensures
        r@ == cs@,
{
    let mut out = String::new();
    let mut i: usize = 0;
    while i < cs.len()
        invariant
            i <= cs@.len(),
            out@ == cs@.take(i as int),
        decreases cs@.len() - i,
    {
        push_char(&mut out, cs[i]);
        assert(cs@.take(i + 1) =~= cs@.take(i as int).push(cs@[i as int]));
        i = i + 1;
    }
    assert(cs@.take(cs@.len() as int) =~= cs@);
    out
}

/// Whether a character has the Unicode `White_Space` property.
pub fn char_is_whitespace(c: char) -> (r: bool)
    ensures
        r == is_whitespace(c),
{
    let u = c as u32;
    (0x09 <= u && u <= 0x0D) || u == 0x20 || u == 0x85 || u == 0xA0 || u == 0x1680 || (0x2000
        <= u && u <= 0x200A) || u == 0x2028 || u == 0x2029 || u == 0x202F || u == 0x205F || u
        == 0x3000
}

/// Index of the first character of `s` that is not whitespace.
pub fn leading_whitespace_len(s: &[char]) -> (i: usize)
    ensures
        i <= s@.len(),
        s@.skip(i as int) == trim_start(s@),
{
    let mut i: usize = 0;
    assert(s@.skip(0) =~= s@);
    while i < s.len() && char_is_whitespace(s[i])
        invariant
            i <= s@.len(),
            trim_start(s@.skip(i as int)) == trim_start(s@),
        decreases s@.len() - i,
    {
        assert(s@.skip(i as int).drop_first() =~= s@.skip(i + 1));
        i = i + 1;
    }
    i
}

/// The characters of `s[lo..hi]` as a vector.
pub fn copy_range(s: &[char], lo: usize, hi: usize) -> (r: Vec<char>)
    requires
        lo <= hi <= s@.len(),
    ensures
        r@ == s@.subrange(lo as int, hi as int),
{
    let mut out: Vec<char> = Vec::new();
    let mut i: usize = lo;
    while i < hi
        invariant
            lo <= i <= hi <= s@.len(),
            out@ == s@.subrange(lo as int, i as int),
        decreases hi - i,
    {
        out.push(s[i]);
        assert(s@.subrange(lo as int, i + 1) =~= s@.subrange(lo as int, i as int).push(
            s@[i as int],
        ));
        i = i + 1;
    }
    out
}

/// `s` without leading and trailing whitespace.
pub fn trimmed(s: &[char]) -> (r: Vec<char>)
    ensures
        r@ == trim(s@),
{
    let lo = leading_whitespace_len(s);
    let mut hi: usize = s.len();
    assert(s@.skip(lo as int) =~= s@.subrange(lo as int, hi as int));
    while hi > lo && char_is_whitespace(s[hi - 1])
        invariant
            lo <= hi <= s@.len(),
            trim_end(s@.subrange(lo as int, hi as int)) == trim(s@),
        decreases hi,
    {
        assert(s@.subrange(lo as int, hi as int).drop_last() =~= s@.subrange(
            lo as int,
            hi - 1,
        ));
        hi = hi - 1;
    }
    copy_range(s, lo, hi)
}

/// One character with ASCII upper-case letters mapped to lower case.
pub fn char_ascii_lower(c: char) -> (r: char)
    ensures
        r == ascii_lower(c),
{
    if 'A' <= c && c <= 'Z' {
        let b = c as u8;
        ((b + 32) as char)
    } else {
        c
    }
}

/// `s` with ASCII upper-case letters mapped to lower case.
pub fn ascii_lowercase(s: &[char]) -> (r: Vec<char>)
    ensures
        r@ == to_ascii_lowercase(s@),
{
    let mut out: Vec<char> = Vec::new();
    let mut i: usize = 0;
    while i < s.len()
        invariant
            i <= s@.len(),
            out@ == to_ascii_lowercase(s@.take(i as int)),
        decreases s@.len() - i,
    {
        out.push(char_ascii_lower(s[i]));
        assert(to_ascii_lowercase(s@.take(i + 1)) =~= to_ascii_lowercase(s@.take(i as int)).push(
            ascii_lower(s@[i as int]),
        ));
        i = i + 1;
    }
    assert(s@.take(s@.len() as int) =~= s@);
    out
}

/// Whether `needle` occurs in `hay` at position `at`.
fn occurs_at(hay: &[char], needle: &[char], at: usize) -> (r: bool)
    requires
        at + needle@.len() <= hay@.len(),
    ensures
        r == (hay@.subrange(at as int, at + needle@.len()) == needle@),
{
    let n = hay.len();
    let mut k: usize = 0;
    while k < needle.len()
        invariant
            k <= needle@.len(),
            at + needle@.len() <= hay@.len(),
            n == hay@.len(),
            forall|j: int| 0 <= j < k ==> hay@[at + j] == needle@[j],
        decreases needle@.len() - k,
    {
        if hay[at + k] != needle[k] {
            assert(hay@.subrange(at as int, at + needle@.len())[k as int] != needle@[k as int]);
            return false;
        }
        k = k + 1;
    }
    assert(hay@.subrange(at as int, at + needle@.len()) =~= needle@);
    true
}

/// Whether `needle` occurs in `hay` as a contiguous run.
pub fn contains_chars(hay: &[char], needle: &[char]) -> (r: bool)
    ensures
        r == contains_run(hay@, needle@),
{
    if needle.len() > hay.len() {
        return false;
    }
    let last = hay.len() - needle.len();
    let mut at: usize = 0;
    loop
        invariant
            last + needle@.len() == hay@.len(),
            at <= last,
            forall|i: int|
                0 <= i < at ==> #[trigger] hay@.subrange(i, i + needle@.len()) != needle@,
        decreases last - at,
    {
        if occurs_at(hay, needle, at) {
            return true;
        }
        if at == last {
            return false;
        }
        at = at + 1;
    }
}

/// The lines of a text as `str::lines` yields them.
pub fn split_lines(s: &[char]) -> (r: Vec<Vec<char>>)
    ensures
        line_views(r@) == text_lines(s@),
{
    let mut lines: Vec<Vec<char>> = Vec::new();
    let mut cur: Vec<char> = Vec::new();
    let mut i: usize = 0;
    assert(s@.take(0) =~= Seq::<char>::empty());
    while i < s.len()
        invariant
            i <= s@.len(),
            line_views(lines@) == newline_pieces(s@.take(i as int)).drop_last().map_values(
                |l: Seq<char>| strip_cr(l),
            ),
            cur@ == newline_pieces(s@.take(i as int)).last(),
        decreases s@.len() - i,
    {
        let ghost prefix = s@.take(i as int);
        let ghost next = s@.take(i + 1);
        assert(next.drop_last() =~= prefix);
        assert(next.last() == s@[i as int]);
        proof {
            lemma_newline_pieces_nonempty(prefix);
        }
        let c = s[i];
        let ghost p = newline_pieces(prefix);
        let ghost old_lines = line_views(lines@);
        if c == '\n' {
            let mut done = cur;
            let n = done.len();
            if n > 0 && done[n - 1] == '\r' {
                done.pop();
            }
            assert(done@ == strip_cr(newline_pieces(prefix).last()));
            lines.push(done);
            cur = Vec::new();
            assert(line_views(lines@) =~= old_lines.push(done@));
            assert(newline_pieces(next).drop_last() =~= p);
            assert(p =~= p.drop_last().push(p.last()));
            assert(line_views(lines@) =~= newline_pieces(next).drop_last().map_values(
                |l: Seq<char>| strip_cr(l),
            ));
        } else {
            cur.push(c);
            assert(newline_pieces(next).drop_last() =~= p.drop_last());
            assert(line_views(lines@) =~= newline_pieces(next).drop_last().map_values(
                |l: Seq<char>| strip_cr(l),
            ));
        }
        i = i + 1;
    }
    assert(s@.take(s@.len() as int) =~= s@);
    let ghost old_lines = line_views(lines@);
    let ghost cur_view = cur@;
    if cur.len() > 0 {
        lines.push(cur);
        assert(line_views(lines@) =~= old_lines.push(cur_view));
        assert(line_views(lines@) =~= text_lines(s@));
    }
    lines
}

} // verus!
