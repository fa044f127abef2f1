use vstd::prelude::*;
use vstd::utf8::*;

verus! {

broadcast use vstd::utf8::group_utf8_lib;

/// The UTF-8 bytes of a character sequence: the unit in which the editor
/// counts columns.
pub open spec fn utf8(s: Seq<char>) -> Seq<u8> {
    encode_utf8(s)
}

/// The characters that a valid UTF-8 byte sequence encodes.
pub open spec fn chars_of(b: Seq<u8>) -> Seq<char> {
    decode_utf8(b)
}

/// Encoding distributes over concatenation.
pub proof fn lemma_utf8_concat(a: Seq<char>, b: Seq<char>)
    ensures
        utf8(a + b) == utf8(a) + utf8(b),
    decreases a.len(),
{
    if a.len() == 0 {
        assert(a + b =~= b);
        assert(utf8(a) =~= Seq::<u8>::empty());
        assert(utf8(a) + utf8(b) =~= utf8(b));
    } else {
        lemma_utf8_concat(a.drop_first(), b);
        assert((a + b).drop_first() =~= a.drop_first() + b);
        assert((a + b)[0] == a[0]);
        assert(utf8(a) + utf8(b) =~= encode_scalar(a[0] as u32) + (utf8(a.drop_first()) + utf8(
            b,
        )));
    }
}

/// Two character sequences with the same encoding are equal.
pub proof fn lemma_utf8_injective(a: Seq<char>, b: Seq<char>)
    requires
        utf8(a) == utf8(b),
    ensures
        a == b,
{
    encode_utf8_decode_utf8(a);
    encode_utf8_decode_utf8(b);
}

/// Only the empty text has an empty encoding.
pub proof fn lemma_utf8_empty(a: Seq<char>)
    ensures
        (utf8(a).len() == 0) == (a.len() == 0),
{
    if a.len() > 0 {
        assert(encode_scalar(a[0] as u32).len() >= 1);
        assert(utf8(a) == encode_scalar(a[0] as u32) + utf8(a.drop_first()));
    }
}

/// Every encoding is valid UTF-8 and has boundaries at its start and its end.
pub proof fn lemma_utf8_valid(a: Seq<char>)
    ensures
        valid_utf8(utf8(a)),
        is_char_boundary(utf8(a), 0),
        is_char_boundary(utf8(a), utf8(a).len() as int),
        chars_of(utf8(a)) == a,
{
    encode_utf8_valid_utf8(a);
    is_char_boundary_start_end_of_seq(utf8(a));
    encode_utf8_decode_utf8(a);
}

/// A boundary of a valid sequence lies within it.
pub proof fn lemma_boundary_in_range(b: Seq<u8>, i: int)
    requires
        valid_utf8(b),
        is_char_boundary(b, i),
    ensures
        0 <= i <= b.len(),
    decreases b.len(),
{
    if i != 0 && !(i < 0 || b.len() < i) {
    }
}

/// The encoding of one ASCII character is that character's code.
pub proof fn lemma_utf8_ascii_char(c: char)
    requires
        (c as u32) < 128,
    ensures
        utf8(seq![c]) == seq![c as u8],
{
    let s = seq![c];
    let u = c as u32;
    assert(s.drop_first() =~= Seq::<char>::empty());
    assert(u as u8 == leading_byte_width_1(u)) by (bit_vector)
        requires
            u < 128,
    ;
    assert(utf8(s) =~= encode_scalar(c as u32) + utf8(s.drop_first()));
}

/// The number of bytes of `s` (`str::len`). A string slice never holds more
/// than `isize::MAX` bytes, so the result is at most that.
#[verifier::external_body]
pub(crate) fn byte_len(s: &str) -> (n: usize)
    ensures
        n == utf8(s@).len(),
        n <= isize::MAX,
{
    s.len()
}

/// Appends a character (`String::push`).
#[verifier::external_body]
pub(crate) fn push_char(s: &mut String, c: char)
    ensures
        final(s)@ == old(s)@.push(c),
{
    s.push(c)
}

/// Removes the last character, if any (`String::pop`).
#[verifier::external_body]
pub(crate) fn pop_char(s: &mut String) -> (r: Option<char>)
    ensures
        old(s)@.len() == 0 ==> r is None && final(s)@ == old(s)@,
        old(s)@.len() > 0 ==> r == Some(old(s)@.last()) && final(s)@ == old(s)@.drop_last(),
{
    s.pop()
}

/// The bytes of `s` from the start up to byte `i`.
pub fn prefix(s: &str, i: usize) -> (r: &str)
    requires
        is_char_boundary(utf8(s@), i as int),
    ensures
        utf8(r@) == utf8(s@).take(i as int),
{
    s.split_at(i).0
}

/// The bytes of `s` from byte `i` to the end.
pub fn suffix(s: &str, i: usize) -> (r: &str)
    requires
        is_char_boundary(utf8(s@), i as int),
    ensures
        utf8(r@) == utf8(s@).skip(i as int),
{
    proof {
        lemma_utf8_valid(s@);
        lemma_boundary_in_range(utf8(s@), i as int);
    }
    let r = s.split_at(i).1;
    assert(utf8(r@) =~= utf8(s@).skip(i as int));
    r
}

/// A new string holding `a` followed by `b`.
pub fn concat(a: &str, b: &str) -> (r: String)
    ensures
        r@ == a@ + b@,
        utf8(r@) == utf8(a@) + utf8(b@),
{
    let mut r = a.to_owned();
    r.append(b);
    proof {
        lemma_utf8_concat(a@, b@);
    }
    r
}

/// The lowercase form of a string, as `str::to_lowercase` computes it from
/// Unicode's case tables.
pub uninterp spec fn lowercase(s: Seq<char>) -> Seq<char>;

/// `c` with the letters A to Z turned into a to z.
pub open spec fn ascii_lower(c: char) -> char {
    if 65 <= (c as int) <= 90 {
        ((c as int) + 32) as char
    } else {
        c
    }
}

/// Every character of `s` is ASCII.
pub open spec fn all_ascii(s: Seq<char>) -> bool {
    forall|i: int| 0 <= i < s.len() ==> (#[trigger] s[i] as u32) < 128
}

/// Every byte is ASCII.
pub open spec fn ascii_bytes(b: Seq<u8>) -> bool {
    forall|k: int| 0 <= k < b.len() ==> #[trigger] b[k] < 128u8
}

/// Characters whose encoding is all ASCII bytes are ASCII characters.
#[verifier::spinoff_prover]
pub proof fn lemma_ascii_encoding(c: Seq<char>)
    requires
        ascii_bytes(utf8(c)),
    ensures
        all_ascii(c),
    decreases c.len(),
{
    if c.len() > 0 {
        let v = c[0] as u32;
        let rest = c.drop_first();
        assert(utf8(c) == encode_scalar(v) + utf8(rest));
        assert(utf8(c)[0] == encode_scalar(v)[0]);
        assert(has_width_1_encoding(v)) by {
            if !has_width_1_encoding(v) {
                assert(0xC0u8 | ((v >> 6) & 0x1F) as u8 >= 128u8) by (bit_vector);
                assert(0xE0u8 | ((v >> 12) & 0x0F) as u8 >= 128u8) by (bit_vector);
                assert(0xF0u8 | ((v >> 18) & 0x7) as u8 >= 128u8) by (bit_vector);
                assert(encode_scalar(v)[0] >= 128u8);
            }
        }
        assert(v <= 0x7F);
        assert forall|k: int| 0 <= k < utf8(rest).len() implies #[trigger] utf8(rest)[k] < 128u8 by {
            assert(utf8(c)[k + encode_scalar(v).len()] == utf8(rest)[k]);
        }
        lemma_ascii_encoding(rest);
        assert forall|i: int| 0 <= i < c.len() implies (#[trigger] c[i] as u32) < 128 by {
            if i > 0 {
                assert(c[i] == rest[i - 1]);
            }
        }
    }
}

/// `str::to_lowercase`: its result is what `lowercase` names for `s`; on
/// ASCII text it turns A to Z into a to z and keeps every other character,
/// as Unicode's lowercase mapping does there. Beyond ASCII nothing is
/// stated of the mapping.
#[verifier::external_body]
pub(crate) fn to_lowercase(s: &str) -> (r: String)
    ensures
        r@ == lowercase(s@),
        all_ascii(s@) ==> r@ == s@.map_values(|c: char| ascii_lower(c)),
{
    s.to_lowercase()
}

/// `needle` occurs in `hay` starting at byte `i`.
pub open spec fn occurs_at<T>(hay: Seq<T>, needle: Seq<T>, i: int) -> bool {
    0 <= i && i + needle.len() <= hay.len() && hay.subrange(i, i + needle.len()) == needle
}

/// The first position at or after `from` where `needle` occurs in `hay`.
pub open spec fn find_from<T>(hay: Seq<T>, needle: Seq<T>, from: int) -> Option<int>
    decreases hay.len() + 1 - from,
{
    if from < 0 || from + needle.len() > hay.len() {
        None
    } else if occurs_at(hay, needle, from) {
        Some(from)
    } else {
        find_from(hay, needle, from + 1)
    }
}

/// A found position is at or after the start of the search.
pub proof fn lemma_find_from_bounds<T>(hay: Seq<T>, needle: Seq<T>, from: int)
    ensures
        find_from(hay, needle, from) matches Some(p) ==> from <= p && p + needle.len() <= hay.len()
            && occurs_at(hay, needle, p),
    decreases hay.len() + 1 - from,
{
    if !(from < 0 || from + needle.len() > hay.len()) && !occurs_at(hay, needle, from) {
        lemma_find_from_bounds(hay, needle, from + 1);
    }
}

/// The first position where `needle` occurs in `hay`, if any.
pub fn find_bytes(hay: &[u8], needle: &[u8]) -> (r: Option<usize>)
    ensures
        match r {
            Some(p) => find_from(hay@, needle@, 0) == Some(p as int),
            None => find_from(hay@, needle@, 0) is None,
        },
{
    let h = hay.len();
    let n = needle.len();
    if n > h {
        return None;
    }
    let mut i: usize = 0;
    while i <= h - n
        invariant
            n <= h,
            h == hay@.len(),
            n == needle@.len(),
            i <= h - n + 1,
            find_from(hay@, needle@, 0) == find_from(hay@, needle@, i as int),
        decreases h - n + 1 - i,
    {
        let mut j: usize = 0;
        let mut same = true;
        while j < n
            invariant
                n <= h,
                i <= h - n,
                h == hay@.len(),
                n == needle@.len(),
                j <= n,
                same == (forall|k: int| 0 <= k < j ==> hay@[i + k] == needle@[k]),
            decreases n - j,
        {
            if hay[i + j] != needle[j] {
                same = false;
            }
            j = j + 1;
        }
        if same {
            assert(hay@.subrange(i as int, i + n) =~= needle@);
            return Some(i);
        }
        assert(!occurs_at(hay@, needle@, i as int)) by {
            if occurs_at(hay@, needle@, i as int) {
                assert forall|k: int| 0 <= k < n implies hay@[i + k] == needle@[k] by {
                    assert(hay@.subrange(i as int, i + n)[k] == hay@[i + k]);
                }
            }
        }
        i = i + 1;
    }
    None
}

/// An optional string as an optional character sequence.
pub open spec fn opt_view(o: Option<String>) -> Option<Seq<char>> {
    match o {
        Some(s) => Some(s@),
        None => None,
    }
}

/// The part of `s` after its last '/' (all of `s` when it has none).
pub open spec fn last_segment(s: Seq<char>) -> Seq<char>
    decreases s.len(),
{
    if s.len() == 0 {
        s
    } else if s.last() == '/' {
        seq![]
    } else {
        last_segment(s.drop_last()).push(s.last())
    }
}

/// A path text that every platform splits at '/' alone and reads without
/// a drive or server prefix: it holds no '\\' and no ':', and does not
/// begin with two '/'.
pub open spec fn portable_path(s: Seq<char>) -> bool {
    &&& !s.contains('\\')
    &&& !s.contains(':')
    &&& !(s.len() >= 2 && s[0] == '/' && s[1] == '/')
}

/// A proper file name: not empty, and neither "." nor "..".
pub open spec fn proper_name(s: Seq<char>) -> bool {
    s.len() > 0 && s != "."@ && s != ".."@
}

/// Portable paths whose last segments are proper file names that differ:
/// on every platform their last components differ.
pub open spec fn different_files(a: Seq<char>, b: Seq<char>) -> bool {
    &&& portable_path(a)
    &&& portable_path(b)
    &&& proper_name(last_segment(a))
    &&& proper_name(last_segment(b))
    &&& last_segment(a) != last_segment(b)
}

/// The last component of a path (`Path::file_name`, made lossy UTF-8).
/// For a portable path whose last segment is a proper file name, that
/// segment is the last component, so it is the result. As `Path::file_name`
/// documents, there is none for a path that ends in ".." or for the root
/// "/". Where the platform's separators or prefixes come
/// in, nothing is stated.
#[verifier::external_body]
pub(crate) fn file_name_of(path: &str) -> (r: Option<String>)
    ensures
        portable_path(path@) && proper_name(last_segment(path@)) ==> opt_view(r) == Some(
            last_segment(path@),
        ),
        portable_path(path@) && last_segment(path@) == ".."@ ==> r is None,
        path@ == "/"@ ==> r is None,
{
    std::path::Path::new(path).file_name().map(|s| s.to_string_lossy().to_string())
}

/// A byte that is not a UTF-8 continuation byte starts a character.
pub proof fn lemma_ascii_byte_boundary(b: Seq<u8>, i: int)
    requires
        valid_utf8(b),
        0 <= i < b.len(),
        b[i] < 128,
    ensures
        is_char_boundary(b, i),
{
    is_char_boundary_iff_not_is_continuation_byte(b, i);
    let x = b[i];
    assert(!is_continuation_byte(x)) by (bit_vector)
        requires
            x < 128,
    ;
}

/// A valid sequence that starts with an ASCII byte has a boundary right
/// after that byte.
pub proof fn lemma_boundary_after_ascii(b: Seq<u8>)
    requires
        valid_utf8(b),
        b.len() > 0,
        b[0] < 128,
    ensures
        is_char_boundary(b, 1),
{
    assert(length_of_first_scalar(b) == 1);
    assert(is_char_boundary(pop_first_scalar(b), 0));
}

/// `needle` occurs somewhere in `hay`.
pub open spec fn contains_seq<T>(hay: Seq<T>, needle: Seq<T>) -> bool {
    exists|i: int| occurs_at(hay, needle, i)
}

/// The characters of `s`, one element each.
pub fn char_vec(s: &str) -> (r: Vec<char>)
    ensures
        r@ == s@,
{
    let n = s.unicode_len();
    let mut r: Vec<char> = Vec::new();
    let mut i: usize = 0;
    while i < n
        invariant
            n == s@.len(),
            i <= n,
            r@ == s@.take(i as int),
        decreases n - i,
    {
        r.push(s.get_char(i));
        i = i + 1;
        assert(r@ =~= s@.take(i as int));
    }
    assert(s@.take(n as int) =~= s@);
    r
}

/// Whether `needle` occurs in `hay` (`str::contains` on characters).
pub fn contains_chars(hay: &str, needle: &str) -> (r: bool)
    ensures
        r == contains_seq(hay@, needle@),
{
    let h = char_vec(hay);
    let n = char_vec(needle);
    let hl = h.len();
    let nl = n.len();
    if nl > hl {
        assert forall|i: int| !occurs_at(hay@, needle@, i) by {}
        return false;
    }
    let mut i: usize = 0;
    while i <= hl - nl
        invariant
            nl <= hl,
            hl == hay@.len(),
            nl == needle@.len(),
            h@ == hay@,
            n@ == needle@,
            i <= hl - nl + 1,
            forall|k: int| 0 <= k < i ==> !occurs_at(hay@, needle@, k),
        decreases hl - nl + 1 - i,
    {
        let mut j: usize = 0;
        let mut same = true;
        while j < nl
            invariant
                nl <= hl,
                i <= hl - nl,
                hl == hay@.len(),
                nl == needle@.len(),
                h@ == hay@,
                n@ == needle@,
                j <= nl,
                same == (forall|k: int| 0 <= k < j ==> hay@[i + k] == needle@[k]),
            decreases nl - j,
        {
            if h[i + j] != n[j] {
                same = false;
            }
            j = j + 1;
        }
        if same {
            assert(hay@.subrange(i as int, i + nl) =~= needle@);
            assert(occurs_at(hay@, needle@, i as int));
            return true;
        }
        assert(!occurs_at(hay@, needle@, i as int)) by {
            if occurs_at(hay@, needle@, i as int) {
                assert forall|k: int| 0 <= k < nl implies hay@[i + k] == needle@[k] by {
                    assert(hay@.subrange(i as int, i + nl)[k] == hay@[i + k]);
                }
            }
        }
        i = i + 1;
    }
    false
}

/// Whether `c` has Unicode's White_Space property (`char::is_whitespace`):
/// the tab to carriage-return controls, space, next line, no-break space,
/// ogham space mark, the en quad to hair space block, line and paragraph
/// separators, narrow no-break space, medium mathematical space and
/// ideographic space.
pub open spec fn white_space(c: char) -> bool {
    let n = c as int;
    ||| 9 <= n <= 13
    ||| n == 32
    ||| n == 0x85
    ||| n == 0xA0
    ||| n == 0x1680
    ||| 0x2000 <= n <= 0x200A
    ||| n == 0x2028
    ||| n == 0x2029
    ||| n == 0x202F
    ||| n == 0x205F
    ||| n == 0x3000
}

/// Whether `c` is white space (see `white_space`).
pub(crate) fn is_whitespace(c: char) -> (r: bool)
    ensures
        r == white_space(c),
{
    let n = c as u32;
    (9 <= n && n <= 13) || n == 32 || n == 0x85 || n == 0xA0 || n == 0x1680 || (0x2000 <= n
        && n <= 0x200A) || n == 0x2028 || n == 0x2029 || n == 0x202F || n == 0x205F || n == 0x3000
}

/// `s` without its leading white space.
pub open spec fn trim_start_ws(s: Seq<char>) -> Seq<char>
    decreases s.len(),
{
    if s.len() > 0 && white_space(s[0]) {
        trim_start_ws(s.drop_first())
    } else {
        s
    }
}

/// `s` without its trailing white space.
pub open spec fn trim_end_ws(s: Seq<char>) -> Seq<char>
    decreases s.len(),
{
    if s.len() > 0 && white_space(s.last()) {
        trim_end_ws(s.drop_last())
    } else {
        s
    }
}

/// `s` without leading and trailing white space (`str::trim`).
pub open spec fn trim_ws(s: Seq<char>) -> Seq<char> {
    trim_end_ws(trim_start_ws(s))
}

/// `s` with every repetition of the prefix `p` removed
/// (`str::trim_start_matches`).
pub open spec fn strip_prefixes(s: Seq<char>, p: Seq<char>) -> Seq<char>
    decreases s.len(),
{
    if p.len() > 0 && p.len() <= s.len() && s.take(p.len() as int) == p {
        strip_prefixes(s.skip(p.len() as int), p)
    } else {
        s
    }
}

/// `s` with every repetition of the suffix `p` removed
/// (`str::trim_end_matches`).
pub open spec fn strip_suffixes(s: Seq<char>, p: Seq<char>) -> Seq<char>
    decreases s.len(),
{
    if p.len() > 0 && p.len() <= s.len() && s.skip(s.len() - p.len()) == p {
        strip_suffixes(s.take(s.len() - p.len()), p)
    } else {
        s
    }
}

/// Whether `v[from..from + p.len()]` equals `p`.
fn slice_matches(v: &Vec<char>, from: usize, p: &Vec<char>) -> (r: bool)
    requires
        from + p@.len() <= v@.len(),
    ensures
        r == (v@.subrange(from as int, from + p@.len()) == p@),
{
    let vl = v.len();
    let mut k: usize = 0;
    while k < p.len()
        invariant
            vl == v@.len(),
            from + p@.len() <= v@.len(),
            k <= p@.len(),
            forall|j: int| 0 <= j < k ==> v@[from + j] == p@[j],
        decreases p@.len() - k,
    {
        if v[from + k] != p[k] {
            assert(v@.subrange(from as int, from + p@.len())[k as int] != p@[k as int]);
            return false;
        }
        k = k + 1;
    }
    assert(v@.subrange(from as int, from + p@.len()) =~= p@);
    true
}

/// `s` with every repetition of the prefix `p` removed.
pub fn trim_start_matches(s: &str, p: &str) -> (r: String)
    ensures
        r@ == strip_prefixes(s@, p@),
{
    let v = char_vec(s);
    let pv = char_vec(p);
    let n = v.len();
    let m = pv.len();
    let mut i: usize = 0;
    assert(s@.skip(0) =~= s@);
    while m > 0 && m <= n - i && slice_matches(&v, i, &pv)
        invariant
            v@ == s@,
            pv@ == p@,
            n == s@.len(),
            m == p@.len(),
            i <= n,
            strip_prefixes(s@, p@) == strip_prefixes(s@.skip(i as int), p@),
        decreases n - i,
    {
        assert(s@.skip(i as int).take(m as int) =~= s@.subrange(i as int, i + m));
        assert(s@.skip(i as int).skip(m as int) =~= s@.skip(i + m));
        i = i + m;
    }
    proof {
        if m > 0 && m <= n - i {
            assert(s@.skip(i as int).take(m as int) =~= s@.subrange(i as int, i + m));
        }
    }
    let r = s.substring_char(i, n).to_owned();
    assert(r@ =~= s@.skip(i as int));
    r
}

/// `s` with every repetition of the suffix `p` removed.
pub fn trim_end_matches(s: &str, p: &str) -> (r: String)
    ensures
        r@ == strip_suffixes(s@, p@),
{
    let v = char_vec(s);
    let pv = char_vec(p);
    let n = v.len();
    let m = pv.len();
    let mut e: usize = n;
    assert(s@.take(n as int) =~= s@);
    while m > 0 && m <= e && slice_matches(&v, e - m, &pv)
        invariant
            v@ == s@,
            pv@ == p@,
            n == s@.len(),
            m == p@.len(),
            e <= n,
            strip_suffixes(s@, p@) == strip_suffixes(s@.take(e as int), p@),
        decreases e,
    {
        assert(s@.take(e as int).skip(e - m) =~= s@.subrange(e - m, e as int));
        assert(s@.take(e as int).take(e - m) =~= s@.take(e - m));
        e = e - m;
    }
    proof {
        if m > 0 && m <= e {
            assert(s@.take(e as int).skip(e - m) =~= s@.subrange(e - m, e as int));
        }
    }
    let r = s.substring_char(0, e).to_owned();
    assert(r@ =~= s@.take(e as int));
    r
}

/// `s` without leading and trailing white space.
pub fn trim(s: &str) -> (r: String)
    ensures
        r@ == trim_ws(s@),
{
    let v = char_vec(s);
    let n = v.len();
    let mut i: usize = 0;
    assert(s@.skip(0) =~= s@);
    while i < n && is_whitespace(v[i])
        invariant
            v@ == s@,
            n == s@.len(),
            i <= n,
            trim_start_ws(s@) == trim_start_ws(s@.skip(i as int)),
        decreases n - i,
    {
        assert(s@.skip(i as int).drop_first() =~= s@.skip(i + 1));
        i = i + 1;
    }
    let mut e: usize = n;
    assert(s@.skip(i as int).take(n - i) =~= s@.skip(i as int));
    while e > i && is_whitespace(v[e - 1])
        invariant
            v@ == s@,
            n == s@.len(),
            i <= e <= n,
            trim_start_ws(s@) == s@.skip(i as int),
            trim_ws(s@) == trim_end_ws(s@.subrange(i as int, e as int)),
        decreases e,
    {
        assert(s@.subrange(i as int, e as int).drop_last() =~= s@.subrange(i as int, e - 1));
        e = e - 1;
    }
    let r = s.substring_char(i, e).to_owned();
    r
}

/// `s` begins with `p`.
pub open spec fn starts_with_seq(s: Seq<char>, p: Seq<char>) -> bool {
    p.len() <= s.len() && s.take(p.len() as int) == p
}

/// Whether `s` begins with `p`.
pub fn starts_with(s: &str, p: &str) -> (r: bool)
    ensures
        r == starts_with_seq(s@, p@),
{
    let v = char_vec(s);
    let pv = char_vec(p);
    if pv.len() > v.len() {
        return false;
    }
    let r = slice_matches(&v, 0, &pv);
    assert(s@.subrange(0, p@.len() as int) =~= s@.take(p@.len() as int));
    r
}

/// `s` ends with `p`.
pub open spec fn ends_with_seq(s: Seq<char>, p: Seq<char>) -> bool {
    p.len() <= s.len() && s.skip(s.len() - p.len()) == p
}

/// Whether `s` ends with `p`.
pub fn ends_with(s: &str, p: &str) -> (r: bool)
    ensures
        r == ends_with_seq(s@, p@),
{
    let v = char_vec(s);
    let pv = char_vec(p);
    if pv.len() > v.len() {
        return false;
    }
    let from = v.len() - pv.len();
    let r = slice_matches(&v, from, &pv);
    assert(s@.subrange(from as int, from + p@.len()) =~= s@.skip(s@.len() - p@.len()));
    r
}

/// Whether two strings hold the same characters.
pub fn same_text(a: &str, b: &str) -> (r: bool)
    ensures
        r == (a@ == b@),
{
    a.to_owned() == b.to_owned()
}

/// The characters of `s` from character `n` on.
pub fn skip_chars(s: &str, n: usize) -> (r: String)
    requires
        n <= s@.len(),
    ensures
        r@ == s@.skip(n as int),
{
    let len = s.unicode_len();
    let r = s.substring_char(n, len).to_owned();
    assert(r@ =~= s@.skip(n as int));
    r
}

/// The position of the first `c` in `s` at or after `from`.
pub open spec fn char_pos(s: Seq<char>, c: char, from: int) -> Option<int>
    decreases s.len() - from,
{
    if from < 0 || from >= s.len() {
        None
    } else if s[from] == c {
        Some(from)
    } else {
        char_pos(s, c, from + 1)
    }
}

/// The position of the first `c` in `v` at or after `from`.
pub fn find_char(v: &Vec<char>, c: char, from: usize) -> (r: Option<usize>)
    ensures
        match r {
            Some(i) => char_pos(v@, c, from as int) == Some(i as int) && from <= i < v@.len()
                && v@[i as int] == c,
            None => char_pos(v@, c, from as int) is None,
        },
{
    let mut i = from;
    while i < v.len()
        invariant
            from <= i,
            char_pos(v@, c, from as int) == char_pos(v@, c, i as int),
        decreases v@.len() - i,
    {
        if v[i] == c {
            return Some(i);
        }
        i = i + 1;
    }
    None
}

/// The first two pieces of `s` cut at '/', when `s` has at least two
/// slashes (so that `splitn(3, '/')` yields three pieces).
pub open spec fn two_slash_pieces(s: Seq<char>) -> Option<(Seq<char>, Seq<char>)> {
    match char_pos(s, '/', 0) {
        None => None,
        Some(i) => match char_pos(s, '/', i + 1) {
            None => None,
            Some(j) => Some((s.subrange(0, i), s.subrange(i + 1, j))),
        },
    }
}

/// The first two pieces of `s` cut at '/' (see `two_slash_pieces`).
pub fn split_two_slashes(s: &str) -> (r: Option<(String, String)>)
    ensures
        match r {
            Some((a, b)) => two_slash_pieces(s@) == Some((a@, b@)),
            None => two_slash_pieces(s@) is None,
        },
{
    let v = char_vec(s);
    match find_char(&v, '/', 0) {
        None => None,
        Some(i) => match find_char(&v, '/', i + 1) {
            None => None,
            Some(j) => {
                let a = s.substring_char(0, i).to_owned();
                let b = s.substring_char(i + 1, j).to_owned();
                Some((a, b))
            },
        },
    }
}

/// `s` with each occurrence of "\\/" (backslash, slash), left to right,
/// replaced by "/".
pub open spec fn unescape_slashes(s: Seq<char>) -> Seq<char>
    decreases s.len(),
{
    if s.len() == 0 {
        s
    } else if s.len() >= 2 && s[0] == '\\' && s[1] == '/' {
        seq!['/'] + unescape_slashes(s.skip(2))
    } else {
        seq![s[0]] + unescape_slashes(s.drop_first())
    }
}

/// `s` with "\\/" replaced by "/" (see `unescape_slashes`).
pub fn unescape(s: &str) -> (r: String)
    ensures
        r@ == unescape_slashes(s@),
{
    let v = char_vec(s);
    let n = v.len();
    let mut out = String::new();
    let mut i: usize = 0;
    assert(s@.skip(0) =~= s@);
    while i < n
        invariant
            v@ == s@,
            n == s@.len(),
            i <= n,
            unescape_slashes(s@) == out@ + unescape_slashes(s@.skip(i as int)),
        decreases n - i,
    {
        let ghost rest = s@.skip(i as int);
        let ghost before = out@;
        if i + 1 < n && v[i] == '\\' && v[i + 1] == '/' {
            push_char(&mut out, '/');
            assert(rest.skip(2) =~= s@.skip(i + 2));
            assert(out@ =~= before + seq!['/']);
            i = i + 2;
        } else {
            push_char(&mut out, v[i]);
            assert(rest.drop_first() =~= s@.skip(i + 1));
            assert(out@ =~= before + seq![v@[i as int]]);
            i = i + 1;
        }
    }
    assert(s@.skip(n as int) =~= Seq::<char>::empty());
    out
}

/// `c` is an ASCII digit.
pub open spec fn is_digit(c: char) -> bool {
    '0' <= c && c <= '9'
}

/// The number that the digits `s` spell.
pub open spec fn digits_value(s: Seq<char>) -> nat
    decreases s.len(),
{
    if s.len() == 0 {
        0
    } else {
        digits_value(s.drop_last()) * 10 + ((s.last() as nat) - 48) as nat
    }
}

/// `s` without a leading '+'.
pub open spec fn unsigned_part(s: Seq<char>) -> Seq<char> {
    if s.len() > 0 && s[0] == '+' {
        s.drop_first()
    } else {
        s
    }
}

/// Every character of `s` is a digit.
pub open spec fn all_digits(s: Seq<char>) -> bool {
    forall|i: int| 0 <= i < s.len() ==> #[trigger] is_digit(s[i])
}

/// What `str::parse::<usize>` gives for `s`: an optional '+', then one or
/// more digits, of a value that fits.
pub open spec fn parse_usize_spec(s: Seq<char>) -> Option<usize> {
    let d = unsigned_part(s);
    if d.len() > 0 && all_digits(d) && digits_value(d) <= usize::MAX {
        Some(digits_value(d) as usize)
    } else {
        None
    }
}

/// Reads a decimal number (see `parse_usize_spec`).
pub fn parse_usize(s: &str) -> (r: Option<usize>)
    ensures
        r == parse_usize_spec(s@),
{
    let v = char_vec(s);
    let n = v.len();
    let start: usize = if n > 0 && v[0] == '+' {
        1
    } else {
        0
    };
    let ghost d = unsigned_part(s@);
    assert(d =~= s@.skip(start as int));
    if start == n {
        return None;
    }
    let mut value: usize = 0;
    let mut overflow = false;
    let mut i = start;
    assert(d.take(0) =~= Seq::<char>::empty());
    while i < n
        invariant
            v@ == s@,
            n == s@.len(),
            start <= i <= n,
            d == s@.skip(start as int),
            d == unsigned_part(s@),
            forall|k: int| 0 <= k < i - start ==> is_digit(d[k]),
            !overflow ==> value == digits_value(d.take(i - start)),
            overflow ==> digits_value(d.take(i - start)) > usize::MAX,
        decreases n - i,
    {
        let c = v[i];
        if !('0' <= c && c <= '9') {
            assert(!is_digit(d[i - start]));
            assert(!all_digits(d));
            return None;
        }
        let digit = (c as u32 - 48) as usize;
        assert(d.take(i + 1 - start).drop_last() =~= d.take(i - start));
        assert(d.take(i + 1 - start).last() == c);
        if !overflow {
            match value.checked_mul(10) {
                Some(m) => match m.checked_add(digit) {
                    Some(x) => {
                        value = x;
                    },
                    None => {
                        overflow = true;
                    },
                },
                None => {
                    overflow = true;
                },
            }
        }
        i = i + 1;
    }
    assert(d.take(n - start) =~= d);
    if overflow {
        None
    } else {
        Some(value)
    }
}

/// The digit character for `d` (below ten).
pub open spec fn digit_char(d: nat) -> char {
    ((48 + d) as u8) as char
}

/// The decimal numeral of `n`, without leading zeros.
pub open spec fn decimal(n: nat) -> Seq<char>
    decreases n,
{
    if n < 10 {
        seq![digit_char(n)]
    } else {
        decimal(n / 10).push(digit_char(n % 10))
    }
}

/// The decimal numeral of `n`.
pub fn decimal_string(n: usize) -> (r: String)
    ensures
        r@ == decimal(n as nat),
    decreases n,
{
    let d = (n % 10) as u8;
    let c = (48u8 + d) as char;
    if n < 10 {
        let mut s = String::new();
        push_char(&mut s, c);
        assert(s@ =~= seq![digit_char(n as nat)]);
        s
    } else {
        let mut s = decimal_string(n / 10);
        push_char(&mut s, c);
        s
    }
}

/// The bytes of `line` without the character that starts at byte `i`.
pub open spec fn remove_char_at(line: Seq<u8>, i: int) -> Seq<u8> {
    line.take(i) + utf8(chars_of(line.skip(i)).drop_first())
}

/// `s` without the character that starts at byte `i` (what `String::remove`
/// leaves).
pub fn remove_char(s: &str, i: usize) -> (r: String)
    requires
        is_char_boundary(utf8(s@), i as int),
        i < utf8(s@).len(),
    ensures
        utf8(r@) == remove_char_at(utf8(s@), i as int),
{
    let a = prefix(s, i);
    let b = suffix(s, i);
    proof {
        lemma_utf8_valid(b@);
        if b@.len() == 0 {
            assert(utf8(b@) =~= Seq::<u8>::empty());
        }
    }
    let n = b.unicode_len();
    let rest = b.substring_char(1, n);
    assert(rest@ =~= b@.drop_first());
    concat(a, rest)
}

} // verus!
