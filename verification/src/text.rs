//! Text operations shared by every other module, stated over `Seq<char>`.
use vstd::prelude::*;
use vstd::string::*;

pub mod laws;

verus! {

/// `String::push` of std: adds one character at the end.
pub assume_specification[ String::push ](s: &mut String, c: char)
    ensures
        final(s)@ == old(s)@.push(c),
;

/// `str::eq` of std: two strings are equal when they hold the same characters.
pub assume_specification[ <str as PartialEq>::eq ](a: &str, b: &str) -> (r: bool)
    ensures
        r == (a@ == b@),
;

/// What `str::to_lowercase` of std returns: the Unicode lowercase mapping.
pub uninterp spec fn unicode_lowercase(s: Seq<char>) -> Seq<char>;

/// What `str::to_uppercase` of std returns: the Unicode uppercase mapping.
pub uninterp spec fn unicode_uppercase(s: Seq<char>) -> Seq<char>;

/// Calls `str::to_lowercase` of std, a function of the text alone. ASCII text is mapped
/// letter by letter.
#[verifier::external_body]
fn to_lowercase(s: &str) -> (r: String)
    ensures
        r@ == unicode_lowercase(s@),
        all_ascii(s@) ==> r@ == ascii_lower(s@),
{
    s.to_lowercase()
}

/// Calls `str::to_uppercase` of std, a function of the text alone. ASCII text is mapped
/// letter by letter.
#[verifier::external_body]
fn to_uppercase(s: &str) -> (r: String)
    ensures
        r@ == unicode_uppercase(s@),
        all_ascii(s@) ==> r@ == ascii_upper(s@),
{
    s.to_uppercase()
}

/// A text of ASCII characters alone.
pub open spec fn all_ascii(s: Seq<char>) -> bool {
    forall|i: int| 0 <= i < s.len() ==> #[trigger] s[i] <= '\u{7f}'
}

/// A text in lower case: ASCII text letter by letter, other text as Unicode has it.
pub open spec fn lower_text(s: Seq<char>) -> Seq<char> {
    if all_ascii(s) {
        ascii_lower(s)
    } else {
        unicode_lowercase(s)
    }
}

/// A text in upper case: ASCII text letter by letter, other text as Unicode has it.
pub open spec fn upper_text(s: Seq<char>) -> Seq<char> {
    if all_ascii(s) {
        ascii_upper(s)
    } else {
        unicode_uppercase(s)
    }
}

pub fn lowercase(s: &str) -> (r: String)
    ensures
        r@ == lower_text(s@),
{
    to_lowercase(s)
}

pub fn uppercase(s: &str) -> (r: String)
    ensures
        r@ == upper_text(s@),
{
    to_uppercase(s)
}

/// What `String::from_utf8_lossy` of std returns.
pub uninterp spec fn utf8_lossy(b: Seq<u8>) -> Seq<char>;

/// Calls `String::from_utf8_lossy` of std, a function of the bytes alone.
/// Text that was encoded as UTF-8 comes back unchanged.
#[verifier::external_body]
pub(crate) fn from_utf8_lossy(b: &[u8]) -> (r: String)
    ensures
        r@ == utf8_lossy(b@),
        forall|t: Seq<char>| b@ == #[trigger] vstd::utf8::encode_utf8(t) ==> r@ == t,
{
    String::from_utf8_lossy(b).into_owned()
}

/// Calls `std::str::from_utf8`: the text that the bytes encode, where they are
/// valid UTF-8.
#[verifier::external_body]
pub(crate) fn from_utf8(b: &[u8]) -> (r: Option<String>)
    ensures
        match r {
            Some(s) => b@ == vstd::utf8::encode_utf8(s@),
            None => !vstd::utf8::valid_utf8(b@),
        },
{
    std::str::from_utf8(b).ok().map(str::to_string)
}

pub fn same(a: &str, b: &str) -> (r: bool)
    ensures
        r == (a@ == b@),
{
    *a == *b
}

pub fn chars_of(s: &str) -> (v: Vec<char>)
    ensures
        v@ == s@,
{
    let mut v: Vec<char> = Vec::new();
    for c in it: s.chars()
        invariant
            v@ == it.seq().take(it.index() as int),
            it.seq() == s@,
    {
        v.push(c);
    }
    v
}

pub fn string_of(v: &[char]) -> (s: String)
    ensures
        s@ == v@,
{
    let mut s = String::new();
    let mut i: usize = 0;
    while i < v.len()
        invariant
            i <= v@.len(),
            s@ == v@.take(i as int),
        decreases v@.len() - i,
    {
        s.push(v[i]);
        i = i + 1;
    }
    s
}

// ---- whitespace ----------------------------------------------------------

/// The characters with the Unicode property `White_Space`.
pub open spec fn is_whitespace(c: char) -> bool {
    ||| '\u{9}' <= c <= '\u{d}'
    ||| c == ' '
    ||| c == '\u{85}'
    ||| c == '\u{a0}'
    ||| c == '\u{1680}'
    ||| '\u{2000}' <= c <= '\u{200a}'
    ||| c == '\u{2028}'
    ||| c == '\u{2029}'
    ||| c == '\u{202f}'
    ||| c == '\u{205f}'
    ||| c == '\u{3000}'
}

pub fn char_is_whitespace(c: char) -> (r: bool)
    ensures
        r == is_whitespace(c),
{
    ('\u{9}' <= c && c <= '\u{d}') || c == ' ' || c == '\u{85}' || c == '\u{a0}' || c == '\u{1680}'
        || ('\u{2000}' <= c && c <= '\u{200a}') || c == '\u{2028}' || c == '\u{2029}'
        || c == '\u{202f}' || c == '\u{205f}' || c == '\u{3000}'
}

/// Tab, line feed, form feed, carriage return and space.
pub open spec fn is_ascii_whitespace(c: char) -> bool {
    c == '\t' || c == '\n' || c == '\u{c}' || c == '\r' || c == ' '
}

pub fn char_is_ascii_whitespace(c: char) -> (r: bool)
    ensures
        r == is_ascii_whitespace(c),
{
    c == '\t' || c == '\n' || c == '\u{c}' || c == '\r' || c == ' '
}

/// The text without the whitespace at its start.
pub open spec fn trim_start(s: Seq<char>) -> Seq<char>
    decreases s.len(),
{
    if s.len() > 0 && is_whitespace(s[0]) {
        trim_start(s.skip(1))
    } else {
        s
    }
}

/// The text without the whitespace at its end.
pub open spec fn trim_end(s: Seq<char>) -> Seq<char>
    decreases s.len(),
{
    if s.len() > 0 && is_whitespace(s.last()) {
        trim_end(s.drop_last())
    } else {
        s
    }
}

pub open spec fn trimmed(s: Seq<char>) -> Seq<char> {
    trim_end(trim_start(s))
}

pub fn trim(s: &str) -> (r: &str)
    ensures
        r@ == trimmed(s@),
{
    let v = chars_of(s);
    let mut i: usize = 0;
    assert(v@.skip(0) == v@);
    while i < v.len() && char_is_whitespace(v[i])
        invariant
            i <= v@.len(),
            v@ == s@,
            trim_start(v@) == trim_start(v@.skip(i as int)),
        decreases v@.len() - i,
    {
        assert(v@.skip(i as int).skip(1) == v@.skip(i + 1));
        i = i + 1;
    }
    assert(trim_start(v@) == v@.skip(i as int));
    let mut j: usize = v.len();
    assert(v@.subrange(i as int, j as int) == v@.skip(i as int));
    while j > i && char_is_whitespace(v[j - 1])
        invariant
            i <= j <= v@.len(),
            v@ == s@,
            trimmed(v@) == trim_end(v@.subrange(i as int, j as int)),
        decreases j,
    {
        assert(v@.subrange(i as int, j as int).drop_last() == v@.subrange(i as int, j - 1));
        j = j - 1;
    }
    assert(trim_end(v@.subrange(i as int, j as int)) == v@.subrange(i as int, j as int));
    s.substring_char(i, j)
}

/// Takes the whitespace off the start of a text.
pub fn trim_left(s: &str) -> (r: &str)
    ensures
        r@ == trim_start(s@),
{
    let v = chars_of(s);
    let mut i: usize = 0;
    assert(v@.skip(0) =~= v@);
    while i < v.len() && char_is_whitespace(v[i])
        invariant
            i <= v@.len(),
            v@ == s@,
            trim_start(v@) == trim_start(v@.skip(i as int)),
        decreases v@.len() - i,
    {
        assert(v@.skip(i as int).skip(1) =~= v@.skip(i + 1));
        i = i + 1;
    }
    assert(s@.subrange(i as int, v@.len() as int) =~= s@.skip(i as int));
    s.substring_char(i, v.len())
}

/// A trimmed text neither starts nor ends with whitespace.
pub proof fn trimmed_edges(s: Seq<char>)
    ensures
        trimmed(s).len() > 0 ==> !is_whitespace(trimmed(s)[0]) && !is_whitespace(trimmed(s).last()),
        trimmed(trimmed(s)) == trimmed(s),
{
    trim_start_edge(s);
    trim_end_edge(trim_start(s));
    trim_start_edge(trimmed(s));
    trim_end_edge(trim_start(trimmed(s)));
}

proof fn trim_start_edge(s: Seq<char>)
    ensures
        trim_start(s).len() > 0 ==> !is_whitespace(trim_start(s)[0]),
        s.len() > 0 && !is_whitespace(s[0]) ==> trim_start(s) == s,
    decreases s.len(),
{
    if s.len() > 0 && is_whitespace(s[0]) {
        trim_start_edge(s.skip(1));
    }
}

proof fn trim_end_edge(s: Seq<char>)
    ensures
        trim_end(s).len() > 0 ==> !is_whitespace(trim_end(s).last()) && trim_end(s)[0] == s[0],
        trim_end(s).len() <= s.len(),
        s.len() > 0 && !is_whitespace(s.last()) ==> trim_end(s) == s,
    decreases s.len(),
{
    if s.len() > 0 && is_whitespace(s.last()) {
        trim_end_edge(s.drop_last());
    }
}

/// A text that starts with no whitespace keeps its start when it is trimmed.
pub proof fn trimmed_keeps_start(s: Seq<char>)
    requires
        s.len() > 0,
        !is_whitespace(s[0]),
    ensures
        trimmed(s).len() > 0,
        trimmed(s)[0] == s[0],
{
    trim_start_edge(s);
    trim_end_keeps_start(s);
}

/// A text with no whitespace at its edges stays as it is when it is trimmed.
pub proof fn trimmed_keeps_clean(s: Seq<char>)
    requires
        s.len() > 0,
        !is_whitespace(s[0]),
        !is_whitespace(s.last()),
    ensures
        trimmed(s) == s,
{
    trim_start_edge(s);
    trim_end_edge(s);
}

proof fn trim_end_keeps_start(s: Seq<char>)
    requires
        s.len() > 0,
        !is_whitespace(s[0]),
    ensures
        trim_end(s).len() > 0,
        trim_end(s)[0] == s[0],
    decreases s.len(),
{
    if is_whitespace(s.last()) {
        assert(s.drop_last()[0] == s[0]);
        trim_end_keeps_start(s.drop_last());
    }
}

// ---- ASCII case ----------------------------------------------------------

pub open spec fn lower_char(c: char) -> char {
    if 'A' <= c <= 'Z' {
        ((c as u32 + 32) as u32) as char
    } else {
        c
    }
}

pub open spec fn ascii_lower(s: Seq<char>) -> Seq<char> {
    s.map_values(|c: char| lower_char(c))
}

pub open spec fn upper_char(c: char) -> char {
    if 'a' <= c <= 'z' {
        ((c as u32 - 32) as u32) as char
    } else {
        c
    }
}

pub open spec fn ascii_upper(s: Seq<char>) -> Seq<char> {
    s.map_values(|c: char| upper_char(c))
}

pub open spec fn is_ascii_alphanumeric(c: char) -> bool {
    ('0' <= c <= '9') || ('A' <= c <= 'Z') || ('a' <= c <= 'z')
}

pub fn char_is_ascii_alphanumeric(c: char) -> (r: bool)
    ensures
        r == is_ascii_alphanumeric(c),
{
    ('0' <= c && c <= '9') || ('A' <= c && c <= 'Z') || ('a' <= c && c <= 'z')
}

pub fn char_to_ascii_lowercase(c: char) -> (r: char)
    ensures
        r == lower_char(c),
{
    if 'A' <= c && c <= 'Z' {
        let b: u8 = (c as u32 + 32) as u8;
        b as char
    } else {
        c
    }
}

pub fn to_ascii_lowercase(s: &str) -> (r: String)
    ensures
        r@ == ascii_lower(s@),
{
    let mut r = String::new();
    for c in it: s.chars()
        invariant
            it.seq() == s@,
            r@ == ascii_lower(s@).take(it.index() as int),
    {
        r.push(char_to_ascii_lowercase(c));
    }
    r
}

pub open spec fn same_ignoring_case(a: Seq<char>, b: Seq<char>) -> bool {
    ascii_lower(a) == ascii_lower(b)
}

pub fn eq_ignore_ascii_case(a: &str, b: &str) -> (r: bool)
    ensures
        r == same_ignoring_case(a@, b@),
{
    let la = to_ascii_lowercase(a);
    let lb = to_ascii_lowercase(b);
    la == lb
}

// ---- searching -----------------------------------------------------------

/// `needle` stands in `hay` at position `i`.
pub open spec fn occurs_at(hay: Seq<char>, needle: Seq<char>, i: int) -> bool {
    0 <= i && i + needle.len() <= hay.len() && hay.subrange(i, i + needle.len()) == needle
}

pub open spec fn has_text(hay: Seq<char>, needle: Seq<char>) -> bool {
    exists|i: int| #[trigger] occurs_at(hay, needle, i)
}

fn matches_at(hay: &[char], needle: &[char], i: usize) -> (r: bool)
    requires
        i + needle@.len() <= hay@.len(),
    ensures
        r == occurs_at(hay@, needle@, i as int),
{
    let n: usize = hay.len();
    let mut k: usize = 0;
    while k < needle.len()
        invariant
            k <= needle@.len(),
            n == hay@.len(),
            i + needle@.len() <= n,
            forall|j: int| 0 <= j < k ==> hay@[i + j] == #[trigger] needle@[j],
        decreases needle@.len() - k,
    {
        if hay[i + k] != needle[k] {
            assert(hay@.subrange(i as int, i + needle@.len())[k as int] != needle@[k as int]);
            return false;
        }
        k = k + 1;
    }
    assert(hay@.subrange(i as int, i + needle@.len()) =~= needle@);
    true
}

/// The first position at or after `from` at which `needle` stands in `hay`.
pub fn find_from(hay: &[char], needle: &[char], from: usize) -> (r: Option<usize>)
    requires
        from <= hay@.len(),
    ensures
        match r {
            Some(i) => from <= i && occurs_at(hay@, needle@, i as int) && forall|j: int|
                from <= j < i ==> !#[trigger] occurs_at(hay@, needle@, j),
            None => forall|j: int| from <= j ==> !#[trigger] occurs_at(hay@, needle@, j),
        },
{
    if needle.len() > hay.len() {
        return None;
    }
    let last: usize = hay.len() - needle.len();
    let mut i: usize = from;
    while i <= last
        invariant
            from <= i,
            last == hay@.len() - needle@.len(),
            forall|j: int| from <= j < i ==> !#[trigger] occurs_at(hay@, needle@, j),
        decreases last + 1 - i,
    {
        if matches_at(hay, needle, i) {
            return Some(i);
        }
        if i == last {
            return None;
        }
        i = i + 1;
    }
    None
}

pub fn contains(hay: &str, needle: &str) -> (r: bool)
    ensures
        r == has_text(hay@, needle@),
{
    let h = chars_of(hay);
    let n = chars_of(needle);
    match find_from(h.as_slice(), n.as_slice(), 0) {
        Some(i) => {
            assert(occurs_at(hay@, needle@, i as int));
            true
        },
        None => {
            assert forall|i: int| !occurs_at(hay@, needle@, i) by {
                if 0 <= i {
                    assert(!occurs_at(h@, n@, i));
                }
            }
            false
        },
    }
}

pub open spec fn has_prefix(s: Seq<char>, p: Seq<char>) -> bool {
    p.len() <= s.len() && s.take(p.len() as int) == p
}

pub open spec fn has_suffix(s: Seq<char>, p: Seq<char>) -> bool {
    p.len() <= s.len() && s.skip(s.len() - p.len()) == p
}

pub fn starts_with(s: &str, p: &str) -> (r: bool)
    ensures
        r == has_prefix(s@, p@),
{
    let n: usize = p.unicode_len();
    if n > s.unicode_len() {
        return false;
    }
    assert(s@.subrange(0, n as int) == s@.take(n as int));
    same(s.substring_char(0, n), p)
}

pub fn ends_with(s: &str, p: &str) -> (r: bool)
    ensures
        r == has_suffix(s@, p@),
{
    let n: usize = p.unicode_len();
    let m: usize = s.unicode_len();
    if n > m {
        return false;
    }
    assert(s@.subrange(m - n, m as int) == s@.skip(m - n));
    same(s.substring_char(m - n, m), p)
}

/// What follows the prefix `p`, where the text has it.
pub fn strip_prefix<'a>(s: &'a str, p: &str) -> (r: Option<&'a str>)
    ensures
        match r {
            Some(rest) => has_prefix(s@, p@) && rest@ == s@.skip(p@.len() as int),
            None => !has_prefix(s@, p@),
        },
{
    if starts_with(s, p) {
        let n: usize = p.unicode_len();
        let m: usize = s.unicode_len();
        assert(s@.subrange(n as int, m as int) == s@.skip(n as int));
        Some(s.substring_char(n, m))
    } else {
        None
    }
}

/// The position of the first `c` in `s`, or the length of `s`.
pub open spec fn first_pos(s: Seq<char>, c: char) -> int
    decreases s.len(),
{
    if s.len() == 0 || s[0] == c {
        0
    } else {
        1 + first_pos(s.skip(1), c)
    }
}

pub proof fn first_pos_is_first(s: Seq<char>, c: char)
    ensures
        0 <= first_pos(s, c) <= s.len(),
        first_pos(s, c) < s.len() ==> s[first_pos(s, c)] == c,
        forall|i: int| 0 <= i < first_pos(s, c) ==> s[i] != c,
    decreases s.len(),
{
    if s.len() > 0 && s[0] != c {
        first_pos_is_first(s.skip(1), c);
        assert forall|i: int| 0 <= i < first_pos(s, c) implies s[i] != c by {
            if i > 0 {
                assert(s.skip(1)[i - 1] == s[i]);
            }
        }
    }
}

pub fn find_char(v: &[char], c: char) -> (i: usize)
    ensures
        i == first_pos(v@, c),
        i <= v@.len(),
        i < v@.len() ==> v@[i as int] == c,
{
    let mut i: usize = 0;
    proof {
        first_pos_is_first(v@, c);
    }
    while i < v.len() && v[i] != c
        invariant
            i <= first_pos(v@, c) <= v@.len(),
            forall|j: int| 0 <= j < i ==> v@[j] != c,
            first_pos(v@, c) < v@.len() ==> v@[first_pos(v@, c)] == c,
            forall|j: int| 0 <= j < first_pos(v@, c) ==> v@[j] != c,
        decreases v@.len() - i,
    {
        i = i + 1;
    }
    i
}

/// The two sides of the first `c`, where the text has one.
pub fn split_once(s: &str, c: char) -> (r: Option<(&str, &str)>)
    ensures
        match r {
            Some((a, b)) => {
                let k = first_pos(s@, c);
                k < s@.len() && a@ == s@.take(k) && b@ == s@.skip(k + 1)
            },
            None => first_pos(s@, c) == s@.len(),
        },
{
    let v = chars_of(s);
    let k: usize = find_char(v.as_slice(), c);
    if k < v.len() {
        assert(s@.subrange(0, k as int) == s@.take(k as int));
        assert(s@.subrange(k + 1, s@.len() as int) == s@.skip(k + 1));
        Some((s.substring_char(0, k), s.substring_char(k + 1, v.len())))
    } else {
        None
    }
}

// ---- pieces --------------------------------------------------------------

/// The pieces between the characters `c`; a text without one is a single piece.
pub open spec fn pieces(s: Seq<char>, c: char) -> Seq<Seq<char>>
    decreases s.len(),
{
    let k = first_pos(s, c);
    if 0 <= k < s.len() {
        seq![s.take(k)] + pieces(s.skip(k + 1), c)
    } else {
        seq![s]
    }
}

/// The views of a list of strings.
pub open spec fn views(v: Seq<String>) -> Seq<Seq<char>> {
    v.map_values(|s: String| s@)
}

/// The texts of a list of pairs of strings.
pub open spec fn pair_views(v: Seq<(String, String)>) -> Seq<(Seq<char>, Seq<char>)> {
    v.map_values(|p: (String, String)| (p.0@, p.1@))
}

pub fn split(s: &str, c: char) -> (r: Vec<String>)
    ensures
        views(r@) == pieces(s@, c),
{
    let v = chars_of(s);
    let mut r: Vec<String> = Vec::new();
    let mut from: usize = 0;
    assert(v@.skip(0) == v@);
    loop
        invariant
            from <= v@.len(),
            v@ == s@,
            pieces(s@, c) == views(r@) + pieces(v@.skip(from as int), c),
        decreases v@.len() - from,
    {
        let tail = vstd::slice::slice_subrange(v.as_slice(), from, v.len());
        assert(tail@ == v@.skip(from as int));
        let k: usize = find_char(tail, c);
        proof {
            first_pos_is_first(tail@, c);
        }
        if k == tail.len() {
            let ghost before = r@;
            r.push(string_of(tail));
            assert(views(r@) == views(before).push(tail@));
            assert(views(r@) == pieces(s@, c));
            return r;
        }
        let ghost before = r@;
        let piece = string_of(vstd::slice::slice_subrange(tail, 0, k));
        assert(piece@ == tail@.take(k as int));
        r.push(piece);
        assert(views(r@) == views(before).push(piece@));
        assert(tail@.skip(k + 1) == v@.skip(from + k + 1));
        assert(views(before) + (seq![piece@] + pieces(tail@.skip(k + 1), c)) == views(r@) + pieces(
            v@.skip(from + k + 1),
            c,
        ));
        from = from + k + 1;
    }
}

/// There is always a first piece.
pub proof fn pieces_exist(s: Seq<char>, c: char)
    ensures
        pieces(s, c).len() > 0,
{
}

/// The runs of characters between ASCII whitespace, none of them empty.
pub open spec fn ascii_words(s: Seq<char>) -> Seq<Seq<char>>
    decreases s.len(),
{
    if s.len() == 0 {
        seq![]
    } else if is_ascii_whitespace(s[0]) {
        ascii_words(s.skip(1))
    } else {
        let k = word_len(s);
        if 0 < k <= s.len() {
            seq![s.take(k)] + ascii_words(s.skip(k))
        } else {
            seq![]
        }
    }
}

/// How many characters stand before the first ASCII whitespace.
pub open spec fn word_len(s: Seq<char>) -> int
    decreases s.len(),
{
    if s.len() == 0 || is_ascii_whitespace(s[0]) {
        0
    } else {
        1 + word_len(s.skip(1))
    }
}

proof fn word_len_bound(s: Seq<char>)
    ensures
        0 <= word_len(s) <= s.len(),
    decreases s.len(),
{
    if s.len() > 0 && !is_ascii_whitespace(s[0]) {
        word_len_bound(s.skip(1));
    }
}

pub fn split_ascii_whitespace(s: &str) -> (r: Vec<String>)
    ensures
        views(r@) == ascii_words(s@),
{
    let v = chars_of(s);
    let mut r: Vec<String> = Vec::new();
    let mut i: usize = 0;
    assert(v@.skip(0) == v@);
    while i < v.len()
        invariant
            i <= v@.len(),
            v@ == s@,
            ascii_words(s@) == views(r@) + ascii_words(v@.skip(i as int)),
        decreases v@.len() - i,
    {
        let ghost rest = v@.skip(i as int);
        if char_is_ascii_whitespace(v[i]) {
            assert(rest.skip(1) == v@.skip(i + 1));
            i = i + 1;
        } else {
            let mut j: usize = i;
            while j < v.len() && !char_is_ascii_whitespace(v[j])
                invariant
                    i <= j <= v@.len(),
                    rest == v@.skip(i as int),
                    word_len(rest) == (j - i) + word_len(v@.skip(j as int)),
                decreases v@.len() - j,
            {
                assert(v@.skip(j as int).skip(1) == v@.skip(j + 1));
                j = j + 1;
            }
            let ghost before = r@;
            let word = string_of(vstd::slice::slice_subrange(v.as_slice(), i, j));
            assert(word@ == rest.take(j - i));
            r.push(word);
            assert(views(r@) == views(before).push(word@));
            assert(rest.skip(j - i) == v@.skip(j as int));
            assert(ascii_words(rest) == seq![word@] + ascii_words(v@.skip(j as int)));
            assert(views(before) + (seq![word@] + ascii_words(v@.skip(j as int))) == views(r@)
                + ascii_words(v@.skip(j as int)));
            i = j;
        }
    }
    assert(v@.skip(i as int).len() == 0);
    r
}

/// The parts one after the other, with `sep` between them.
pub open spec fn joined(parts: Seq<Seq<char>>, sep: Seq<char>) -> Seq<char>
    decreases parts.len(),
{
    if parts.len() == 0 {
        seq![]
    } else if parts.len() == 1 {
        parts[0]
    } else {
        joined(parts.drop_last(), sep) + sep + parts.last()
    }
}

pub fn join(parts: &Vec<String>, sep: &str) -> (r: String)
    ensures
        r@ == joined(views(parts@), sep@),
{
    let mut r = String::new();
    let mut i: usize = 0;
    while i < parts.len()
        invariant
            i <= parts@.len(),
            r@ == joined(views(parts@).take(i as int), sep@),
        decreases parts@.len() - i,
    {
        let ghost next = views(parts@).take(i + 1);
        assert(next.drop_last() == views(parts@).take(i as int));
        if i > 0 {
            r.append(sep);
        }
        r.append(parts[i].as_str());
        assert(r@ == joined(next, sep@));
        i = i + 1;
    }
    assert(views(parts@).take(i as int) == views(parts@));
    r
}

// ---- numbers -------------------------------------------------------------

pub open spec fn digit(n: nat) -> char
    recommends
        n < 10,
{
    ((48 + n) as u32) as char
}

/// The decimal digits of a number, without leading zeros.
pub open spec fn decimal(n: nat) -> Seq<char>
    decreases n,
{
    if n < 10 {
        seq![digit(n)]
    } else {
        decimal(n / 10).push(digit(n % 10))
    }
}

pub fn push_decimal(s: &mut String, n: u64)
    ensures
        final(s)@ == old(s)@ + decimal(n as nat),
    decreases n,
{
    if n >= 10 {
        push_decimal(s, n / 10);
    }
    let b: u8 = 48 + (n % 10) as u8;
    s.push(b as char);
    proof {
        if n < 10 {
            assert(old(s)@ + seq![digit(n as nat)] == old(s)@.push(digit(n as nat)));
        } else {
            assert(old(s)@ + decimal((n / 10) as nat).push(digit((n % 10) as nat)) == (old(s)@
                + decimal((n / 10) as nat)).push(digit((n % 10) as nat)));
        }
    }
}

pub fn decimal_string(n: u64) -> (s: String)
    ensures
        s@ == decimal(n as nat),
{
    let mut s = String::new();
    push_decimal(&mut s, n);
    assert(Seq::<char>::empty() + decimal(n as nat) == decimal(n as nat));
    s
}

// ---- UTF-8 lengths -------------------------------------------------------

/// How many bytes a character takes in UTF-8.
pub open spec fn utf8_width(c: char) -> nat {
    if c as u32 <= 0x7f {
        1
    } else if c as u32 <= 0x7ff {
        2
    } else if c as u32 <= 0xffff {
        3
    } else {
        4
    }
}

pub fn char_width(c: char) -> (n: usize)
    ensures
        n == utf8_width(c),
{
    let u: u32 = c as u32;
    if u <= 0x7f {
        1
    } else if u <= 0x7ff {
        2
    } else if u <= 0xffff {
        3
    } else {
        4
    }
}

/// How many bytes a text takes in UTF-8.
pub open spec fn byte_len(s: Seq<char>) -> nat
    decreases s.len(),
{
    if s.len() == 0 {
        0
    } else {
        utf8_width(s[0]) + byte_len(s.skip(1))
    }
}

pub proof fn byte_len_concat(a: Seq<char>, b: Seq<char>)
    ensures
        byte_len(a + b) == byte_len(a) + byte_len(b),
    decreases a.len(),
{
    if a.len() == 0 {
        assert(a + b == b);
    } else {
        assert((a + b).skip(1) == a.skip(1) + b);
        byte_len_concat(a.skip(1), b);
    }
}

/// How many characters at the start of `s` fit into `n` bytes.
pub open spec fn fitting(s: Seq<char>, n: int) -> int
    decreases s.len(),
{
    if s.len() == 0 || utf8_width(s[0]) > n {
        0
    } else {
        1 + fitting(s.skip(1), n - utf8_width(s[0]))
    }
}

pub proof fn fitting_fits(s: Seq<char>, n: int)
    requires
        n >= 0,
    ensures
        0 <= fitting(s, n) <= s.len(),
        byte_len(s.take(fitting(s, n))) <= n,
        fitting(s, n) < s.len() ==> byte_len(s.take(fitting(s, n) + 1)) > n,
    decreases s.len(),
{
    if s.len() == 0 {
        assert(s.take(0).len() == 0);
    } else if utf8_width(s[0]) > n {
        assert(s.take(0).len() == 0);
        assert(s.take(1).skip(1).len() == 0);
        assert(byte_len(s.take(1)) == utf8_width(s[0]) + byte_len(s.take(1).skip(1)));
    } else {
        let m = n - utf8_width(s[0]);
        fitting_fits(s.skip(1), m);
        let k = fitting(s.skip(1), m);
        assert(s.take(k + 1).skip(1) == s.skip(1).take(k));
        if k < s.skip(1).len() {
            assert(s.take(k + 2).skip(1) == s.skip(1).take(k + 1));
        }
    }
}

/// The longest start of `s` that takes at most `max` bytes, and whether that is all of it.
pub fn byte_prefix(s: &str, max: usize) -> (r: (usize, bool))
    ensures
        r.0 == fitting(s@, max as int),
        r.0 <= s@.len(),
        r.1 == (byte_len(s@) <= max),
{
    let v = chars_of(s);
    let mut i: usize = 0;
    let mut left: usize = max;
    assert(v@.skip(0) == v@);
    while i < v.len()
        invariant
            i <= v@.len(),
            v@ == s@,
            left <= max,
            fitting(s@, max as int) == i + fitting(v@.skip(i as int), left as int),
            byte_len(s@) == max - left + byte_len(v@.skip(i as int)),
        decreases v@.len() - i,
    {
        let w: usize = char_width(v[i]);
        if w > left {
            return (i, false);
        }
        assert(v@.skip(i as int).skip(1) == v@.skip(i + 1));
        left = left - w;
        i = i + 1;
    }
    (i, true)
}

/// How many bytes a text takes, where that is at most `max`.
pub fn bytes_up_to(s: &str, max: usize) -> (r: Option<usize>)
    ensures
        match r {
            Some(n) => n == byte_len(s@) && n <= max,
            None => byte_len(s@) > max,
        },
{
    let v = chars_of(s);
    let mut i: usize = 0;
    let mut n: usize = 0;
    assert(v@.skip(0) == v@);
    while i < v.len()
        invariant
            i <= v@.len(),
            v@ == s@,
            n <= max,
            byte_len(s@) == n + byte_len(v@.skip(i as int)),
        decreases v@.len() - i,
    {
        let w: usize = char_width(v[i]);
        assert(v@.skip(i as int).skip(1) == v@.skip(i + 1));
        if w > max - n {
            return None;
        }
        n = n + w;
        i = i + 1;
    }
    Some(n)
}

// ---- replacing and quoting ---------------------------------------------------

/// The text with every occurrence of `from` replaced by `to`, from the left. An
/// empty text occurs before and behind every character.
pub open spec fn replaced(s: Seq<char>, from: Seq<char>, to: Seq<char>) -> Seq<char>
    decreases s.len(),
{
    if from.len() == 0 {
        if s.len() == 0 {
            to
        } else {
            to + seq![s[0]] + replaced(s.skip(1), from, to)
        }
    } else if s.len() == 0 {
        seq![]
    } else if has_prefix(s, from) {
        to + replaced(s.skip(from.len() as int), from, to)
    } else {
        seq![s[0]] + replaced(s.skip(1), from, to)
    }
}

pub fn replace(s: &str, from: &str, to: &str) -> (r: String)
    ensures
        r@ == replaced(s@, from@, to@),
{
    let v = chars_of(s);
    let f = chars_of(from);
    let mut out = String::new();
    let mut i: usize = 0;
    assert(v@.skip(0) =~= v@);
    assert(out@ + replaced(s@, from@, to@) =~= replaced(s@, from@, to@));
    while i < v.len()
        invariant
            i <= v@.len(),
            v@ == s@,
            f@ == from@,
            replaced(s@, from@, to@) == out@ + replaced(v@.skip(i as int), from@, to@),
        decreases v@.len() - i,
    {
        let ghost rest = v@.skip(i as int);
        let ghost prior = out@;
        if f.len() == 0 {
            out.append(to);
            out.push(v[i]);
            assert(rest.skip(1) =~= v@.skip(i + 1));
            assert(prior + (to@ + seq![rest[0]] + replaced(rest.skip(1), from@, to@)) =~= out@
                + replaced(rest.skip(1), from@, to@));
            i = i + 1;
        } else if f.len() <= v.len() - i && matches_at(v.as_slice(), f.as_slice(), i) {
            out.append(to);
            assert(v@.subrange(i as int, i + f@.len()) =~= rest.take(f@.len() as int));
            assert(rest.skip(f@.len() as int) =~= v@.skip(i + f@.len()));
            assert(prior + (to@ + replaced(rest.skip(f@.len() as int), from@, to@)) =~= out@
                + replaced(rest.skip(f@.len() as int), from@, to@));
            i = i + f.len();
        } else {
            out.push(v[i]);
            assert(!has_prefix(rest, from@)) by {
                if has_prefix(rest, from@) {
                    assert(v@.subrange(i as int, i + f@.len()) =~= rest.take(f@.len() as int));
                }
            }
            assert(rest.skip(1) =~= v@.skip(i + 1));
            assert(prior + (seq![rest[0]] + replaced(rest.skip(1), from@, to@)) =~= out@
                + replaced(rest.skip(1), from@, to@));
            i = i + 1;
        }
    }
    assert(v@.skip(i as int).len() == 0);
    if f.len() == 0 {
        out.append(to);
    } else {
        assert(out@ + Seq::<char>::empty() =~= out@);
    }
    out
}

/// What `{:?}` of std writes for a text.
pub uninterp spec fn debugged(s: Seq<char>) -> Seq<char>;

/// Formats a text with `{:?}` of std: between quotes, with escapes. The result
/// depends on the text alone.
#[verifier::external_body]
pub(crate) fn debug_text(s: &str) -> (r: String)
    ensures
        r@ == debugged(s@),
{
    format!("{:?}", s)
}

/// A list of texts as `{:?}` writes it.
pub open spec fn debugged_list(s: Seq<Seq<char>>) -> Seq<char> {
    "["@ + joined(s.map_values(|t: Seq<char>| debugged(t)), ", "@) + "]"@
}

pub fn debug_list(v: &Vec<String>) -> (r: String)
    ensures
        r@ == debugged_list(views(v@)),
{
    let mut parts: Vec<String> = Vec::new();
    let ghost all = views(v@).map_values(|t: Seq<char>| debugged(t));
    let mut i: usize = 0;
    while i < v.len()
        invariant
            i <= v@.len(),
            all == views(v@).map_values(|t: Seq<char>| debugged(t)),
            views(parts@) == all.take(i as int),
        decreases v@.len() - i,
    {
        let ghost prior = parts@;
        let d = debug_text(v[i].as_str());
        parts.push(d);
        assert(views(parts@) =~= views(prior).push(d@));
        assert(all.take(i + 1) =~= all.take(i as int).push(all[i as int]));
        i = i + 1;
    }
    assert(all.take(i as int) =~= all);
    let mut r = "[".to_owned();
    r.append(join(&parts, ", ").as_str());
    r.append("]");
    r
}

} // verus!
