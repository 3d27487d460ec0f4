//! What the functions on texts do, in terms of their characters.
use crate::text::{
    ascii_lower, ascii_words, byte_len, byte_prefix, bytes_up_to, lowercase, replace,
    split_ascii_whitespace, uppercase, char_is_whitespace, contains, decimal,
    decimal_string, digit, ends_with, eq_ignore_ascii_case, first_pos, first_pos_is_first, fitting,
    has_prefix, has_text, is_ascii_whitespace, is_whitespace, join, joined, lower_char, occurs_at,
    pieces, replaced, split, split_once, starts_with, strip_prefix, to_ascii_lowercase, trim,
    trim_end, trim_start, trimmed, trimmed_edges, utf8_width, views, word_len,
};
use vstd::prelude::*;
use vstd::string::*;
use vstd::utf8::{encode_scalar, encode_utf8};

verus! {

// ---- whitespace ------------------------------------------------------------------

/// Every character of the text is whitespace.
pub open spec fn is_blank(s: Seq<char>) -> bool {
    forall|i: int| 0 <= i < s.len() ==> is_whitespace(#[trigger] s[i])
}

proof fn start_is_cut(s: Seq<char>)
    ensures
        exists|a: Seq<char>| #[trigger] is_blank(a) && s == a + trim_start(s),
    decreases s.len(),
{
    if s.len() > 0 && is_whitespace(s[0]) {
        start_is_cut(s.skip(1));
        let a = choose|a: Seq<char>| #[trigger] is_blank(a) && s.skip(1) == a + trim_start(s.skip(1));
        let b = seq![s[0]] + a;
        assert forall|i: int| 0 <= i < b.len() implies is_whitespace(#[trigger] b[i]) by {
            if i > 0 {
                assert(b[i] == a[i - 1]);
            }
        }
        assert(is_blank(b));
        assert(s =~= seq![s[0]] + s.skip(1));
        assert(s =~= b + trim_start(s));
    } else {
        let a: Seq<char> = seq![];
        assert(is_blank(a));
        assert(s =~= a + trim_start(s));
    }
}

proof fn end_is_cut(s: Seq<char>)
    ensures
        exists|b: Seq<char>| #[trigger] is_blank(b) && s == trim_end(s) + b,
    decreases s.len(),
{
    if s.len() > 0 && is_whitespace(s.last()) {
        end_is_cut(s.drop_last());
        let a = choose|b: Seq<char>|
            #[trigger] is_blank(b) && s.drop_last() == trim_end(s.drop_last()) + b;
        let b = a.push(s.last());
        assert forall|i: int| 0 <= i < b.len() implies is_whitespace(#[trigger] b[i]) by {
            if i < a.len() {
                assert(b[i] == a[i]);
            }
        }
        assert(is_blank(b));
        assert(s =~= s.drop_last().push(s.last()));
        assert(s =~= trim_end(s) + b);
    } else {
        let b: Seq<char> = seq![];
        assert(is_blank(b));
        assert(s =~= trim_end(s) + b);
    }
}

/// Trimming cuts whitespace off both ends, all of it and nothing else.
pub proof fn trimming_cuts_whitespace(s: &str, r: &str)
    requires
        call_ensures(trim, (s,), r),
    ensures
        exists|a: Seq<char>, b: Seq<char>|
            #[trigger] is_blank(a) && #[trigger] is_blank(b) && s@ == a + r@ + b,
        r@.len() > 0 ==> !is_whitespace(r@[0]) && !is_whitespace(r@.last()),
{
    let t = trim_start(s@);
    start_is_cut(s@);
    end_is_cut(t);
    trimmed_edges(s@);
    let a = choose|a: Seq<char>| #[trigger] is_blank(a) && s@ == a + t;
    let b = choose|b: Seq<char>| #[trigger] is_blank(b) && t == r@ + b;
    assert(is_blank(a) && is_blank(b));
    assert(s@ =~= a + r@ + b);
}

/// The blanks of a text are whitespace; what is printed in ASCII is not.
pub proof fn spaces_are_whitespace(c: char, r: bool)
    requires
        call_ensures(char_is_whitespace, (c,), r),
    ensures
        c == ' ' || c == '\n' || c == '\t' || c == '\r' ==> r,
        '!' <= c <= '~' ==> !r,
{
}

// ---- case ------------------------------------------------------------------------

/// In lower case the letters A to Z are a to z, and every other character is itself.
pub proof fn lowering_changes_capitals_only(s: &str, r: String)
    requires
        call_ensures(to_ascii_lowercase, (s,), r),
    ensures
        r@.len() == s@.len(),
        forall|i: int|
            0 <= i < s@.len() ==> if 'A' <= #[trigger] s@[i] <= 'Z' {
                r@[i] as int == s@[i] as int - 'A' as int + 'a' as int
            } else {
                r@[i] == s@[i]
            },
{
}

/// Two texts are the same ignoring case if and only if they are as long, and each
/// character is the other's or the other case of it.
pub proof fn case_is_ignored(a: &str, b: &str, r: bool)
    requires
        call_ensures(eq_ignore_ascii_case, (a, b), r),
    ensures
        r <==> a@.len() == b@.len() && forall|i: int|
            0 <= i < a@.len() ==> #[trigger] a@[i] == b@[i] || 'A' <= a@[i] <= 'Z' && b@[i] as int
                == a@[i] as int + 32 || 'A' <= b@[i] <= 'Z' && a@[i] as int == b@[i] as int + 32,
{
    if r {
        assert(ascii_lower(a@).len() == a@.len());
        assert(ascii_lower(b@).len() == b@.len());
        assert forall|i: int| 0 <= i < a@.len() implies #[trigger] a@[i] == b@[i] || 'A' <= a@[i]
            <= 'Z' && b@[i] as int == a@[i] as int + 32 || 'A' <= b@[i] <= 'Z' && a@[i] as int
            == b@[i] as int + 32 by {
            assert(ascii_lower(a@)[i] == ascii_lower(b@)[i]);
            assert(ascii_lower(a@)[i] == lower_char(a@[i]));
            assert(ascii_lower(b@)[i] == lower_char(b@[i]));
        }
    }
    if a@.len() == b@.len() && forall|i: int|
        0 <= i < a@.len() ==> #[trigger] a@[i] == b@[i] || 'A' <= a@[i] <= 'Z' && b@[i] as int
            == a@[i] as int + 32 || 'A' <= b@[i] <= 'Z' && a@[i] as int == b@[i] as int + 32 {
        assert forall|i: int| 0 <= i < a@.len() implies ascii_lower(a@)[i] == ascii_lower(b@)[i] by {
            assert(a@[i] == b@[i] || 'A' <= a@[i] <= 'Z' && b@[i] as int == a@[i] as int + 32 || 'A'
                <= b@[i] <= 'Z' && a@[i] as int == b@[i] as int + 32);
        }
        assert(ascii_lower(a@) =~= ascii_lower(b@));
    }
}

// ---- parts -----------------------------------------------------------------------

/// A text contains another if and only if it is that with something, or nothing, before
/// and behind it.
pub proof fn contained_texts_are_parts(hay: &str, needle: &str, r: bool)
    requires
        call_ensures(contains, (hay, needle), r),
    ensures
        r <==> exists|a: Seq<char>, b: Seq<char>| hay@ == #[trigger] ((a + needle@) + b),
{
    let h = hay@;
    let n = needle@;
    if r {
        let i = choose|i: int| #[trigger] occurs_at(h, n, i);
        let a = h.take(i);
        let b = h.skip(i + n.len());
        assert(h =~= (a + n) + b);
    }
    if exists|a: Seq<char>, b: Seq<char>| h == #[trigger] ((a + n) + b) {
        let (a, b) = choose|a: Seq<char>, b: Seq<char>| h == #[trigger] ((a + n) + b);
        assert(h.subrange(a.len() as int, a.len() + n.len() as int) =~= n);
        assert(occurs_at(h, n, a.len() as int));
    }
}

/// A text starts or ends with another if and only if the rest of it follows or goes
/// before; what is left without the start is the rest.
pub proof fn starts_and_ends_are_parts(
    s: &str,
    p: &str,
    starts: bool,
    ends: bool,
    rest: Option<&str>,
)
    requires
        call_ensures(starts_with, (s, p), starts),
        call_ensures(ends_with, (s, p), ends),
        call_ensures(strip_prefix, (s, p), rest),
    ensures
        starts <==> exists|b: Seq<char>| s@ == #[trigger] (p@ + b),
        ends <==> exists|a: Seq<char>| s@ == #[trigger] (a + p@),
        rest is Some <==> starts,
        rest matches Some(t) ==> s@ == p@ + t@,
{
    if starts {
        let b = s@.skip(p@.len() as int);
        assert(s@ =~= s@.take(p@.len() as int) + b);
        assert(s@ == p@ + b);
    }
    if exists|b: Seq<char>| s@ == #[trigger] (p@ + b) {
        let b = choose|b: Seq<char>| s@ == #[trigger] (p@ + b);
        assert(s@.take(p@.len() as int) =~= p@);
    }
    if ends {
        let a = s@.take(s@.len() - p@.len());
        assert(s@ =~= a + s@.skip(s@.len() - p@.len()));
        assert(s@ == a + p@);
    }
    if exists|a: Seq<char>| s@ == #[trigger] (a + p@) {
        let a = choose|a: Seq<char>| s@ == #[trigger] (a + p@);
        assert(s@.skip(s@.len() - p@.len()) =~= p@);
    }
}

/// A text is parted at the first place where the character stands.
pub proof fn texts_part_at_the_first(s: &str, c: char, r: Option<(&str, &str)>)
    requires
        call_ensures(split_once, (s, c), r),
    ensures
        r is None <==> !s@.contains(c),
        r matches Some((a, b)) ==> s@ == a@ + seq![c] + b@ && !a@.contains(c),
{
    first_pos_is_first(s@, c);
    let k = first_pos(s@, c);
    if s@.contains(c) {
        let i = choose|i: int| 0 <= i < s@.len() && s@[i] == c;
        assert(k <= i);
    }
    if r is Some {
        let (a, b) = r->0;
        assert(s@ =~= a@ + seq![c] + b@);
        assert(s@[k] == c);
        assert forall|i: int| 0 <= i < a@.len() implies a@[i] != c by {
            assert(a@[i] == s@[i]);
        }
    }
}

/// The pieces of a text: put together with the character between them they are the text
/// again, and none of them holds it.
pub proof fn pieces_make_the_text(s: &str, c: char, r: Vec<String>)
    requires
        call_ensures(split, (s, c), r),
    ensures
        joined(views(r@), seq![c]) == s@,
        forall|i: int| 0 <= i < r@.len() ==> !(#[trigger] r@[i])@.contains(c),
        r@.len() > 0,
{
    pieces_join(s@, c);
    let v = views(r@);
    assert forall|i: int| 0 <= i < r@.len() implies !(#[trigger] r@[i])@.contains(c) by {
        assert(v[i] == r@[i]@);
    }
    assert(v.len() == r@.len());
}

proof fn pieces_join(s: Seq<char>, c: char)
    ensures
        joined(pieces(s, c), seq![c]) == s,
        forall|i: int| 0 <= i < pieces(s, c).len() ==> !(#[trigger] pieces(s, c)[i]).contains(c),
        pieces(s, c).len() > 0,
    decreases s.len(),
{
    let k = first_pos(s, c);
    first_pos_is_first(s, c);
    let all = pieces(s, c);
    if k < s.len() {
        let rest = s.skip(k + 1);
        pieces_join(rest, c);
        join_front(s.take(k), pieces(rest, c), seq![c]);
        assert(s =~= s.take(k) + seq![c] + rest);
        assert forall|i: int| 0 <= i < all.len() implies !(#[trigger] all[i]).contains(c) by {
            if i > 0 {
                assert(all[i] == pieces(rest, c)[i - 1]);
            } else {
                assert forall|j: int| 0 <= j < s.take(k).len() implies s.take(k)[j] != c by {
                    assert(s.take(k)[j] == s[j]);
                }
            }
        }
    } else {
        assert(all[0] == s);
    }
}

proof fn join_front(x: Seq<char>, v: Seq<Seq<char>>, sep: Seq<char>)
    requires
        v.len() > 0,
    ensures
        joined(seq![x] + v, sep) == x + sep + joined(v, sep),
    decreases v.len(),
{
    let all = seq![x] + v;
    assert(all.last() == v.last());
    assert(all.drop_last() =~= seq![x] + v.drop_last());
    if v.len() == 1 {
        assert(all.drop_last() =~= seq![x]);
        assert(joined(all.drop_last(), sep) == x);
    } else {
        join_front(x, v.drop_last(), sep);
        assert(x + sep + joined(v.drop_last(), sep) + sep + v.last() =~= x + sep + (joined(
            v.drop_last(),
            sep,
        ) + sep + v.last()));
    }
}

/// Texts that are joined stand one behind the other with the separator between each two.
pub proof fn joined_texts_stand_in_order(a: Seq<Seq<char>>, b: Seq<Seq<char>>, x: Seq<char>, sep: Seq<char>)
    ensures
        joined(seq![], sep).len() == 0,
        joined(seq![x], sep) == x,
        a.len() > 0 && b.len() > 0 ==> joined(a + b, sep) == joined(a, sep) + sep + joined(b, sep),
    decreases b.len(),
{
    let one = seq![x];
    assert(one[0] == x);
    if a.len() > 0 && b.len() > 0 {
        let all = a + b;
        assert(all.drop_last() =~= a + b.drop_last());
        assert(all.last() == b.last());
        if b.len() == 1 {
            assert(all.drop_last() =~= a);
        } else {
            joined_texts_stand_in_order(a, b.drop_last(), x, sep);
            assert(joined(a, sep) + sep + joined(b.drop_last(), sep) + sep + b.last() =~= joined(
                a,
                sep,
            ) + sep + (joined(b.drop_last(), sep) + sep + b.last()));
        }
    }
}

proof fn word_runs(s: Seq<char>)
    ensures
        0 <= word_len(s) <= s.len(),
        forall|i: int| 0 <= i < word_len(s) ==> !is_ascii_whitespace(#[trigger] s[i]),
        s.len() > 0 && !is_ascii_whitespace(s[0]) ==> word_len(s) > 0,
    decreases s.len(),
{
    if s.len() > 0 && !is_ascii_whitespace(s[0]) {
        word_runs(s.skip(1));
        assert forall|i: int| 0 <= i < word_len(s) implies !is_ascii_whitespace(#[trigger] s[i]) by {
            if i > 0 {
                assert(s.skip(1)[i - 1] == s[i]);
            }
        }
    }
}

/// The words of a text are not empty and hold no blanks, and together they are every
/// character of it that is no blank, in order.
pub proof fn words_are_all_that_is_no_blank(s: Seq<char>)
    ensures
        forall|i: int, j: int|
            0 <= i < ascii_words(s).len() && 0 <= j < ascii_words(s)[i].len()
                ==> !is_ascii_whitespace(#[trigger] ascii_words(s)[i][j]),
        forall|i: int| 0 <= i < ascii_words(s).len() ==> (#[trigger] ascii_words(s)[i]).len() > 0,
        ascii_words(s).flatten() == s.filter(|c: char| !is_ascii_whitespace(c)),
    decreases s.len(),
{
    let p = |c: char| !is_ascii_whitespace(c);
    let w = ascii_words(s);
    if s.len() == 0 {
        reveal(Seq::filter);
        assert(s.filter(p) =~= seq![]);
    } else if is_ascii_whitespace(s[0]) {
        words_are_all_that_is_no_blank(s.skip(1));
        assert(s =~= seq![s[0]] + s.skip(1));
        Seq::filter_distributes_over_add(seq![s[0]], s.skip(1), p);
        reveal(Seq::filter);
        let one = seq![s[0]];
        assert(one.drop_last() =~= seq![]);
        assert(one.drop_last().filter(p) =~= seq![]);
        assert(one.filter(p) =~= seq![]);
        assert(seq![] + s.skip(1).filter(p) =~= s.skip(1).filter(p));
    } else {
        word_runs(s);
        let k = word_len(s);
        let rest = s.skip(k);
        words_are_all_that_is_no_blank(rest);
        assert(s =~= s.take(k) + rest);
        Seq::filter_distributes_over_add(s.take(k), rest, p);
        all_kept(s.take(k), p);
        assert(w =~= seq![s.take(k)] + ascii_words(rest));
        assert(w.first() == s.take(k));
        assert(w.drop_first() =~= ascii_words(rest));
        assert forall|i: int, j: int|
            0 <= i < w.len() && 0 <= j < w[i].len() implies !is_ascii_whitespace(
            #[trigger] w[i][j],
        ) by {
            if i == 0 {
                assert(w[0][j] == s[j]);
            } else {
                assert(w[i] == ascii_words(rest)[i - 1]);
                assert(!is_ascii_whitespace(ascii_words(rest)[i - 1][j]));
            }
        }
        assert forall|i: int| 0 <= i < w.len() implies (#[trigger] w[i]).len() > 0 by {
            if i > 0 {
                assert(w[i] == ascii_words(rest)[i - 1]);
            }
        }
    }
}

proof fn all_kept(s: Seq<char>, p: spec_fn(char) -> bool)
    requires
        forall|i: int| 0 <= i < s.len() ==> p(#[trigger] s[i]),
    ensures
        s.filter(p) == s,
    decreases s.len(),
{
    reveal(Seq::filter);
    if s.len() > 0 {
        assert forall|i: int| 0 <= i < s.drop_last().len() implies p(#[trigger] s.drop_last()[i]) by {
            assert(p(s[i]));
        }
        all_kept(s.drop_last(), p);
        assert(p(s[s.len() - 1]));
        assert(s =~= s.drop_last().push(s.last()));
    } else {
        assert(s.filter(p) =~= s);
    }
}

/// Where a text occurs for the first time it is replaced, and what follows it in turn;
/// a text without it stays as it is.
pub proof fn first_place_is_replaced(
    a: Seq<char>,
    from: Seq<char>,
    b: Seq<char>,
    to: Seq<char>,
)
    requires
        from.len() > 0,
        forall|i: int| 0 <= i < a.len() ==> !(#[trigger] occurs_at(a + from + b, from, i)),
    ensures
        replaced(a + from + b, from, to) == a + to + replaced(b, from, to),
    decreases a.len(),
{
    let s = a + from + b;
    if a.len() == 0 {
        assert(s.take(from.len() as int) =~= from);
        assert(s.skip(from.len() as int) =~= b);
        assert(a + to + replaced(b, from, to) =~= to + replaced(b, from, to));
    } else {
        if has_prefix(s, from) {
            assert(s.subrange(0, from.len() as int) =~= s.take(from.len() as int));
            assert(occurs_at(a + from + b, from, 0));
        }
        let t = a.skip(1);
        assert(s.skip(1) =~= t + from + b);
        assert forall|i: int| 0 <= i < t.len() implies !(#[trigger] occurs_at(
            t + from + b,
            from,
            i,
        )) by {
            if occurs_at(t + from + b, from, i) {
                assert(s.subrange(i + 1, i + 1 + from.len()) =~= (t + from + b).subrange(
                    i,
                    i + from.len(),
                ));
                assert(occurs_at(a + from + b, from, i + 1));
            }
        }
        first_place_is_replaced(t, from, b, to);
        assert(seq![s[0]] + (t + to + replaced(b, from, to)) =~= a + to + replaced(b, from, to));
    }
}

/// A text without the other stays as it is.
pub proof fn nothing_else_is_replaced(s: Seq<char>, from: Seq<char>, to: Seq<char>)
    requires
        from.len() > 0,
        !has_text(s, from),
    ensures
        replaced(s, from, to) == s,
    decreases s.len(),
{
    if s.len() > 0 {
        if has_prefix(s, from) {
            assert(s.subrange(0, from.len() as int) =~= s.take(from.len() as int));
            assert(occurs_at(s, from, 0));
        }
        if has_text(s.skip(1), from) {
            let i = choose|i: int| #[trigger] occurs_at(s.skip(1), from, i);
            assert(s.subrange(i + 1, i + 1 + from.len()) =~= s.skip(1).subrange(
                i,
                i + from.len(),
            ));
            assert(occurs_at(s, from, i + 1));
        }
        nothing_else_is_replaced(s.skip(1), from, to);
        assert(s =~= seq![s[0]] + s.skip(1));
    } else {
        assert(replaced(s, from, to) =~= s);
    }
}

// ---- numbers ---------------------------------------------------------------------

/// The number that a row of digits stands for.
pub open spec fn number_of(s: Seq<char>) -> int
    decreases s.len(),
{
    if s.len() == 0 {
        0
    } else {
        10 * number_of(s.drop_last()) + (s.last() as int - '0' as int)
    }
}

/// A number is written with digits, without a zero before it, and reads back as itself.
pub proof fn numbers_read_back(n: nat)
    ensures
        number_of(decimal(n)) == n,
        decimal(n).len() > 0,
        forall|i: int| 0 <= i < decimal(n).len() ==> '0' <= #[trigger] decimal(n)[i] <= '9',
        n > 0 ==> decimal(n)[0] != '0',
    decreases n,
{
    let s = decimal(n);
    if n < 10 {
        assert(s.drop_last() =~= seq![]);
        assert(number_of(s.drop_last()) == 0);
        assert(s.last() == digit(n));
        assert(digit(n) as int == 48 + n);
    } else {
        numbers_read_back(n / 10);
        assert(s.drop_last() =~= decimal(n / 10));
        assert(s.last() == digit(n % 10));
        assert(digit(n % 10) as int == 48 + n % 10);
        assert(s[0] == decimal(n / 10)[0]);
        assert forall|i: int| 0 <= i < s.len() implies '0' <= #[trigger] s[i] <= '9' by {
            if i < s.len() - 1 {
                assert(s[i] == decimal(n / 10)[i]);
            }
        }
    }
}

/// Different numbers are written differently.
pub proof fn numbers_are_told_apart(a: u64, b: u64, s: String, t: String)
    requires
        call_ensures(decimal_string, (a,), s),
        call_ensures(decimal_string, (b,), t),
    ensures
        number_of(s@) == a,
        s@ == t@ ==> a == b,
{
    numbers_read_back(a as nat);
    numbers_read_back(b as nat);
}

// ---- lengths ---------------------------------------------------------------------

proof fn widths_are_those_of_utf8(c: char)
    ensures
        encode_scalar(c as u32).len() == utf8_width(c),
{
    vstd::utf8::char_is_scalar(c);
}

/// The length in bytes is that of the text in UTF-8.
pub proof fn lengths_are_those_of_utf8(s: Seq<char>)
    ensures
        byte_len(s) == encode_utf8(s).len(),
    decreases s.len(),
{
    if s.len() > 0 {
        lengths_are_those_of_utf8(s.skip(1));
        assert(s.drop_first() =~= s.skip(1));
        widths_are_those_of_utf8(s[0]);
        reveal_with_fuel(encode_utf8, 2);
        assert(encode_utf8(s) == encode_scalar(s[0] as u32) + encode_utf8(s.drop_first()));
    }
}

/// What fits in a number of bytes is the longest start of the text that does.
pub proof fn longest_start_fits(s: Seq<char>, n: int)
    requires
        n >= 0,
    ensures
        0 <= fitting(s, n) <= s.len(),
        byte_len(s.take(fitting(s, n))) <= n,
        fitting(s, n) < s.len() ==> byte_len(s.take(fitting(s, n) + 1)) > n,
    decreases s.len(),
{
    if s.len() > 0 && utf8_width(s[0]) <= n {
        let rest = s.skip(1);
        let m = n - utf8_width(s[0]);
        longest_start_fits(rest, m);
        let k = fitting(rest, m);
        let a = s.take(k + 1);
        assert(a.skip(1) =~= rest.take(k));
        assert(a[0] == s[0]);
        if k < rest.len() {
            let b = s.take(k + 2);
            assert(b.skip(1) =~= rest.take(k + 1));
            assert(b[0] == s[0]);
        }
    } else {
        assert(s.take(0) =~= seq![]);
        if s.len() > 0 {
            let b = s.take(1);
            assert(b[0] == s[0]);
            assert(byte_len(b.skip(1)) >= 0);
        }
    }
}

// ---- calls -------------------------------------------------------------------------

/// The other functions on texts give what is said of them here.
pub proof fn texts_are_joined_split_and_replaced(
    parts: &Vec<String>,
    sep: &str,
    j: String,
    s: &str,
    words: Vec<String>,
    from: &str,
    to: &str,
    r: String,
)
    requires
        call_ensures(join, (parts, sep), j),
        call_ensures(split_ascii_whitespace, (s,), words),
        call_ensures(replace, (s, from, to), r),
    ensures
        j@ == joined(views(parts@), sep@),
        views(words@).flatten() == s@.filter(|c: char| !is_ascii_whitespace(c)),
        from@.len() > 0 && !has_text(s@, from@) ==> r@ == s@,
{
    words_are_all_that_is_no_blank(s@);
    if from@.len() > 0 && !has_text(s@, from@) {
        nothing_else_is_replaced(s@, from@, to@);
    }
}

/// In ASCII both cases are told by the letters alone.
pub proof fn ascii_letters_have_two_cases(s: &str, low: String, up: String, i: int)
    requires
        call_ensures(lowercase, (s,), low),
        call_ensures(uppercase, (s,), up),
        forall|k: int| 0 <= k < s@.len() ==> #[trigger] s@[k] <= '\u{7f}',
        0 <= i < s@.len(),
    ensures
        low@.len() == s@.len() && up@.len() == s@.len(),
        'A' <= s@[i] <= 'Z' ==> low@[i] as int == s@[i] as int + 32 && up@[i] == s@[i],
        'a' <= s@[i] <= 'z' ==> up@[i] as int == s@[i] as int - 32 && low@[i] == s@[i],
        !('A' <= s@[i] <= 'Z') && !('a' <= s@[i] <= 'z') ==> low@[i] == s@[i] && up@[i] == s@[i],
{
}

/// How much of a text fits, and whether all of it does, is told by its bytes in UTF-8.
pub proof fn fitting_is_told_by_bytes(s: &str, max: usize, r: (usize, bool), n: Option<usize>)
    requires
        call_ensures(byte_prefix, (s, max), r),
        call_ensures(bytes_up_to, (s, max), n),
    ensures
        encode_utf8(s@.take(r.0 as int)).len() <= max,
        r.0 < s@.len() ==> encode_utf8(s@.take(r.0 + 1)).len() > max,
        r.1 <==> encode_utf8(s@).len() <= max,
        n is Some <==> encode_utf8(s@).len() <= max,
        n matches Some(k) ==> k == encode_utf8(s@).len(),
{
    longest_start_fits(s@, max as int);
    lengths_are_those_of_utf8(s@);
    lengths_are_those_of_utf8(s@.take(r.0 as int));
    if r.0 < s@.len() {
        lengths_are_those_of_utf8(s@.take(r.0 + 1));
    }
}

} // verus!
