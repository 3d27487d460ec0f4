//! What holds of forms and of the URLs that they are sent to.
use crate::text::{first_pos, first_pos_is_first};
use crate::urls::{
    extended, form_byte, form_bytes, form_encoded, form_pair, form_plain, upper_hex, url_text,
    with_query, PiecesModel,
};
use vstd::prelude::*;
use vstd::string::*;
use vstd::utf8::{decode_utf8, encode_utf8, encode_utf8_decode_utf8};

verus! {

/// The number that a digit of base sixteen stands for.
pub open spec fn digit_of(c: char) -> int {
    if '0' <= c <= '9' {
        c as int - '0' as int
    } else if 'A' <= c <= 'F' {
        c as int - 'A' as int + 10
    } else {
        c as int - 'a' as int + 10
    }
}

/// The bytes that a part of a form stands for.
pub open spec fn form_part(s: Seq<char>) -> Seq<u8>
    decreases s.len(),
{
    if s.len() == 0 {
        seq![]
    } else if s[0] == '+' {
        seq![32u8] + form_part(s.skip(1))
    } else if s[0] == '%' && s.len() >= 3 {
        seq![(16 * digit_of(s[1]) + digit_of(s[2])) as u8] + form_part(s.skip(3))
    } else {
        seq![s[0] as u8] + form_part(s.skip(1))
    }
}

/// The name and the value in a piece of a form.
pub open spec fn form_field(s: Seq<char>) -> (Seq<char>, Seq<char>) {
    let k = first_pos(s, '=');
    (
        decode_utf8(form_part(s.take(k))),
        decode_utf8(
            form_part(
                if k < s.len() {
                    s.skip(k + 1)
                } else {
                    seq![]
                },
            ),
        ),
    )
}

/// The fields that a form holds which was written as `application/x-www-form-urlencoded`.
pub open spec fn form_fields(s: Seq<char>) -> Seq<(Seq<char>, Seq<char>)>
    decreases s.len(),
{
    let k = first_pos(s, '&');
    if s.len() == 0 {
        seq![]
    } else if 0 <= k < s.len() {
        seq![form_field(s.take(k))] + form_fields(s.skip(k + 1))
    } else {
        seq![form_field(s)]
    }
}

proof fn bytes_read_back(b: Seq<u8>)
    ensures
        form_part(form_bytes(b)) == b,
        forall|i: int|
            0 <= i < form_bytes(b).len() ==> #[trigger] form_bytes(b)[i] != '&' && form_bytes(b)[i]
                != '=',
    decreases b.len(),
{
    if b.len() > 0 {
        let rest = b.skip(1);
        bytes_read_back(rest);
        let t = form_bytes(rest);
        let all = form_bytes(b);
        let h = form_byte(b[0]);
        assert(all == h + t);
        assert(b =~= seq![b[0]] + rest);
        let (x, y) = (b[0] as int / 16, b[0] as int % 16);
        assert(0 <= x < 16 && 0 <= y < 16);
        assert(digit_of(upper_hex(x)) == x && digit_of(upper_hex(y)) == y);
        assert(16 * x + y == b[0]);
        assert(all.skip(h.len() as int) =~= t);
        if form_plain(b[0]) {
            assert(h[0] as u8 == b[0]);
        }
        assert(form_part(all) =~= b);
        assert forall|i: int| 0 <= i < all.len() implies #[trigger] all[i] != '&' && all[i] != '=' by {
            if i >= h.len() {
                assert(all[i] == t[i - h.len()]);
            } else {
                assert(all[i] == h[i]);
            }
        }
    }
}

proof fn first_pos_of(a: Seq<char>, c: char, b: Seq<char>)
    requires
        forall|i: int| 0 <= i < a.len() ==> #[trigger] a[i] != c,
    ensures
        first_pos(a + seq![c] + b, c) == a.len(),
        first_pos(a, c) == a.len(),
{
    let s = a + seq![c] + b;
    first_pos_is_first(s, c);
    first_pos_is_first(a, c);
    let k = first_pos(s, c);
    assert(s[a.len() as int] == c);
    if k < a.len() {
        assert(s[k] == a[k]);
    }
}

proof fn pair_reads_back(p: (Seq<char>, Seq<char>))
    ensures
        form_field(form_pair(p)) == p,
        form_pair(p).len() > 0,
        forall|i: int| 0 <= i < form_pair(p).len() ==> #[trigger] form_pair(p)[i] != '&',
{
    reveal_strlit("=");
    let a = form_bytes(encode_utf8(p.0));
    let b = form_bytes(encode_utf8(p.1));
    bytes_read_back(encode_utf8(p.0));
    bytes_read_back(encode_utf8(p.1));
    encode_utf8_decode_utf8(p.0);
    encode_utf8_decode_utf8(p.1);
    let s = form_pair(p);
    assert(s =~= a + seq!['='] + b);
    first_pos_of(a, '=', b);
    assert(s.take(a.len() as int) =~= a);
    assert(s.skip(a.len() + 1int) =~= b);
    assert forall|i: int| 0 <= i < s.len() implies #[trigger] s[i] != '&' by {
        if i < a.len() {
            assert(s[i] == a[i]);
        } else if i > a.len() {
            assert(s[i] == b[i - a.len() - 1]);
        }
    }
}

/// What is written for a form is read as its fields: all of them, in order.
pub proof fn forms_read_back(pairs: Seq<(Seq<char>, Seq<char>)>)
    ensures
        form_fields(form_encoded(pairs)) == pairs,
    decreases pairs.len(),
{
    if pairs.len() > 0 {
        let p = form_pair(pairs[0]);
        pair_reads_back(pairs[0]);
        if pairs.len() == 1 {
            first_pos_of(p, '&', seq![]);
            assert(form_fields(p) =~= pairs);
        } else {
            reveal_strlit("&");
            let rest = form_encoded(pairs.skip(1));
            forms_read_back(pairs.skip(1));
            let s = form_encoded(pairs);
            assert(s =~= p + seq!['&'] + rest);
            first_pos_of(p, '&', rest);
            assert(s.take(p.len() as int) =~= p);
            assert(s.skip(p.len() + 1int) =~= rest);
            assert(form_fields(s) =~= pairs);
        }
    }
}

/// Forms that differ in any field are written differently.
pub proof fn different_forms_differ(a: Seq<(Seq<char>, Seq<char>)>, b: Seq<(Seq<char>, Seq<char>)>)
    requires
        a != b,
    ensures
        form_encoded(a) != form_encoded(b),
{
    forms_read_back(a);
    forms_read_back(b);
}

proof fn fields_add_up(a: Seq<char>, pairs: Seq<(Seq<char>, Seq<char>)>)
    requires
        a.len() > 0,
        a.last() != '&',
        pairs.len() > 0,
    ensures
        form_fields(a + seq!['&'] + form_encoded(pairs)) == form_fields(a) + pairs,
    decreases a.len(),
{
    let e = form_encoded(pairs);
    let s = a + seq!['&'] + e;
    let k = first_pos(a, '&');
    first_pos_is_first(a, '&');
    forms_read_back(pairs);
    if k < a.len() {
        let front = a.take(k);
        let rest = a.skip(k + 1);
        assert(a =~= front + seq!['&'] + rest);
        assert(s =~= front + seq!['&'] + (rest + seq!['&'] + e));
        first_pos_of(front, '&', rest + seq!['&'] + e);
        assert(s.take(k) =~= front);
        assert(s.skip(k + 1) =~= rest + seq!['&'] + e);
        assert(rest.last() == a.last());
        fields_add_up(rest, pairs);
        assert(form_fields(s) =~= form_fields(a) + pairs);
    } else {
        first_pos_of(a, '&', e);
        assert(s.take(a.len() as int) =~= a);
        assert(s.skip(a.len() + 1int) =~= e);
        assert(form_fields(s) =~= form_fields(a) + pairs);
    }
}

/// A query that pairs are put behind holds what it held, and then the pairs. (One that
/// ends in a separator holds an empty field there, which is left out here.)
pub proof fn queries_are_extended(p: PiecesModel, pairs: Seq<(Seq<char>, Seq<char>)>)
    requires
        p.query matches Some(q) ==> q.len() == 0 || q.last() != '&',
    ensures
        with_query(p, pairs).query is Some,
        form_fields(with_query(p, pairs).query->0) == form_fields(
            match p.query {
                Some(q) => q,
                None => seq![],
            },
        ) + pairs,
        with_query(p, pairs).before == p.before,
        with_query(p, pairs).fragment == p.fragment,
{
    reveal_strlit("&");
    forms_read_back(pairs);
    let e = form_encoded(pairs);
    match p.query {
        Some(q) => {
            if q.len() > 0 && pairs.len() > 0 {
                fields_add_up(q, pairs);
                assert(extended(p.query, pairs) =~= q + seq!['&'] + e);
            } else if q.len() == 0 {
                assert(extended(p.query, pairs) =~= e);
                assert(form_fields(q) + pairs =~= pairs);
            } else {
                assert(extended(p.query, pairs) =~= q);
                assert(form_fields(q) + pairs =~= form_fields(q));
            }
        },
        None => {
            assert(form_fields(seq![]) + pairs =~= pairs);
        },
    }
}

/// A URL starts with what comes before its query, and its query stands behind the first
/// question mark after that, up to the fragment.
pub proof fn urls_hold_their_parts(p: PiecesModel)
    ensures
        url_text(p).take(p.before.len() as int) == p.before,
        p.query matches Some(q) ==> url_text(p).len() > p.before.len() && url_text(
            p,
        )[p.before.len() as int] == '?' && url_text(p).subrange(
            p.before.len() + 1int,
            p.before.len() + 1int + q.len(),
        ) == q,
        p.fragment matches Some(f) ==> url_text(p).len() > f.len() && url_text(
            p,
        )[url_text(p).len() - f.len() - 1] == '#' && url_text(p).skip(
            url_text(p).len() - f.len(),
        ) == f,
        url_text(p).len() == p.before.len() + (match p.query {
            Some(q) => 1 + q.len(),
            None => 0,
        }) + (match p.fragment {
            Some(f) => 1 + f.len(),
            None => 0,
        }),
{
    reveal_strlit("?");
    reveal_strlit("#");
    let u = url_text(p);
    assert(u.take(p.before.len() as int) =~= p.before);
    if p.query is Some {
        let q = p.query->0;
        assert(u.subrange(p.before.len() + 1int, p.before.len() + 1int + q.len()) =~= q);
    }
    if p.fragment is Some {
        let f = p.fragment->0;
        assert(u.skip(u.len() - f.len()) =~= f);
    }
}

} // verus!
