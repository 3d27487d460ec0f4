//! What scripts come to on a page.
use crate::dom::find::has_attr_named;
use crate::dom::html::serialized;
use crate::dom::model::{known, plain, subtree, walkable, NodeModel};
use crate::dom::{attr_at, selected_are_known, selected_below, text_at, NodeId};
use crate::fetch::client::FetchRequest;
use crate::js::{
    after_script, asked_for, eval_alone, eval_on_page, next_stealth_seed, node_arg, resolve_url,
    script_texts, seed_script, wait_over, Error, Page, ScriptOutcome,
};
use crate::snapshot::pages::attributes_are_found_by_name;
use crate::text::{decimal, has_prefix, has_text, trimmed, views};
use crate::urls::{joined_url, origin_of, parsed_url};
use http::{HeaderMap, HeaderValue};
use vstd::prelude::*;
use vstd::string::*;
use vstd::utf8::encode_utf8;

verus! {

/// What a script gives is its value; what it fails with is its error, under its own
/// message where it has one.
pub proof fn outcomes_are_told(o: ScriptOutcome, r: Result<String, Error>)
    requires
        call_ensures(eval_on_page, (o,), r),
    ensures
        r is Ok <==> o is Value,
        o matches ScriptOutcome::Value(s) ==> r->Ok_0@ == s@,
        o is NoSource || o is NoText ==> r->Err_0 is Convert,
        o is NotCompiled ==> r->Err_0 is Compile,
        o matches ScriptOutcome::NotCompiled(Some(m)) ==> r->Err_0->Compile_0@ == m@,
        o matches ScriptOutcome::Stopped(true, _) ==> r->Err_0 is NavTerminated,
        o matches ScriptOutcome::Stopped(false, Some(m)) ==> (has_text(
            m@,
            "bouncy:nav-terminated"@,
        ) ==> r->Err_0 is NavTerminated) && (!has_text(m@, "bouncy:nav-terminated"@) && m@.len() > 0
            ==> r->Err_0 is Runtime && r->Err_0->Runtime_0@ == m@),
{
    assert(r is Err ==> crate::js::result_view(r) is Err);
}

/// Alone, without a page, a script that is stopped has failed, whatever it asked for.
pub proof fn lone_scripts_do_not_navigate(o: ScriptOutcome, r: Result<String, Error>)
    requires
        call_ensures(eval_alone, (o,), r),
    ensures
        r is Ok <==> o is Value,
        o matches ScriptOutcome::Value(s) ==> r->Ok_0@ == s@,
        o matches ScriptOutcome::Stopped(_, Some(m)) ==> r->Err_0 is Runtime
            && r->Err_0->Runtime_0@ == m@,
        o matches ScriptOutcome::NotCompiled(Some(m)) ==> r->Err_0 is Compile
            && r->Err_0->Compile_0@ == m@,
{
}

/// A script that asked for another page lets those behind it run; any other failure does
/// not.
pub proof fn failures_stop_the_scripts(result: Result<String, Error>, r: Result<(), Error>)
    requires
        call_ensures(after_script, (result,), r),
    ensures
        r is Ok <==> result is Ok || result->Err_0 is NavTerminated,
        r is Err ==> r->Err_0 == result->Err_0,
{
}

/// An absolute URL stays as it is; any other is resolved against the page's, and there is
/// none without a page.
pub proof fn script_urls_are_resolved(base: &str, target: &str, r: Result<String, String>)
    requires
        call_ensures(resolve_url, (base, target), r),
    ensures
        has_prefix(target@, "http://"@) || has_prefix(target@, "https://"@) ==> r is Ok
            && r->Ok_0@ == target@,
        !has_prefix(target@, "http://"@) && !has_prefix(target@, "https://"@) && base@.len() == 0
            ==> r is Err,
        !has_prefix(target@, "http://"@) && !has_prefix(target@, "https://"@) && base@.len() > 0
            ==> crate::urls::text_result(r) == joined_url(base@, target@),
{
}

/// The page that a script asks for is the URL, resolved against the page's where that can
/// be done; an empty one asks for nothing.
pub proof fn scripts_ask_for_pages(
    pending: Option<Seq<char>>,
    base: &str,
    url: &str,
    resolved: Result<String, String>,
)
    requires
        call_ensures(resolve_url, (base, url), resolved),
    ensures
        url@.len() == 0 ==> asked_for(pending, base@, url@) == pending,
        url@.len() > 0 && resolved is Ok ==> asked_for(pending, base@, url@) == Some(
            resolved->Ok_0@,
        ),
        url@.len() > 0 && resolved is Err ==> asked_for(pending, base@, url@) == Some(url@),
{
}

/// The scripts of a page are the texts of its script elements that have no source and are
/// not blank, all of them, in document order.
pub proof fn inline_scripts_are_all_run(page: &Page, r: Vec<String>)
    requires
        walkable(page.doc@),
        call_ensures(Page::inline_scripts, (page,), r),
    ensures
        ({
            let d = page.doc@;
            views(r@) == selected_below(d, 0, "script"@).filter(
                |i: int|
                    !has_attr_named(d[i].kind, "src"@) && trimmed(text_at(d, i, true)).len() > 0,
            ).map_values(|i: int| text_at(d, i, true))
        }),
{
    let d = page.doc@;
    let s = selected_below(d, 0, "script"@);
    selected_are_known(d, 0, "script"@);
    assert forall|i: int| 0 <= i < s.len() implies known(d, #[trigger] s[i]) by {}
    scripts_are_filtered(d, s);
}

proof fn scripts_are_filtered(d: Seq<NodeModel>, s: Seq<int>)
    requires
        forall|i: int| 0 <= i < s.len() ==> known(d, #[trigger] s[i]),
    ensures
        script_texts(d, s) == s.filter(
            |i: int| !has_attr_named(d[i].kind, "src"@) && trimmed(text_at(d, i, true)).len() > 0,
        ).map_values(|i: int| text_at(d, i, true)),
    decreases s.len(),
{
    reveal(Seq::filter);
    let p = |i: int|
        !has_attr_named(d[i].kind, "src"@) && trimmed(text_at(d, i, true)).len() > 0;
    let f = |i: int| text_at(d, i, true);
    if s.len() == 0 {
        assert(s.filter(p).map_values(f) =~= seq![]);
    } else {
        let front = s.drop_last();
        assert forall|i: int| 0 <= i < front.len() implies known(d, #[trigger] front[i]) by {
            assert(front[i] == s[i]);
        }
        scripts_are_filtered(d, front);
        let x = s.last();
        assert(known(d, s[s.len() - 1]));
        attributes_are_found_by_name(d[x].kind, "src"@, seq![]);
        if p(x) {
            assert(s.filter(p).map_values(f) =~= front.filter(p).map_values(f).push(f(x)));
        }
    }
}

/// A script's request goes to its URL, with its method, which is GET where it names none,
/// and its body.
pub proof fn script_requests_are_sent_as_told(
    page: &Page,
    url: &str,
    method: &str,
    body: &str,
    resolved: Result<String, String>,
    r: Result<FetchRequest, String>,
)
    requires
        call_ensures(Page::plan_fetch, (page, url, method, body), r),
        resolved matches Ok(u) ==> crate::js::script_url(page.base_url@, url@) == Ok::<
            Seq<char>,
            Seq<char>,
        >(u@),
        resolved is Err ==> crate::js::script_url(page.base_url@, url@) is Err,
    ensures
        r is Ok <==> resolved is Ok,
        r matches Ok(q) ==> {
            &&& q.url@ == resolved->Ok_0@
            &&& method@.len() > 0 ==> q.method@ == method@
            &&& method@.len() == 0 ==> q.method@ == "GET"@
            &&& q.body@ == encode_utf8(body@)
        },
{
    if r is Ok {
        let q = r->Ok_0;
        assert(q@.url == q.url@ && q@.method == q.method@ && q@.body == q.body@);
        if body@.len() == 0 {
            assert(encode_utf8(body@) =~= seq![]);
        }
    }
}

/// A script's request carries the cookies that the page keeps for its target's origin, and
/// no header where it keeps none.
pub proof fn script_requests_carry_cookies(
    page: &Page,
    url: &str,
    method: &str,
    body: &str,
    q: FetchRequest,
    origin: Seq<char>,
)
    requires
        call_ensures(Page::plan_fetch, (page, url, method, body), Ok::<FetchRequest, String>(q)),
        parsed_url(q.url@) is Some,
        origin_of(parsed_url(q.url@)->0) == Some(origin),
    ensures
        !page.cookies@.dom().contains(origin) ==> q.headers@.len() == 0,
        forall|name: Seq<char>|
            page.cookies@.dom().contains(origin) && #[trigger] page.cookies@[origin].dom().contains(
                name,
            ) ==> q.headers@.len() == 1 && q.headers@[0].0@ == "Cookie"@
                && crate::fetch::cookies::is_cookie_header(
                page.cookies@[origin],
                q.headers@[0].1@,
            ),
{
    assert(q@.url == q.url@);
    assert(q@.headers.len() == q.headers@.len());
    let jar = page.cookies@;
    assert forall|name: Seq<char>|
        jar.dom().contains(origin) && #[trigger] jar[origin].dom().contains(
            name,
        ) implies q.headers@.len() == 1 && q.headers@[0].0@ == "Cookie"@
        && crate::fetch::cookies::is_cookie_header(jar[origin], q.headers@[0].1@) by {
        assert(!Set::<Seq<char>>::empty().contains(name));
        assert(q@.headers[0] == (q.headers@[0].0@, q.headers@[0].1@));
    }
}

/// A wait is over when what was waited for is there, or the time has passed; what was
/// found counts even then.
pub proof fn waits_end(found: bool, elapsed_ms: u64, timeout_ms: u64, r: Option<bool>)
    requires
        call_ensures(wait_over, (found, elapsed_ms, timeout_ms), r),
    ensures
        found ==> r == Some(true),
        !found && elapsed_ms >= timeout_ms ==> r == Some(false),
        !found && elapsed_ms < timeout_ms ==> r is None,
{
}

/// A page that was just loaded asks for nothing, keeps no cookies and has its URL.
pub proof fn fresh_pages_are_clean(html: &str, base_url: &str, p: Page)
    requires
        call_ensures(Page::load, (html, base_url), Ok::<Page, Error>(p)),
    ensures
        p.base_url@ == base_url@,
        p.pending_nav is None,
        forall|o: Seq<char>| !(#[trigger] p.cookies@.dom().contains(o)),
        p.valid(),
{
    assert(p.cookies@.dom() == Set::<Seq<char>>::empty());
}

/// A page gives the HTML of any node that it knows, and of no other.
pub proof fn pages_give_html(page: &Page, raw: u32, r: Option<String>, whole: String)
    requires
        call_ensures(Page::outer_html, (page, raw), r),
        call_ensures(Page::dump_html, (page,), whole),
    ensures
        r is Some <==> known(page.doc@, raw as int),
        r matches Some(html) ==> html@ == serialized(
            plain(subtree(page.doc@, raw as int)),
            true,
        ),
        whole@ == serialized(plain(subtree(page.doc@, 0)), false),
{
}

/// A number from a script is a node's, except for the greatest, which stands for none.
pub proof fn node_numbers_are_nodes(n: Option<u32>, r: Option<NodeId>)
    requires
        call_ensures(node_arg, (n,), r),
    ensures
        r is Some <==> n is Some && n->0 < u32::MAX,
        r matches Some(id) ==> Some(id.0) == n,
{
}

/// The script that sets the seed sets this one.
pub proof fn seeds_are_set(seed: u32, r: String)
    requires
        call_ensures(seed_script, (seed,), r),
    ensures
        r@ == "globalThis.__bouncy_stealth_seed = "@ + decimal(seed as nat) + ";"@,
{
}

/// A seed depends on the time and the counter only through one number, the time times the
/// golden ratio's odd number with the counter's bits turned over; and it is that number,
/// spread by two shifts and one more odd number, with its upper half folded onto the lower.
pub proof fn seeds_mix_time_and_counter(nanos: u64, counter: u64, r: u32, a: u64, c: u64)
    requires
        call_ensures(next_stealth_seed, (nanos, counter), r),
        a as int == nanos as int * 11400714819323198485 % 18446744073709551616,
        c as int == ((a ^ counter) ^ ((a ^ counter) >> 33)) as int * 18397679294719823053
            % 18446744073709551616,
    ensures
        ({
            let e = c ^ (c >> 33);
            r == ((e % 4294967296) as u32) ^ ((e >> 32) as u32)
        }),
{
}

/// A page that is asked for is pending until it is taken, and then no more.
pub proof fn pending_pages_are_taken_once(
    page: &mut Page,
    url: &str,
    stop: bool,
    then: &mut Page,
    taken: Option<String>,
    resolved: Result<String, String>,
    base: &str,
)
    requires
        call_ensures(Page::nav_to, (page, url), stop),
        *old(then) == *final(page),
        call_ensures(Page::take_pending_nav, (then,), taken),
        base@ == old(page).base_url@,
        call_ensures(resolve_url, (base, url), resolved),
    ensures
        stop <==> url@.len() > 0,
        url@.len() > 0 && resolved is Ok ==> taken is Some && taken->0@ == resolved->Ok_0@,
        url@.len() > 0 && resolved is Err ==> taken is Some && taken->0@ == url@,
        url@.len() == 0 ==> crate::dom::text_view(taken) == crate::dom::text_view(
            old(page).pending_nav,
        ),
        final(then).pending_nav is None,
        final(then).doc == old(page).doc && final(then).base_url == old(page).base_url
            && final(then).cookies == old(page).cookies,
{
}

/// A reply to a script has its status and its text; its cookies stay with the page.
pub proof fn replies_are_given_to_the_script(
    page: &mut Page,
    url: &str,
    status: u16,
    headers: &HeaderMap<HeaderValue>,
    body: &[u8],
    r: (u16, String),
    text: Seq<char>,
)
    requires
        call_ensures(Page::take_reply, (page, url, status, headers, body), r),
    ensures
        r.0 == status,
        r.1@ == crate::text::utf8_lossy(body@),
        !crate::fetch::headers::header_values(*headers).dom().contains("set-cookie"@)
            ==> final(page).cookies@ == old(page).cookies@,
        final(page).doc == old(page).doc && final(page).pending_nav == old(page).pending_nav,
{
    reveal_strlit("set-cookie");
    assert(crate::text::ascii_lower("set-cookie"@) =~= "set-cookie"@);
}

} // verus!
