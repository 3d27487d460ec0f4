//! What holds of every step of a session.
use crate::json::json_quoted;
use crate::session::{
    click_nth_script, click_script, fill_script, key_code_for, key_script, plan_submit,
    select_script, submit_script, form_script, script_failure, form_failure, option_failure,
    BrowseError, BrowseErrorModel, FormIntel, SubmitPlan, CLICK_HEAD, CLICK_TAIL, FILL_HEAD,
    FILL_MIDDLE, FILL_TAIL, FORM_HEAD, FORM_TAIL, KEY_CODE, KEY_HEAD, KEY_NAME, KEY_PRINTABLE,
    KEY_TAIL, NTH_HEAD, NTH_TAIL, SELECT_HEAD, SELECT_MIDDLE, SELECT_TAIL, SUBMIT_HEAD,
    SUBMIT_TAIL,
};
use crate::text::{decimal, has_text, occurs_at, pair_views};
use crate::urls::laws::{form_fields, forms_read_back, queries_are_extended};
use crate::urls::{joined_pieces, joined_url, query_fits, url_text, with_query, PiecesModel};
use vstd::prelude::*;
use vstd::string::*;
use vstd::utf8::{decode_utf8, encode_utf8_decode_utf8};

verus! {

// ---- submitting ----------------------------------------------------------------

/// A form with an action that is not sent with GET is posted to where its action leads,
/// and its body is read as all of its fields, in order.
pub proof fn posted_forms_carry_every_field(
    selector: &str,
    current_url: &str,
    form: &FormIntel,
    r: Result<SubmitPlan, BrowseError>,
)
    requires
        call_ensures(plan_submit, (selector, current_url, form), r),
        form.action is Some && form.action->0@.len() > 0,
        form.method@ != "GET"@,
        joined_url(current_url@, form.action->0@) is Ok,
    ensures
        r is Ok && r->Ok_0 is Post,
        r->Ok_0->Post_0.url@ == joined_url(current_url@, form.action->0@)->Ok_0,
        r->Ok_0->Post_0.method@ == "POST"@,
        pair_views(r->Ok_0->Post_0.headers@) == seq![
            ("Content-Type"@, "application/x-www-form-urlencoded"@),
        ],
        form_fields(decode_utf8(r->Ok_0->Post_0.body@)) == pair_views(form.fields@),
{
    forms_read_back(pair_views(form.fields@));
    encode_utf8_decode_utf8(crate::urls::form_encoded(pair_views(form.fields@)));
    assert(pair_views(r->Ok_0->Post_0.headers@) == r->Ok_0->Post_0@.headers);
}

/// Forms that differ in any field are posted with different bodies.
pub proof fn different_forms_are_posted_differently(
    selector: &str,
    current_url: &str,
    a: &FormIntel,
    ra: Result<SubmitPlan, BrowseError>,
    b: &FormIntel,
    rb: Result<SubmitPlan, BrowseError>,
)
    requires
        call_ensures(plan_submit, (selector, current_url, a), ra),
        call_ensures(plan_submit, (selector, current_url, b), rb),
        ra is Ok && ra->Ok_0 is Post,
        rb is Ok && rb->Ok_0 is Post,
        pair_views(a.fields@) != pair_views(b.fields@),
    ensures
        ra->Ok_0->Post_0.body@ != rb->Ok_0->Post_0.body@,
{
    posted_forms_carry_every_field(selector, current_url, a, ra);
    posted_forms_carry_every_field(selector, current_url, b, rb);
}

/// A form with an action that is sent with GET is a visit to where its action leads, with
/// all of its fields, in order, behind what the query there holds.
pub proof fn visited_forms_carry_every_field(
    selector: &str,
    current_url: &str,
    form: &FormIntel,
    r: Result<SubmitPlan, BrowseError>,
) -> (q: Seq<char>)
    requires
        call_ensures(plan_submit, (selector, current_url, form), r),
        form.action is Some && form.action->0@.len() > 0,
        form.method@ == "GET"@,
        joined_pieces(current_url@, form.action->0@) is Ok,
        query_fits(joined_pieces(current_url@, form.action->0@)->Ok_0, pair_views(form.fields@)),
        joined_pieces(current_url@, form.action->0@)->Ok_0.query matches Some(q) ==> q.len() == 0
            || q.last() != '&',
    ensures
        r is Ok && r->Ok_0 is Visit,
        r->Ok_0->Visit_0@ == url_text(
            PiecesModel {
                query: Some(q),
                ..joined_pieces(current_url@, form.action->0@)->Ok_0
            },
        ),
        form_fields(q) == form_fields(
            match joined_pieces(current_url@, form.action->0@)->Ok_0.query {
                Some(before) => before,
                None => seq![],
            },
        ) + pair_views(form.fields@),
{
    let p = joined_pieces(current_url@, form.action->0@)->Ok_0;
    let fields = pair_views(form.fields@);
    queries_are_extended(p, fields);
    let q = with_query(p, fields).query->0;
    assert(with_query(p, fields) =~= (PiecesModel { query: Some(q), ..p }));
    q
}

/// A form whose action leads nowhere is an error, and one without an action is left to
/// the page: an event is dispatched at the form around the element.
pub proof fn other_forms_are_not_sent(
    selector: &str,
    current_url: &str,
    form: &FormIntel,
    r: Result<SubmitPlan, BrowseError>,
)
    requires
        call_ensures(plan_submit, (selector, current_url, form), r),
    ensures
        form.action is None || form.action->0@.len() == 0 ==> r is Ok && r->Ok_0 is Dispatch
            && has_text(r->Ok_0->Dispatch_0@, json_quoted(selector@)) && has_text(
            r->Ok_0->Dispatch_0@,
            "form.dispatchEvent(new Event('submit', {bubbles:true, cancelable:true}));"@,
        ),
        form.action is Some && form.action->0@.len() > 0 && joined_url(
            current_url@,
            form.action->0@,
        ) is Err ==> r is Err && r->Err_0@ == BrowseErrorModel::Url(
            joined_url(current_url@, form.action->0@)->Err_0,
        ),
{
    if form.action is None || form.action->0@.len() == 0 {
        let q = json_quoted(selector@);
        let s = r->Ok_0->Dispatch_0@;
        assert(s == SUBMIT_HEAD@ + q + SUBMIT_TAIL@);
        in_the_middle(SUBMIT_HEAD@, q, SUBMIT_TAIL@);
        submit_tail_holds();
        in_the_tail(
            SUBMIT_HEAD@ + q,
            SUBMIT_TAIL@,
            "form.dispatchEvent(new Event('submit', {bubbles:true, cancelable:true}));"@,
        );
    }
}

proof fn in_the_middle(a: Seq<char>, b: Seq<char>, c: Seq<char>)
    ensures
        has_text(a + b + c, b),
{
    assert((a + b + c).subrange(a.len() as int, a.len() + b.len() as int) =~= b);
    assert(occurs_at(a + b + c, b, a.len() as int));
}

proof fn in_the_tail(a: Seq<char>, b: Seq<char>, t: Seq<char>)
    requires
        has_text(b, t),
    ensures
        has_text(a + b, t),
{
    let i = choose|i: int| #[trigger] occurs_at(b, t, i);
    assert((a + b).subrange(a.len() + i, a.len() + i + t.len()) =~= b.subrange(i, i + t.len()));
    assert(occurs_at(a + b, t, a.len() + i));
}

proof fn click_tail_holds()
    ensures
        has_text(CLICK_TAIL@, "if (!e) throw new Error('no match');"@),
        has_text(CLICK_TAIL@, "e.click();"@),
{
    reveal_strlit("); if (!e) throw new Error('no match'); e.click(); return 'ok'; })()");
    assert(has_text(CLICK_TAIL@, "if (!e) throw new Error('no match');"@)) by {
        reveal_strlit("if (!e) throw new Error('no match');");
        assert(CLICK_TAIL@.subrange(3, 39) =~= "if (!e) throw new Error('no match');"@);
        assert(occurs_at(CLICK_TAIL@, "if (!e) throw new Error('no match');"@, 3));
    }
    assert(has_text(CLICK_TAIL@, "e.click();"@)) by {
        reveal_strlit("e.click();");
        assert(CLICK_TAIL@.subrange(40, 50) =~= "e.click();"@);
        assert(occurs_at(CLICK_TAIL@, "e.click();"@, 40));
    }
}

proof fn nth_tail_holds()
    ensures
        has_text(NTH_TAIL@, "if (!e) throw new Error('no match');"@),
        has_text(NTH_TAIL@, "e.click();"@),
{
    reveal_strlit("]; if (!e) throw new Error('no match'); e.click(); return 'ok'; })()");
    assert(has_text(NTH_TAIL@, "if (!e) throw new Error('no match');"@)) by {
        reveal_strlit("if (!e) throw new Error('no match');");
        assert(NTH_TAIL@.subrange(3, 39) =~= "if (!e) throw new Error('no match');"@);
        assert(occurs_at(NTH_TAIL@, "if (!e) throw new Error('no match');"@, 3));
    }
    assert(has_text(NTH_TAIL@, "e.click();"@)) by {
        reveal_strlit("e.click();");
        assert(NTH_TAIL@.subrange(40, 50) =~= "e.click();"@);
        assert(occurs_at(NTH_TAIL@, "e.click();"@, 40));
    }
}

proof fn fill_tail_holds()
    ensures
        has_text(FILL_TAIL@, "e.dispatchEvent(new Event('input', {bubbles:true}));"@),
        has_text(FILL_TAIL@, "e.dispatchEvent(new Event('change', {bubbles:true}));"@),
{
    reveal_strlit(";
            e.dispatchEvent(new Event('input', {bubbles:true}));
            e.dispatchEvent(new Event('change', {bubbles:true}));
            return 'ok';
        })()");
    assert(has_text(FILL_TAIL@, "e.dispatchEvent(new Event('input', {bubbles:true}));"@)) by {
        reveal_strlit("e.dispatchEvent(new Event('input', {bubbles:true}));");
        assert(FILL_TAIL@.subrange(14, 66) =~= "e.dispatchEvent(new Event('input', {bubbles:true}));"@);
        assert(occurs_at(FILL_TAIL@, "e.dispatchEvent(new Event('input', {bubbles:true}));"@, 14));
    }
    assert(has_text(FILL_TAIL@, "e.dispatchEvent(new Event('change', {bubbles:true}));"@)) by {
        reveal_strlit("e.dispatchEvent(new Event('change', {bubbles:true}));");
        assert(FILL_TAIL@.subrange(79, 132) =~= "e.dispatchEvent(new Event('change', {bubbles:true}));"@);
        assert(occurs_at(FILL_TAIL@, "e.dispatchEvent(new Event('change', {bubbles:true}));"@, 79));
    }
}

proof fn fill_middle_holds()
    ensures
        has_text(FILL_MIDDLE@, "if (!e) throw new Error('no match');"@),
{
    reveal_strlit(");
            if (!e) throw new Error('no match');
            e.value = ");
    assert(has_text(FILL_MIDDLE@, "if (!e) throw new Error('no match');"@)) by {
        reveal_strlit("if (!e) throw new Error('no match');");
        assert(FILL_MIDDLE@.subrange(15, 51) =~= "if (!e) throw new Error('no match');"@);
        assert(occurs_at(FILL_MIDDLE@, "if (!e) throw new Error('no match');"@, 15));
    }
}

proof fn form_tail_holds()
    ensures
        has_text(FORM_TAIL@, "if (!node) throw new Error('no match');"@),
        has_text(FORM_TAIL@, "while (form && form.tagName !== 'FORM') form = form.parentNode;"@),
        has_text(FORM_TAIL@, "if (!form) throw new Error('no enclosing form');"@),
        has_text(FORM_TAIL@, "var action = form.getAttribute('action');"@),
        has_text(FORM_TAIL@, "var method = (form.getAttribute('method') || 'GET').toUpperCase();"@),
        has_text(FORM_TAIL@, "var list = form.querySelectorAll(tag);"@),
        has_text(FORM_TAIL@, "for (var i = 0; i < list.length; i++) {"@),
        has_text(FORM_TAIL@, "var name = e.getAttribute('name');"@),
        has_text(FORM_TAIL@, "if (!name) continue;"@),
        has_text(FORM_TAIL@, "if ((type === 'checkbox' || type === 'radio')
                        && e.getAttribute('checked') === null) continue;"@),
        has_text(FORM_TAIL@, "if (e.getAttribute('disabled') !== null) continue;"@),
        has_text(FORM_TAIL@, "var value = e.value;"@),
        has_text(FORM_TAIL@, "value = e.getAttribute('value') || '';"@),
        has_text(FORM_TAIL@, "fields.push([name, String(value)]);"@),
        has_text(FORM_TAIL@, "collect('input');
            collect('textarea');
            collect('select');"@),
        has_text(FORM_TAIL@, "return JSON.stringify({action: action, method: method, fields: fields});"@),
{
    reveal_strlit(");
            if (!node) throw new Error('no match');
            var form = node;
            while (form && form.tagName !== 'FORM') form = form.parentNode;
            if (!form) throw new Error('no enclosing form');
            var action = form.getAttribute('action');
            var method = (form.getAttribute('method') || 'GET').toUpperCase();
            var fields = [];
            // A selector names one clause, so the three kinds of fields are
            // collected one after the other, each in document order.
            function collect(tag) {
                var list = form.querySelectorAll(tag);
                for (var i = 0; i < list.length; i++) {
                    var e = list[i];
                    var name = e.getAttribute('name');
                    if (!name) continue;
                    var type = (e.getAttribute('type') || '').toLowerCase();
                    // Unchecked boxes and buttons are not sent.
                    if ((type === 'checkbox' || type === 'radio')
                        && e.getAttribute('checked') === null) continue;
                    // Nor are disabled fields.
                    if (e.getAttribute('disabled') !== null) continue;
                    var value = e.value;
                    if (value === undefined || value === null) {
                        value = e.getAttribute('value') || '';
                    }
                    fields.push([name, String(value)]);
                }
            }
            collect('input');
            collect('textarea');
            collect('select');
            return JSON.stringify({action: action, method: method, fields: fields});
        })()");
    assert(has_text(FORM_TAIL@, "if (!node) throw new Error('no match');"@)) by {
        reveal_strlit("if (!node) throw new Error('no match');");
        assert(FORM_TAIL@.subrange(15, 54) =~= "if (!node) throw new Error('no match');"@);
        assert(occurs_at(FORM_TAIL@, "if (!node) throw new Error('no match');"@, 15));
    }
    assert(has_text(FORM_TAIL@, "while (form && form.tagName !== 'FORM') form = form.parentNode;"@)) by {
        reveal_strlit("while (form && form.tagName !== 'FORM') form = form.parentNode;");
        assert(FORM_TAIL@.subrange(96, 159) =~= "while (form && form.tagName !== 'FORM') form = form.parentNode;"@);
        assert(occurs_at(FORM_TAIL@, "while (form && form.tagName !== 'FORM') form = form.parentNode;"@, 96));
    }
    assert(has_text(FORM_TAIL@, "if (!form) throw new Error('no enclosing form');"@)) by {
        reveal_strlit("if (!form) throw new Error('no enclosing form');");
        assert(FORM_TAIL@.subrange(172, 220) =~= "if (!form) throw new Error('no enclosing form');"@);
        assert(occurs_at(FORM_TAIL@, "if (!form) throw new Error('no enclosing form');"@, 172));
    }
    assert(has_text(FORM_TAIL@, "var action = form.getAttribute('action');"@)) by {
        reveal_strlit("var action = form.getAttribute('action');");
        assert(FORM_TAIL@.subrange(233, 274) =~= "var action = form.getAttribute('action');"@);
        assert(occurs_at(FORM_TAIL@, "var action = form.getAttribute('action');"@, 233));
    }
    assert(has_text(FORM_TAIL@, "var method = (form.getAttribute('method') || 'GET').toUpperCase();"@)) by {
        reveal_strlit("var method = (form.getAttribute('method') || 'GET').toUpperCase();");
        assert(FORM_TAIL@.subrange(287, 353) =~= "var method = (form.getAttribute('method') || 'GET').toUpperCase();"@);
        assert(occurs_at(FORM_TAIL@, "var method = (form.getAttribute('method') || 'GET').toUpperCase();"@, 287));
    }
    assert(has_text(FORM_TAIL@, "var list = form.querySelectorAll(tag);"@)) by {
        reveal_strlit("var list = form.querySelectorAll(tag);");
        assert(FORM_TAIL@.subrange(582, 620) =~= "var list = form.querySelectorAll(tag);"@);
        assert(occurs_at(FORM_TAIL@, "var list = form.querySelectorAll(tag);"@, 582));
    }
    assert(has_text(FORM_TAIL@, "for (var i = 0; i < list.length; i++) {"@)) by {
        reveal_strlit("for (var i = 0; i < list.length; i++) {");
        assert(FORM_TAIL@.subrange(637, 676) =~= "for (var i = 0; i < list.length; i++) {"@);
        assert(occurs_at(FORM_TAIL@, "for (var i = 0; i < list.length; i++) {"@, 637));
    }
    assert(has_text(FORM_TAIL@, "var name = e.getAttribute('name');"@)) by {
        reveal_strlit("var name = e.getAttribute('name');");
        assert(FORM_TAIL@.subrange(734, 768) =~= "var name = e.getAttribute('name');"@);
        assert(occurs_at(FORM_TAIL@, "var name = e.getAttribute('name');"@, 734));
    }
    assert(has_text(FORM_TAIL@, "if (!name) continue;"@)) by {
        reveal_strlit("if (!name) continue;");
        assert(FORM_TAIL@.subrange(789, 809) =~= "if (!name) continue;"@);
        assert(occurs_at(FORM_TAIL@, "if (!name) continue;"@, 789));
    }
    assert(has_text(FORM_TAIL@, "if ((type === 'checkbox' || type === 'radio')
                        && e.getAttribute('checked') === null) continue;"@)) by {
        reveal_strlit("if ((type === 'checkbox' || type === 'radio')
                        && e.getAttribute('checked') === null) continue;");
        assert(FORM_TAIL@.subrange(972, 1090) =~= "if ((type === 'checkbox' || type === 'radio')
                        && e.getAttribute('checked') === null) continue;"@);
        assert(occurs_at(FORM_TAIL@, "if ((type === 'checkbox' || type === 'radio')
                        && e.getAttribute('checked') === null) continue;"@, 972));
    }
    assert(has_text(FORM_TAIL@, "if (e.getAttribute('disabled') !== null) continue;"@)) by {
        reveal_strlit("if (e.getAttribute('disabled') !== null) continue;");
        assert(FORM_TAIL@.subrange(1159, 1209) =~= "if (e.getAttribute('disabled') !== null) continue;"@);
        assert(occurs_at(FORM_TAIL@, "if (e.getAttribute('disabled') !== null) continue;"@, 1159));
    }
    assert(has_text(FORM_TAIL@, "var value = e.value;"@)) by {
        reveal_strlit("var value = e.value;");
        assert(FORM_TAIL@.subrange(1230, 1250) =~= "var value = e.value;"@);
        assert(occurs_at(FORM_TAIL@, "var value = e.value;"@, 1230));
    }
    assert(has_text(FORM_TAIL@, "value = e.getAttribute('value') || '';"@)) by {
        reveal_strlit("value = e.getAttribute('value') || '';");
        assert(FORM_TAIL@.subrange(1340, 1378) =~= "value = e.getAttribute('value') || '';"@);
        assert(occurs_at(FORM_TAIL@, "value = e.getAttribute('value') || '';"@, 1340));
    }
    assert(has_text(FORM_TAIL@, "fields.push([name, String(value)]);"@)) by {
        reveal_strlit("fields.push([name, String(value)]);");
        assert(FORM_TAIL@.subrange(1421, 1456) =~= "fields.push([name, String(value)]);"@);
        assert(occurs_at(FORM_TAIL@, "fields.push([name, String(value)]);"@, 1421));
    }
    assert(has_text(FORM_TAIL@, "collect('input');
            collect('textarea');
            collect('select');"@)) by {
        reveal_strlit("collect('input');
            collect('textarea');
            collect('select');");
        assert(FORM_TAIL@.subrange(1501, 1582) =~= "collect('input');
            collect('textarea');
            collect('select');"@);
        assert(occurs_at(FORM_TAIL@, "collect('input');
            collect('textarea');
            collect('select');"@, 1501));
    }
    assert(has_text(FORM_TAIL@, "return JSON.stringify({action: action, method: method, fields: fields});"@)) by {
        reveal_strlit("return JSON.stringify({action: action, method: method, fields: fields});");
        assert(FORM_TAIL@.subrange(1595, 1667) =~= "return JSON.stringify({action: action, method: method, fields: fields});"@);
        assert(occurs_at(FORM_TAIL@, "return JSON.stringify({action: action, method: method, fields: fields});"@, 1595));
    }
}

proof fn submit_tail_holds()
    ensures
        has_text(SUBMIT_TAIL@, "while (form && form.tagName !== 'FORM') form = form.parentNode;"@),
        has_text(SUBMIT_TAIL@, "form.dispatchEvent(new Event('submit', {bubbles:true, cancelable:true}));"@),
{
    reveal_strlit(");
                    var form = node;
                    while (form && form.tagName !== 'FORM') form = form.parentNode;
                    form.dispatchEvent(new Event('submit', {bubbles:true, cancelable:true}));
                    return 'ok';
                })()");
    assert(has_text(SUBMIT_TAIL@, "while (form && form.tagName !== 'FORM') form = form.parentNode;"@)) by {
        reveal_strlit("while (form && form.tagName !== 'FORM') form = form.parentNode;");
        assert(SUBMIT_TAIL@.subrange(60, 123) =~= "while (form && form.tagName !== 'FORM') form = form.parentNode;"@);
        assert(occurs_at(SUBMIT_TAIL@, "while (form && form.tagName !== 'FORM') form = form.parentNode;"@, 60));
    }
    assert(has_text(SUBMIT_TAIL@, "form.dispatchEvent(new Event('submit', {bubbles:true, cancelable:true}));"@)) by {
        reveal_strlit("form.dispatchEvent(new Event('submit', {bubbles:true, cancelable:true}));");
        assert(SUBMIT_TAIL@.subrange(144, 217) =~= "form.dispatchEvent(new Event('submit', {bubbles:true, cancelable:true}));"@);
        assert(occurs_at(SUBMIT_TAIL@, "form.dispatchEvent(new Event('submit', {bubbles:true, cancelable:true}));"@, 144));
    }
}

proof fn select_middle_holds()
    ensures
        has_text(SELECT_MIDDLE@, "if (!e) throw new Error('no match');"@),
        has_text(SELECT_MIDDLE@, "if (e.tagName !== 'SELECT') throw new Error('not a select');"@),
{
    reveal_strlit(");
            if (!e) throw new Error('no match');
            if (e.tagName !== 'SELECT') throw new Error('not a select');
            var want = ");
    assert(has_text(SELECT_MIDDLE@, "if (!e) throw new Error('no match');"@)) by {
        reveal_strlit("if (!e) throw new Error('no match');");
        assert(SELECT_MIDDLE@.subrange(15, 51) =~= "if (!e) throw new Error('no match');"@);
        assert(occurs_at(SELECT_MIDDLE@, "if (!e) throw new Error('no match');"@, 15));
    }
    assert(has_text(SELECT_MIDDLE@, "if (e.tagName !== 'SELECT') throw new Error('not a select');"@)) by {
        reveal_strlit("if (e.tagName !== 'SELECT') throw new Error('not a select');");
        assert(SELECT_MIDDLE@.subrange(64, 124) =~= "if (e.tagName !== 'SELECT') throw new Error('not a select');"@);
        assert(occurs_at(SELECT_MIDDLE@, "if (e.tagName !== 'SELECT') throw new Error('not a select');"@, 64));
    }
}

proof fn select_tail_holds()
    ensures
        has_text(SELECT_TAIL@, "var opts = e.querySelectorAll('option');"@),
        has_text(SELECT_TAIL@, "if (v === want) { matched = i; break; }"@),
        has_text(SELECT_TAIL@, "if ((opts[j].textContent || '').trim() === want) { matched = j; break; }"@),
        has_text(SELECT_TAIL@, "if (matched < 0) throw new Error('no option matches');"@),
        has_text(SELECT_TAIL@, "e.value = opts[matched].getAttribute('value') !== null"@),
        has_text(SELECT_TAIL@, "e.dispatchEvent(new Event('change', {bubbles:true}));"@),
{
    reveal_strlit(";
            var matched = -1;
            var opts = e.querySelectorAll('option');
            for (var i = 0; i < opts.length; i++) {
                var v = opts[i].getAttribute('value');
                if (v === null) v = (opts[i].textContent || '').trim();
                if (v === want) { matched = i; break; }
            }
            if (matched < 0) {
                for (var j = 0; j < opts.length; j++) {
                    if ((opts[j].textContent || '').trim() === want) { matched = j; break; }
                }
            }
            if (matched < 0) throw new Error('no option matches');
            e.value = opts[matched].getAttribute('value') !== null
                      ? opts[matched].getAttribute('value')
                      : (opts[matched].textContent || '').trim();
            e.dispatchEvent(new Event('input', {bubbles:true}));
            e.dispatchEvent(new Event('change', {bubbles:true}));
            return 'ok';
        })()");
    assert(has_text(SELECT_TAIL@, "var opts = e.querySelectorAll('option');"@)) by {
        reveal_strlit("var opts = e.querySelectorAll('option');");
        assert(SELECT_TAIL@.subrange(44, 84) =~= "var opts = e.querySelectorAll('option');"@);
        assert(occurs_at(SELECT_TAIL@, "var opts = e.querySelectorAll('option');"@, 44));
    }
    assert(has_text(SELECT_TAIL@, "if (v === want) { matched = i; break; }"@)) by {
        reveal_strlit("if (v === want) { matched = i; break; }");
        assert(SELECT_TAIL@.subrange(280, 319) =~= "if (v === want) { matched = i; break; }"@);
        assert(occurs_at(SELECT_TAIL@, "if (v === want) { matched = i; break; }"@, 280));
    }
    assert(has_text(SELECT_TAIL@, "if ((opts[j].textContent || '').trim() === want) { matched = j; break; }"@)) by {
        reveal_strlit("if ((opts[j].textContent || '').trim() === want) { matched = j; break; }");
        assert(SELECT_TAIL@.subrange(441, 513) =~= "if ((opts[j].textContent || '').trim() === want) { matched = j; break; }"@);
        assert(occurs_at(SELECT_TAIL@, "if ((opts[j].textContent || '').trim() === want) { matched = j; break; }"@, 441));
    }
    assert(has_text(SELECT_TAIL@, "if (matched < 0) throw new Error('no option matches');"@)) by {
        reveal_strlit("if (matched < 0) throw new Error('no option matches');");
        assert(SELECT_TAIL@.subrange(558, 612) =~= "if (matched < 0) throw new Error('no option matches');"@);
        assert(occurs_at(SELECT_TAIL@, "if (matched < 0) throw new Error('no option matches');"@, 558));
    }
    assert(has_text(SELECT_TAIL@, "e.value = opts[matched].getAttribute('value') !== null"@)) by {
        reveal_strlit("e.value = opts[matched].getAttribute('value') !== null");
        assert(SELECT_TAIL@.subrange(625, 679) =~= "e.value = opts[matched].getAttribute('value') !== null"@);
        assert(occurs_at(SELECT_TAIL@, "e.value = opts[matched].getAttribute('value') !== null"@, 625));
    }
    assert(has_text(SELECT_TAIL@, "e.dispatchEvent(new Event('change', {bubbles:true}));"@)) by {
        reveal_strlit("e.dispatchEvent(new Event('change', {bubbles:true}));");
        assert(SELECT_TAIL@.subrange(883, 936) =~= "e.dispatchEvent(new Event('change', {bubbles:true}));"@);
        assert(occurs_at(SELECT_TAIL@, "e.dispatchEvent(new Event('change', {bubbles:true}));"@, 883));
    }
}

proof fn key_tail_holds()
    ensures
        has_text(KEY_TAIL@, "var ev = new KeyboardEvent(type, {
                    key: key, code: key, keyCode: code, which: code,"@),
        has_text(KEY_TAIL@, "e.dispatchEvent(ev);"@),
        has_text(KEY_TAIL@, "fire('keydown');
            if (printable) fire('keypress');
            fire('keyup');"@),
{
    reveal_strlit(";
            function fire(type) {
                var ev = new KeyboardEvent(type, {
                    key: key, code: key, keyCode: code, which: code,
                    bubbles: true, cancelable: true,
                });
                e.dispatchEvent(ev);
            }
            fire('keydown');
            if (printable) fire('keypress');
            fire('keyup');
            return 'ok';
        })()");
    assert(has_text(KEY_TAIL@, "var ev = new KeyboardEvent(type, {
                    key: key, code: key, keyCode: code, which: code,"@)) by {
        reveal_strlit("var ev = new KeyboardEvent(type, {
                    key: key, code: key, keyCode: code, which: code,");
        assert(KEY_TAIL@.subrange(52, 155) =~= "var ev = new KeyboardEvent(type, {
                    key: key, code: key, keyCode: code, which: code,"@);
        assert(occurs_at(KEY_TAIL@, "var ev = new KeyboardEvent(type, {
                    key: key, code: key, keyCode: code, which: code,"@, 52));
    }
    assert(has_text(KEY_TAIL@, "e.dispatchEvent(ev);"@)) by {
        reveal_strlit("e.dispatchEvent(ev);");
        assert(KEY_TAIL@.subrange(245, 265) =~= "e.dispatchEvent(ev);"@);
        assert(occurs_at(KEY_TAIL@, "e.dispatchEvent(ev);"@, 245));
    }
    assert(has_text(KEY_TAIL@, "fire('keydown');
            if (printable) fire('keypress');
            fire('keyup');"@)) by {
        reveal_strlit("fire('keydown');
            if (printable) fire('keypress');
            fire('keyup');");
        assert(KEY_TAIL@.subrange(292, 380) =~= "fire('keydown');
            if (printable) fire('keypress');
            fire('keyup');"@);
        assert(occurs_at(KEY_TAIL@, "fire('keydown');
            if (printable) fire('keypress');
            fire('keyup');"@, 292));
    }
}

proof fn key_name_holds()
    ensures
        has_text(KEY_NAME@, "if (!e) throw new Error('no match');"@),
{
    reveal_strlit(");
            if (!e) throw new Error('no match');
            var key = ");
    assert(has_text(KEY_NAME@, "if (!e) throw new Error('no match');"@)) by {
        reveal_strlit("if (!e) throw new Error('no match');");
        assert(KEY_NAME@.subrange(15, 51) =~= "if (!e) throw new Error('no match');"@);
        assert(occurs_at(KEY_NAME@, "if (!e) throw new Error('no match');"@, 15));
    }
}

/// A text that ends so.
spec fn ends_so(s: Seq<char>, t: Seq<char>) -> bool {
    t.len() <= s.len() && s.skip(s.len() - t.len()) == t
}

/// A text that starts so.
spec fn starts_so(s: Seq<char>, t: Seq<char>) -> bool {
    t.len() <= s.len() && s.take(t.len() as int) == t
}

/// What stands around a text that is put between two others.
proof fn stands_between(a: Seq<char>, x: Seq<char>, q: Seq<char>, b: Seq<char>, y: Seq<char>)
    requires
        ends_so(a, x),
        starts_so(b, y),
    ensures
        has_text(a + q + b, x + q + y),
{
    let k = a.len() - x.len();
    let s = a + q + b;
    let t = x + q + y;
    assert(s.subrange(k, k + t.len()) =~= t) by {
        assert forall|i: int| 0 <= i < t.len() implies s.subrange(k, k + t.len())[i] == t[i] by {
            if i < x.len() {
                assert(a.skip(k)[i] == x[i]);
            } else if i >= x.len() + q.len() {
                assert(b.take(y.len() as int)[i - x.len() - q.len()] == y[i - x.len() - q.len()]);
            }
        }
    }
    assert(occurs_at(s, t, k));
}

/// What stands in a text stands in it with more behind it.
proof fn in_the_front(a: Seq<char>, b: Seq<char>, t: Seq<char>)
    requires
        has_text(a, t),
    ensures
        has_text(a + b, t),
{
    let i = choose|i: int| #[trigger] occurs_at(a, t, i);
    assert((a + b).subrange(i, i + t.len()) =~= a.subrange(i, i + t.len()));
    assert(occurs_at(a + b, t, i));
}

proof fn click_head_ends()
    ensures
        ends_so(CLICK_HEAD@, "document.querySelector("@),
{
    reveal_strlit("(function(){ var e = document.querySelector(");
    reveal_strlit("document.querySelector(");
    assert(CLICK_HEAD@.skip(CLICK_HEAD@.len() - "document.querySelector("@.len()) =~= "document.querySelector("@);
}

proof fn nth_head_ends()
    ensures
        ends_so(NTH_HEAD@, "document.querySelectorAll("@),
{
    reveal_strlit("(function(){ var e = document.querySelectorAll(");
    reveal_strlit("document.querySelectorAll(");
    assert(NTH_HEAD@.skip(NTH_HEAD@.len() - "document.querySelectorAll("@.len()) =~= "document.querySelectorAll("@);
}

proof fn fill_head_ends()
    ensures
        ends_so(FILL_HEAD@, "document.querySelector("@),
{
    reveal_strlit("(function(){
            var e = document.querySelector(");
    reveal_strlit("document.querySelector(");
    assert(FILL_HEAD@.skip(FILL_HEAD@.len() - "document.querySelector("@.len()) =~= "document.querySelector("@);
}

proof fn form_head_ends()
    ensures
        ends_so(FORM_HEAD@, "document.querySelector("@),
{
    reveal_strlit("(function(){
            var node = document.querySelector(");
    reveal_strlit("document.querySelector(");
    assert(FORM_HEAD@.skip(FORM_HEAD@.len() - "document.querySelector("@.len()) =~= "document.querySelector("@);
}

proof fn submit_head_ends()
    ensures
        ends_so(SUBMIT_HEAD@, "document.querySelector("@),
{
    reveal_strlit("(function(){
                    var node = document.querySelector(");
    reveal_strlit("document.querySelector(");
    assert(SUBMIT_HEAD@.skip(SUBMIT_HEAD@.len() - "document.querySelector("@.len()) =~= "document.querySelector("@);
}

proof fn select_head_ends()
    ensures
        ends_so(SELECT_HEAD@, "document.querySelector("@),
{
    reveal_strlit("(function(){
            var e = document.querySelector(");
    reveal_strlit("document.querySelector(");
    assert(SELECT_HEAD@.skip(SELECT_HEAD@.len() - "document.querySelector("@.len()) =~= "document.querySelector("@);
}

proof fn key_head_ends()
    ensures
        ends_so(KEY_HEAD@, "document.querySelector("@),
{
    reveal_strlit("(function(){
            var e = document.querySelector(");
    reveal_strlit("document.querySelector(");
    assert(KEY_HEAD@.skip(KEY_HEAD@.len() - "document.querySelector("@.len()) =~= "document.querySelector("@);
}

proof fn fill_middle_ends()
    ensures
        ends_so(FILL_MIDDLE@, "e.value = "@),
{
    reveal_strlit(");
            if (!e) throw new Error('no match');
            e.value = ");
    reveal_strlit("e.value = ");
    assert(FILL_MIDDLE@.skip(FILL_MIDDLE@.len() - "e.value = "@.len()) =~= "e.value = "@);
}

proof fn select_middle_ends()
    ensures
        ends_so(SELECT_MIDDLE@, "var want = "@),
{
    reveal_strlit(");
            if (!e) throw new Error('no match');
            if (e.tagName !== 'SELECT') throw new Error('not a select');
            var want = ");
    reveal_strlit("var want = ");
    assert(SELECT_MIDDLE@.skip(SELECT_MIDDLE@.len() - "var want = "@.len()) =~= "var want = "@);
}

proof fn key_name_ends()
    ensures
        ends_so(KEY_NAME@, "var key = "@),
{
    reveal_strlit(");
            if (!e) throw new Error('no match');
            var key = ");
    reveal_strlit("var key = ");
    assert(KEY_NAME@.skip(KEY_NAME@.len() - "var key = "@.len()) =~= "var key = "@);
}

proof fn key_code_ends()
    ensures
        ends_so(KEY_CODE@, "var code = "@),
{
    reveal_strlit(";
            var code = ");
    reveal_strlit("var code = ");
    assert(KEY_CODE@.skip(KEY_CODE@.len() - "var code = "@.len()) =~= "var code = "@);
}

proof fn key_printable_ends()
    ensures
        ends_so(KEY_PRINTABLE@, "var printable = "@),
{
    reveal_strlit(";
            var printable = ");
    reveal_strlit("var printable = ");
    assert(KEY_PRINTABLE@.skip(KEY_PRINTABLE@.len() - "var printable = "@.len()) =~= "var printable = "@);
}

proof fn click_tail_starts()
    ensures
        starts_so(CLICK_TAIL@, ")"@),
{
    reveal_strlit("); if (!e) throw new Error('no match'); e.click(); return 'ok'; })()");
    reveal_strlit(")");
    assert(CLICK_TAIL@.take(")"@.len() as int) =~= ")"@);
}

proof fn nth_tail_starts()
    ensures
        starts_so(NTH_TAIL@, "]"@),
{
    reveal_strlit("]; if (!e) throw new Error('no match'); e.click(); return 'ok'; })()");
    reveal_strlit("]");
    assert(NTH_TAIL@.take("]"@.len() as int) =~= "]"@);
}

proof fn fill_middle_starts()
    ensures
        starts_so(FILL_MIDDLE@, ")"@),
{
    reveal_strlit(");
            if (!e) throw new Error('no match');
            e.value = ");
    reveal_strlit(")");
    assert(FILL_MIDDLE@.take(")"@.len() as int) =~= ")"@);
}

proof fn form_tail_starts()
    ensures
        starts_so(FORM_TAIL@, ")"@),
{
    reveal_strlit(");
            if (!node) throw new Error('no match');
            var form = node;
            while (form && form.tagName !== 'FORM') form = form.parentNode;
            if (!form) throw new Error('no enclosing form');
            var action = form.getAttribute('action');
            var method = (form.getAttribute('method') || 'GET').toUpperCase();
            var fields = [];
            // A selector names one clause, so the three kinds of fields are
            // collected one after the other, each in document order.
            function collect(tag) {
                var list = form.querySelectorAll(tag);
                for (var i = 0; i < list.length; i++) {
                    var e = list[i];
                    var name = e.getAttribute('name');
                    if (!name) continue;
                    var type = (e.getAttribute('type') || '').toLowerCase();
                    // Unchecked boxes and buttons are not sent.
                    if ((type === 'checkbox' || type === 'radio')
                        && e.getAttribute('checked') === null) continue;
                    // Nor are disabled fields.
                    if (e.getAttribute('disabled') !== null) continue;
                    var value = e.value;
                    if (value === undefined || value === null) {
                        value = e.getAttribute('value') || '';
                    }
                    fields.push([name, String(value)]);
                }
            }
            collect('input');
            collect('textarea');
            collect('select');
            return JSON.stringify({action: action, method: method, fields: fields});
        })()");
    reveal_strlit(")");
    assert(FORM_TAIL@.take(")"@.len() as int) =~= ")"@);
}

proof fn submit_tail_starts()
    ensures
        starts_so(SUBMIT_TAIL@, ")"@),
{
    reveal_strlit(");
                    var form = node;
                    while (form && form.tagName !== 'FORM') form = form.parentNode;
                    form.dispatchEvent(new Event('submit', {bubbles:true, cancelable:true}));
                    return 'ok';
                })()");
    reveal_strlit(")");
    assert(SUBMIT_TAIL@.take(")"@.len() as int) =~= ")"@);
}

proof fn select_middle_starts()
    ensures
        starts_so(SELECT_MIDDLE@, ")"@),
{
    reveal_strlit(");
            if (!e) throw new Error('no match');
            if (e.tagName !== 'SELECT') throw new Error('not a select');
            var want = ");
    reveal_strlit(")");
    assert(SELECT_MIDDLE@.take(")"@.len() as int) =~= ")"@);
}

proof fn key_name_starts()
    ensures
        starts_so(KEY_NAME@, ")"@),
{
    reveal_strlit(");
            if (!e) throw new Error('no match');
            var key = ");
    reveal_strlit(")");
    assert(KEY_NAME@.take(")"@.len() as int) =~= ")"@);
}

proof fn fill_tail_starts()
    ensures
        starts_so(FILL_TAIL@, ";"@),
{
    reveal_strlit(";
            e.dispatchEvent(new Event('input', {bubbles:true}));
            e.dispatchEvent(new Event('change', {bubbles:true}));
            return 'ok';
        })()");
    reveal_strlit(";");
    assert(FILL_TAIL@.take(";"@.len() as int) =~= ";"@);
}

proof fn select_tail_starts()
    ensures
        starts_so(SELECT_TAIL@, ";"@),
{
    reveal_strlit(";
            var matched = -1;
            var opts = e.querySelectorAll('option');
            for (var i = 0; i < opts.length; i++) {
                var v = opts[i].getAttribute('value');
                if (v === null) v = (opts[i].textContent || '').trim();
                if (v === want) { matched = i; break; }
            }
            if (matched < 0) {
                for (var j = 0; j < opts.length; j++) {
                    if ((opts[j].textContent || '').trim() === want) { matched = j; break; }
                }
            }
            if (matched < 0) throw new Error('no option matches');
            e.value = opts[matched].getAttribute('value') !== null
                      ? opts[matched].getAttribute('value')
                      : (opts[matched].textContent || '').trim();
            e.dispatchEvent(new Event('input', {bubbles:true}));
            e.dispatchEvent(new Event('change', {bubbles:true}));
            return 'ok';
        })()");
    reveal_strlit(";");
    assert(SELECT_TAIL@.take(";"@.len() as int) =~= ";"@);
}

proof fn key_code_starts()
    ensures
        starts_so(KEY_CODE@, ";"@),
{
    reveal_strlit(";
            var code = ");
    reveal_strlit(";");
    assert(KEY_CODE@.take(";"@.len() as int) =~= ";"@);
}

proof fn key_printable_starts()
    ensures
        starts_so(KEY_PRINTABLE@, ";"@),
{
    reveal_strlit(";
            var printable = ");
    reveal_strlit(";");
    assert(KEY_PRINTABLE@.take(";"@.len() as int) =~= ";"@);
}

proof fn key_tail_starts()
    ensures
        starts_so(KEY_TAIL@, ";"@),
{
    reveal_strlit(";
            function fire(type) {
                var ev = new KeyboardEvent(type, {
                    key: key, code: key, keyCode: code, which: code,
                    bubbles: true, cancelable: true,
                });
                e.dispatchEvent(ev);
            }
            fire('keydown');
            if (printable) fire('keypress');
            fire('keyup');
            return 'ok';
        })()");
    reveal_strlit(";");
    assert(KEY_TAIL@.take(";"@.len() as int) =~= ";"@);
}

proof fn ends_with_part(a: Seq<char>, b: Seq<char>)
    ensures
        ends_so(a + b, b),
{
    assert((a + b).skip((a + b).len() - b.len()) =~= b);
}

proof fn ends_on(a: Seq<char>, b: Seq<char>, t: Seq<char>)
    requires
        ends_so(b, t),
    ensures
        ends_so(a + b, t),
{
    assert((a + b).skip((a + b).len() - t.len()) =~= b.skip(b.len() - t.len()));
}

/// A click runs at the element that the selector finds, and fails where there is none.
pub proof fn clicks_hit_their_element(selector: &str, r: String)
    requires
        call_ensures(click_script, (selector,), r),
    ensures
        has_text(r@, "document.querySelector("@ + json_quoted(selector@) + ")"@),
        has_text(r@, "if (!e) throw new Error('no match');"@),
        has_text(r@, "e.click();"@),
{
    click_head_ends();
    click_tail_starts();
    stands_between(CLICK_HEAD@, "document.querySelector("@, json_quoted(selector@), CLICK_TAIL@, ")"@);
    click_tail_holds();
    in_the_tail(CLICK_HEAD@ + json_quoted(selector@), CLICK_TAIL@, "if (!e) throw new Error('no match');"@);
    click_tail_holds();
    in_the_tail(CLICK_HEAD@ + json_quoted(selector@), CLICK_TAIL@, "e.click();"@);
    assert(r@ == CLICK_HEAD@ + json_quoted(selector@) + CLICK_TAIL@);
}

/// A click at a place runs at the element at that place among those that the selector
/// finds.
pub proof fn clicks_hit_the_element_at_their_place(selector: &str, nth: usize, r: String)
    requires
        call_ensures(click_nth_script, (selector, nth), r),
    ensures
        has_text(r@, "document.querySelectorAll("@ + json_quoted(selector@) + ")["@),
        has_text(r@, ")["@ + decimal(nth as nat) + "]"@),
        has_text(r@, "if (!e) throw new Error('no match');"@),
        has_text(r@, "e.click();"@),
{
    nth_head_ends();
    assert(")["@.take(")["@.len() as int) =~= ")["@);
    stands_between(NTH_HEAD@, "document.querySelectorAll("@, json_quoted(selector@), ")["@, ")["@);
    in_the_front(NTH_HEAD@ + json_quoted(selector@) + ")["@, decimal(nth as nat), "document.querySelectorAll("@ + json_quoted(selector@) + ")["@);
    in_the_front(NTH_HEAD@ + json_quoted(selector@) + ")["@ + decimal(nth as nat), NTH_TAIL@, "document.querySelectorAll("@ + json_quoted(selector@) + ")["@);
    nth_tail_starts();
    ends_with_part(NTH_HEAD@ + json_quoted(selector@), ")["@);
    stands_between(NTH_HEAD@ + json_quoted(selector@) + ")["@, ")["@, decimal(nth as nat), NTH_TAIL@, "]"@);
    nth_tail_holds();
    in_the_tail(NTH_HEAD@ + json_quoted(selector@) + ")["@ + decimal(nth as nat), NTH_TAIL@, "if (!e) throw new Error('no match');"@);
    nth_tail_holds();
    in_the_tail(NTH_HEAD@ + json_quoted(selector@) + ")["@ + decimal(nth as nat), NTH_TAIL@, "e.click();"@);
    assert(r@ == NTH_HEAD@ + json_quoted(selector@) + ")["@ + decimal(nth as nat) + NTH_TAIL@);
}

/// To fill a field is to set its value and to tell the page of it, twice.
pub proof fn fills_set_the_value(selector: &str, value: &str, r: String)
    requires
        call_ensures(fill_script, (selector, value), r),
    ensures
        has_text(r@, "document.querySelector("@ + json_quoted(selector@) + ")"@),
        has_text(r@, "e.value = "@ + json_quoted(value@) + ";"@),
        has_text(r@, "if (!e) throw new Error('no match');"@),
        has_text(r@, "e.dispatchEvent(new Event('input', {bubbles:true}));"@),
        has_text(r@, "e.dispatchEvent(new Event('change', {bubbles:true}));"@),
{
    fill_head_ends();
    fill_middle_starts();
    stands_between(FILL_HEAD@, "document.querySelector("@, json_quoted(selector@), FILL_MIDDLE@, ")"@);
    in_the_front(FILL_HEAD@ + json_quoted(selector@) + FILL_MIDDLE@, json_quoted(value@), "document.querySelector("@ + json_quoted(selector@) + ")"@);
    in_the_front(FILL_HEAD@ + json_quoted(selector@) + FILL_MIDDLE@ + json_quoted(value@), FILL_TAIL@, "document.querySelector("@ + json_quoted(selector@) + ")"@);
    fill_middle_ends();
    fill_tail_starts();
    ends_on(FILL_HEAD@ + json_quoted(selector@), FILL_MIDDLE@, "e.value = "@);
    stands_between(FILL_HEAD@ + json_quoted(selector@) + FILL_MIDDLE@, "e.value = "@, json_quoted(value@), FILL_TAIL@, ";"@);
    fill_middle_holds();
    in_the_tail(FILL_HEAD@ + json_quoted(selector@), FILL_MIDDLE@, "if (!e) throw new Error('no match');"@);
    in_the_front(FILL_HEAD@ + json_quoted(selector@) + FILL_MIDDLE@, json_quoted(value@), "if (!e) throw new Error('no match');"@);
    in_the_front(FILL_HEAD@ + json_quoted(selector@) + FILL_MIDDLE@ + json_quoted(value@), FILL_TAIL@, "if (!e) throw new Error('no match');"@);
    fill_tail_holds();
    in_the_tail(FILL_HEAD@ + json_quoted(selector@) + FILL_MIDDLE@ + json_quoted(value@), FILL_TAIL@, "e.dispatchEvent(new Event('input', {bubbles:true}));"@);
    fill_tail_holds();
    in_the_tail(FILL_HEAD@ + json_quoted(selector@) + FILL_MIDDLE@ + json_quoted(value@), FILL_TAIL@, "e.dispatchEvent(new Event('change', {bubbles:true}));"@);
    assert(r@ == FILL_HEAD@ + json_quoted(selector@) + FILL_MIDDLE@ + json_quoted(value@) + FILL_TAIL@);
}

/// The form around an element is described by its action, its method and the names and
/// values of all fields that a browser would send.
pub proof fn forms_are_described_in_full(selector: &str, r: String)
    requires
        call_ensures(form_script, (selector,), r),
    ensures
        has_text(r@, "document.querySelector("@ + json_quoted(selector@) + ")"@),
        has_text(r@, "if (!node) throw new Error('no match');"@),
        has_text(r@, "while (form && form.tagName !== 'FORM') form = form.parentNode;"@),
        has_text(r@, "if (!form) throw new Error('no enclosing form');"@),
        has_text(r@, "var action = form.getAttribute('action');"@),
        has_text(r@, "var method = (form.getAttribute('method') || 'GET').toUpperCase();"@),
        has_text(r@, "var list = form.querySelectorAll(tag);"@),
        has_text(r@, "for (var i = 0; i < list.length; i++) {"@),
        has_text(r@, "var name = e.getAttribute('name');"@),
        has_text(r@, "if (!name) continue;"@),
        has_text(r@, "if ((type === 'checkbox' || type === 'radio')
                        && e.getAttribute('checked') === null) continue;"@),
        has_text(r@, "if (e.getAttribute('disabled') !== null) continue;"@),
        has_text(r@, "var value = e.value;"@),
        has_text(r@, "value = e.getAttribute('value') || '';"@),
        has_text(r@, "fields.push([name, String(value)]);"@),
        has_text(r@, "collect('input');
            collect('textarea');
            collect('select');"@),
        has_text(r@, "return JSON.stringify({action: action, method: method, fields: fields});"@),
{
    form_head_ends();
    form_tail_starts();
    stands_between(FORM_HEAD@, "document.querySelector("@, json_quoted(selector@), FORM_TAIL@, ")"@);
    form_tail_holds();
    in_the_tail(FORM_HEAD@ + json_quoted(selector@), FORM_TAIL@, "if (!node) throw new Error('no match');"@);
    form_tail_holds();
    in_the_tail(FORM_HEAD@ + json_quoted(selector@), FORM_TAIL@, "while (form && form.tagName !== 'FORM') form = form.parentNode;"@);
    form_tail_holds();
    in_the_tail(FORM_HEAD@ + json_quoted(selector@), FORM_TAIL@, "if (!form) throw new Error('no enclosing form');"@);
    form_tail_holds();
    in_the_tail(FORM_HEAD@ + json_quoted(selector@), FORM_TAIL@, "var action = form.getAttribute('action');"@);
    form_tail_holds();
    in_the_tail(FORM_HEAD@ + json_quoted(selector@), FORM_TAIL@, "var method = (form.getAttribute('method') || 'GET').toUpperCase();"@);
    form_tail_holds();
    in_the_tail(FORM_HEAD@ + json_quoted(selector@), FORM_TAIL@, "var list = form.querySelectorAll(tag);"@);
    form_tail_holds();
    in_the_tail(FORM_HEAD@ + json_quoted(selector@), FORM_TAIL@, "for (var i = 0; i < list.length; i++) {"@);
    form_tail_holds();
    in_the_tail(FORM_HEAD@ + json_quoted(selector@), FORM_TAIL@, "var name = e.getAttribute('name');"@);
    form_tail_holds();
    in_the_tail(FORM_HEAD@ + json_quoted(selector@), FORM_TAIL@, "if (!name) continue;"@);
    form_tail_holds();
    in_the_tail(FORM_HEAD@ + json_quoted(selector@), FORM_TAIL@, "if ((type === 'checkbox' || type === 'radio')
                        && e.getAttribute('checked') === null) continue;"@);
    form_tail_holds();
    in_the_tail(FORM_HEAD@ + json_quoted(selector@), FORM_TAIL@, "if (e.getAttribute('disabled') !== null) continue;"@);
    form_tail_holds();
    in_the_tail(FORM_HEAD@ + json_quoted(selector@), FORM_TAIL@, "var value = e.value;"@);
    form_tail_holds();
    in_the_tail(FORM_HEAD@ + json_quoted(selector@), FORM_TAIL@, "value = e.getAttribute('value') || '';"@);
    form_tail_holds();
    in_the_tail(FORM_HEAD@ + json_quoted(selector@), FORM_TAIL@, "fields.push([name, String(value)]);"@);
    form_tail_holds();
    in_the_tail(FORM_HEAD@ + json_quoted(selector@), FORM_TAIL@, "collect('input');
            collect('textarea');
            collect('select');"@);
    form_tail_holds();
    in_the_tail(FORM_HEAD@ + json_quoted(selector@), FORM_TAIL@, "return JSON.stringify({action: action, method: method, fields: fields});"@);
    assert(r@ == FORM_HEAD@ + json_quoted(selector@) + FORM_TAIL@);
}

/// The event of a submission is dispatched at the form around the element.
pub proof fn submits_reach_the_form(selector: &str, r: String)
    requires
        call_ensures(submit_script, (selector,), r),
    ensures
        has_text(r@, "document.querySelector("@ + json_quoted(selector@) + ")"@),
        has_text(r@, "while (form && form.tagName !== 'FORM') form = form.parentNode;"@),
        has_text(r@, "form.dispatchEvent(new Event('submit', {bubbles:true, cancelable:true}));"@),
{
    submit_head_ends();
    submit_tail_starts();
    stands_between(SUBMIT_HEAD@, "document.querySelector("@, json_quoted(selector@), SUBMIT_TAIL@, ")"@);
    submit_tail_holds();
    in_the_tail(SUBMIT_HEAD@ + json_quoted(selector@), SUBMIT_TAIL@, "while (form && form.tagName !== 'FORM') form = form.parentNode;"@);
    submit_tail_holds();
    in_the_tail(SUBMIT_HEAD@ + json_quoted(selector@), SUBMIT_TAIL@, "form.dispatchEvent(new Event('submit', {bubbles:true, cancelable:true}));"@);
    assert(r@ == SUBMIT_HEAD@ + json_quoted(selector@) + SUBMIT_TAIL@);
}

/// An option is chosen by its value and, where none has it, by its text, and the page is
/// told of it.
pub proof fn options_are_chosen_by_value_then_text(selector: &str, value: &str, r: String)
    requires
        call_ensures(select_script, (selector, value), r),
    ensures
        has_text(r@, "document.querySelector("@ + json_quoted(selector@) + ")"@),
        has_text(r@, "var want = "@ + json_quoted(value@) + ";"@),
        has_text(r@, "if (!e) throw new Error('no match');"@),
        has_text(r@, "if (e.tagName !== 'SELECT') throw new Error('not a select');"@),
        has_text(r@, "var opts = e.querySelectorAll('option');"@),
        has_text(r@, "if (v === want) { matched = i; break; }"@),
        has_text(r@, "if ((opts[j].textContent || '').trim() === want) { matched = j; break; }"@),
        has_text(r@, "if (matched < 0) throw new Error('no option matches');"@),
        has_text(r@, "e.value = opts[matched].getAttribute('value') !== null"@),
        has_text(r@, "e.dispatchEvent(new Event('change', {bubbles:true}));"@),
{
    select_head_ends();
    select_middle_starts();
    stands_between(SELECT_HEAD@, "document.querySelector("@, json_quoted(selector@), SELECT_MIDDLE@, ")"@);
    in_the_front(SELECT_HEAD@ + json_quoted(selector@) + SELECT_MIDDLE@, json_quoted(value@), "document.querySelector("@ + json_quoted(selector@) + ")"@);
    in_the_front(SELECT_HEAD@ + json_quoted(selector@) + SELECT_MIDDLE@ + json_quoted(value@), SELECT_TAIL@, "document.querySelector("@ + json_quoted(selector@) + ")"@);
    select_middle_ends();
    select_tail_starts();
    ends_on(SELECT_HEAD@ + json_quoted(selector@), SELECT_MIDDLE@, "var want = "@);
    stands_between(SELECT_HEAD@ + json_quoted(selector@) + SELECT_MIDDLE@, "var want = "@, json_quoted(value@), SELECT_TAIL@, ";"@);
    select_middle_holds();
    in_the_tail(SELECT_HEAD@ + json_quoted(selector@), SELECT_MIDDLE@, "if (!e) throw new Error('no match');"@);
    in_the_front(SELECT_HEAD@ + json_quoted(selector@) + SELECT_MIDDLE@, json_quoted(value@), "if (!e) throw new Error('no match');"@);
    in_the_front(SELECT_HEAD@ + json_quoted(selector@) + SELECT_MIDDLE@ + json_quoted(value@), SELECT_TAIL@, "if (!e) throw new Error('no match');"@);
    select_middle_holds();
    in_the_tail(SELECT_HEAD@ + json_quoted(selector@), SELECT_MIDDLE@, "if (e.tagName !== 'SELECT') throw new Error('not a select');"@);
    in_the_front(SELECT_HEAD@ + json_quoted(selector@) + SELECT_MIDDLE@, json_quoted(value@), "if (e.tagName !== 'SELECT') throw new Error('not a select');"@);
    in_the_front(SELECT_HEAD@ + json_quoted(selector@) + SELECT_MIDDLE@ + json_quoted(value@), SELECT_TAIL@, "if (e.tagName !== 'SELECT') throw new Error('not a select');"@);
    select_tail_holds();
    in_the_tail(SELECT_HEAD@ + json_quoted(selector@) + SELECT_MIDDLE@ + json_quoted(value@), SELECT_TAIL@, "var opts = e.querySelectorAll('option');"@);
    select_tail_holds();
    in_the_tail(SELECT_HEAD@ + json_quoted(selector@) + SELECT_MIDDLE@ + json_quoted(value@), SELECT_TAIL@, "if (v === want) { matched = i; break; }"@);
    select_tail_holds();
    in_the_tail(SELECT_HEAD@ + json_quoted(selector@) + SELECT_MIDDLE@ + json_quoted(value@), SELECT_TAIL@, "if ((opts[j].textContent || '').trim() === want) { matched = j; break; }"@);
    select_tail_holds();
    in_the_tail(SELECT_HEAD@ + json_quoted(selector@) + SELECT_MIDDLE@ + json_quoted(value@), SELECT_TAIL@, "if (matched < 0) throw new Error('no option matches');"@);
    select_tail_holds();
    in_the_tail(SELECT_HEAD@ + json_quoted(selector@) + SELECT_MIDDLE@ + json_quoted(value@), SELECT_TAIL@, "e.value = opts[matched].getAttribute('value') !== null"@);
    select_tail_holds();
    in_the_tail(SELECT_HEAD@ + json_quoted(selector@) + SELECT_MIDDLE@ + json_quoted(value@), SELECT_TAIL@, "e.dispatchEvent(new Event('change', {bubbles:true}));"@);
    assert(r@ == SELECT_HEAD@ + json_quoted(selector@) + SELECT_MIDDLE@ + json_quoted(value@) + SELECT_TAIL@);
}

/// A key is pressed at the element that the selector finds, under its name and its code;
/// one that stands for a character is also typed.
pub proof fn keys_are_pressed_at_their_element(selector: &str, key: &str, code: u32, r: String)
    requires
        call_ensures(key_script, (selector, key), r),
        call_ensures(key_code_for, (key,), code),
    ensures
        has_text(r@, "document.querySelector("@ + json_quoted(selector@) + ")"@),
        has_text(r@, "var key = "@ + json_quoted(key@) + ";"@),
        has_text(r@, "var code = "@ + decimal(code as nat) + ";"@),
        has_text(r@, "var printable = "@ + (if key@.len() == 1 { "true"@ } else { "false"@ }) + ";"@),
        has_text(r@, "if (!e) throw new Error('no match');"@),
        has_text(r@, "var ev = new KeyboardEvent(type, {
                    key: key, code: key, keyCode: code, which: code,"@),
        has_text(r@, "e.dispatchEvent(ev);"@),
        has_text(r@, "fire('keydown');
            if (printable) fire('keypress');
            fire('keyup');"@),
{
    key_head_ends();
    key_name_starts();
    stands_between(KEY_HEAD@, "document.querySelector("@, json_quoted(selector@), KEY_NAME@, ")"@);
    in_the_front(KEY_HEAD@ + json_quoted(selector@) + KEY_NAME@, json_quoted(key@), "document.querySelector("@ + json_quoted(selector@) + ")"@);
    in_the_front(KEY_HEAD@ + json_quoted(selector@) + KEY_NAME@ + json_quoted(key@), KEY_CODE@, "document.querySelector("@ + json_quoted(selector@) + ")"@);
    in_the_front(KEY_HEAD@ + json_quoted(selector@) + KEY_NAME@ + json_quoted(key@) + KEY_CODE@, decimal(code as nat), "document.querySelector("@ + json_quoted(selector@) + ")"@);
    in_the_front(KEY_HEAD@ + json_quoted(selector@) + KEY_NAME@ + json_quoted(key@) + KEY_CODE@ + decimal(code as nat), KEY_PRINTABLE@, "document.querySelector("@ + json_quoted(selector@) + ")"@);
    in_the_front(KEY_HEAD@ + json_quoted(selector@) + KEY_NAME@ + json_quoted(key@) + KEY_CODE@ + decimal(code as nat) + KEY_PRINTABLE@, (if key@.len() == 1 { "true"@ } else { "false"@ }), "document.querySelector("@ + json_quoted(selector@) + ")"@);
    in_the_front(KEY_HEAD@ + json_quoted(selector@) + KEY_NAME@ + json_quoted(key@) + KEY_CODE@ + decimal(code as nat) + KEY_PRINTABLE@ + (if key@.len() == 1 { "true"@ } else { "false"@ }), KEY_TAIL@, "document.querySelector("@ + json_quoted(selector@) + ")"@);
    key_name_ends();
    key_code_starts();
    ends_on(KEY_HEAD@ + json_quoted(selector@), KEY_NAME@, "var key = "@);
    stands_between(KEY_HEAD@ + json_quoted(selector@) + KEY_NAME@, "var key = "@, json_quoted(key@), KEY_CODE@, ";"@);
    in_the_front(KEY_HEAD@ + json_quoted(selector@) + KEY_NAME@ + json_quoted(key@) + KEY_CODE@, decimal(code as nat), "var key = "@ + json_quoted(key@) + ";"@);
    in_the_front(KEY_HEAD@ + json_quoted(selector@) + KEY_NAME@ + json_quoted(key@) + KEY_CODE@ + decimal(code as nat), KEY_PRINTABLE@, "var key = "@ + json_quoted(key@) + ";"@);
    in_the_front(KEY_HEAD@ + json_quoted(selector@) + KEY_NAME@ + json_quoted(key@) + KEY_CODE@ + decimal(code as nat) + KEY_PRINTABLE@, (if key@.len() == 1 { "true"@ } else { "false"@ }), "var key = "@ + json_quoted(key@) + ";"@);
    in_the_front(KEY_HEAD@ + json_quoted(selector@) + KEY_NAME@ + json_quoted(key@) + KEY_CODE@ + decimal(code as nat) + KEY_PRINTABLE@ + (if key@.len() == 1 { "true"@ } else { "false"@ }), KEY_TAIL@, "var key = "@ + json_quoted(key@) + ";"@);
    key_code_ends();
    key_printable_starts();
    ends_on(KEY_HEAD@ + json_quoted(selector@) + KEY_NAME@ + json_quoted(key@), KEY_CODE@, "var code = "@);
    stands_between(KEY_HEAD@ + json_quoted(selector@) + KEY_NAME@ + json_quoted(key@) + KEY_CODE@, "var code = "@, decimal(code as nat), KEY_PRINTABLE@, ";"@);
    in_the_front(KEY_HEAD@ + json_quoted(selector@) + KEY_NAME@ + json_quoted(key@) + KEY_CODE@ + decimal(code as nat) + KEY_PRINTABLE@, (if key@.len() == 1 { "true"@ } else { "false"@ }), "var code = "@ + decimal(code as nat) + ";"@);
    in_the_front(KEY_HEAD@ + json_quoted(selector@) + KEY_NAME@ + json_quoted(key@) + KEY_CODE@ + decimal(code as nat) + KEY_PRINTABLE@ + (if key@.len() == 1 { "true"@ } else { "false"@ }), KEY_TAIL@, "var code = "@ + decimal(code as nat) + ";"@);
    key_printable_ends();
    key_tail_starts();
    ends_on(KEY_HEAD@ + json_quoted(selector@) + KEY_NAME@ + json_quoted(key@) + KEY_CODE@ + decimal(code as nat), KEY_PRINTABLE@, "var printable = "@);
    stands_between(KEY_HEAD@ + json_quoted(selector@) + KEY_NAME@ + json_quoted(key@) + KEY_CODE@ + decimal(code as nat) + KEY_PRINTABLE@, "var printable = "@, (if key@.len() == 1 { "true"@ } else { "false"@ }), KEY_TAIL@, ";"@);
    key_name_holds();
    in_the_tail(KEY_HEAD@ + json_quoted(selector@), KEY_NAME@, "if (!e) throw new Error('no match');"@);
    in_the_front(KEY_HEAD@ + json_quoted(selector@) + KEY_NAME@, json_quoted(key@), "if (!e) throw new Error('no match');"@);
    in_the_front(KEY_HEAD@ + json_quoted(selector@) + KEY_NAME@ + json_quoted(key@), KEY_CODE@, "if (!e) throw new Error('no match');"@);
    in_the_front(KEY_HEAD@ + json_quoted(selector@) + KEY_NAME@ + json_quoted(key@) + KEY_CODE@, decimal(code as nat), "if (!e) throw new Error('no match');"@);
    in_the_front(KEY_HEAD@ + json_quoted(selector@) + KEY_NAME@ + json_quoted(key@) + KEY_CODE@ + decimal(code as nat), KEY_PRINTABLE@, "if (!e) throw new Error('no match');"@);
    in_the_front(KEY_HEAD@ + json_quoted(selector@) + KEY_NAME@ + json_quoted(key@) + KEY_CODE@ + decimal(code as nat) + KEY_PRINTABLE@, (if key@.len() == 1 { "true"@ } else { "false"@ }), "if (!e) throw new Error('no match');"@);
    in_the_front(KEY_HEAD@ + json_quoted(selector@) + KEY_NAME@ + json_quoted(key@) + KEY_CODE@ + decimal(code as nat) + KEY_PRINTABLE@ + (if key@.len() == 1 { "true"@ } else { "false"@ }), KEY_TAIL@, "if (!e) throw new Error('no match');"@);
    key_tail_holds();
    in_the_tail(KEY_HEAD@ + json_quoted(selector@) + KEY_NAME@ + json_quoted(key@) + KEY_CODE@ + decimal(code as nat) + KEY_PRINTABLE@ + (if key@.len() == 1 { "true"@ } else { "false"@ }), KEY_TAIL@, "var ev = new KeyboardEvent(type, {
                    key: key, code: key, keyCode: code, which: code,"@);
    key_tail_holds();
    in_the_tail(KEY_HEAD@ + json_quoted(selector@) + KEY_NAME@ + json_quoted(key@) + KEY_CODE@ + decimal(code as nat) + KEY_PRINTABLE@ + (if key@.len() == 1 { "true"@ } else { "false"@ }), KEY_TAIL@, "e.dispatchEvent(ev);"@);
    key_tail_holds();
    in_the_tail(KEY_HEAD@ + json_quoted(selector@) + KEY_NAME@ + json_quoted(key@) + KEY_CODE@ + decimal(code as nat) + KEY_PRINTABLE@ + (if key@.len() == 1 { "true"@ } else { "false"@ }), KEY_TAIL@, "fire('keydown');
            if (printable) fire('keypress');
            fire('keyup');"@);
    assert(r@ == KEY_HEAD@ + json_quoted(selector@) + KEY_NAME@ + json_quoted(key@) + KEY_CODE@ + decimal(code as nat) + KEY_PRINTABLE@ + (if key@.len() == 1 { "true"@ } else { "false"@ }) + KEY_TAIL@);
}

} // verus!
