//! The expressions that are evaluated in a page, and what their results say.

use vstd::prelude::*;
use crate::assoc::lemma_lookup_first;
use crate::digits::hex;
use crate::json::{
    bool_in, copy_or_null, field, field_in, get_in, or_null, read_bool, read_text, text, text_field,
    text_field_in, text_in, text_or_null, Fields, Json, JsonView,
};
use crate::text::{occurs, occurs_at, same};

verus! {

/// Reads the page: its URL, title, text, and the elements that can be acted on.
pub const SNAPSHOT_EXPRESSION: &'static str = r#"(function() {
  var body = document.body ? document.body.innerText.slice(0, 10000) : '';
  var elements = [];
  var all = document.querySelectorAll('a, button, input, textarea, select, [role="button"], [role="link"], [role="textbox"], summary');
  var seen = 0;
  for (var i = 0; i < all.length; i++) {
    if (seen >= 100) break;
    var el = all[i];
    var rect = el.getBoundingClientRect();
    if (rect.width === 0 && rect.height === 0) continue;
    var label = (el.getAttribute('aria-label') || el.innerText || el.value || el.getAttribute('placeholder') || el.getAttribute('name') || '').toString().trim().slice(0, 200);
    elements.push({
      tag: el.tagName.toLowerCase(),
      id: el.id || null,
      type: el.getAttribute('type') || null,
      label: label,
      selector: cssPath(el),
    });
    seen += 1;
  }
  return { url: location.href, title: document.title, text: body, elements: elements };

  function cssPath(el) {
    if (el.id) return '#' + CSS.escape(el.id);
    var parts = [];
    var node = el;
    while (node && node.nodeType === 1 && node !== document.body) {
      var name = node.tagName.toLowerCase();
      var nth = 1;
      var sibling = node;
      while ((sibling = sibling.previousElementSibling)) {
        if (sibling.tagName.toLowerCase() === name) nth += 1;
      }
      parts.unshift(name + ':nth-of-type(' + nth + ')');
      node = node.parentElement;
    }
    return parts.join(' > ');
  }
})()"#;

/// Reads where the page is and whether it is ready.
pub const PAGE_STATE_EXPRESSION: &'static str =
    "(function() { return { href: location.href, ready: document.readyState }; })()";

// ---------------------------------------------------------------------------
// Quoting

/// A character as it stands in a JSON string.
pub open spec fn escaped(c: char) -> Seq<char> {
    if c == '"' {
        seq!['\\', '"']
    } else if c == '\\' {
        seq!['\\', '\\']
    } else if c as u32 == 8 {
        seq!['\\', 'b']
    } else if c as u32 == 9 {
        seq!['\\', 't']
    } else if c as u32 == 10 {
        seq!['\\', 'n']
    } else if c as u32 == 12 {
        seq!['\\', 'f']
    } else if c as u32 == 13 {
        seq!['\\', 'r']
    } else if (c as u32) < 32 {
        seq!['\\', 'u'] + hex(c as nat, 4)
    } else {
        seq![c]
    }
}

/// The characters of a text as they stand in a JSON string.
pub open spec fn escaped_text(s: Seq<char>) -> Seq<char>
    decreases s.len(),
{
    if s.len() == 0 {
        Seq::empty()
    } else {
        escaped_text(s.drop_last()) + escaped(s.last())
    }
}

/// A text as a JSON string.
pub open spec fn quoted(s: Seq<char>) -> Seq<char> {
    seq!['"'] + escaped_text(s) + seq!['"']
}

/// `serde_json::to_string` of a `str`: the text as a JSON string. The quote and the
/// backslash are escaped, and every control character below the space: five of them
/// by a letter, the others by four lower-case hexadecimal digits. It does not fail on
/// a `str`.
#[verifier::external_body]
fn json_string(s: &str) -> (r: String)
    ensures
        r@ == quoted(s@),
{
    serde_json::to_string(s).unwrap_or_default()
}

/// Clicks the element that a selector names.
pub open spec fn click_script(selector: Seq<char>) -> Seq<char> {
    "(() => { const el = document.querySelector("@ + quoted(selector)
        + "); if (!el) return { clicked: false, reason: 'no element matches selector' }; el.click(); return { clicked: true, tag: el.tagName.toLowerCase(), text: (el.innerText || el.value || '').toString().slice(0, 500) }; })()"@
}

/// Focuses the element that a selector names.
pub open spec fn focus_script(selector: Seq<char>) -> Seq<char> {
    "(() => { const el = document.querySelector("@ + quoted(selector)
        + "); if (!el) return { focused: false, reason: 'no element matches selector' }; el.focus(); return { focused: true, tag: el.tagName.toLowerCase() }; })()"@
}

/// The expression that clicks the element that a selector names.
pub fn click_expression(selector: &str) -> (r: String)
    ensures
        r@ == click_script(selector@),
{
    let mut out = "(() => { const el = document.querySelector(".to_owned();
    out.append(json_string(selector).as_str());
    out.append(
        "); if (!el) return { clicked: false, reason: 'no element matches selector' }; el.click(); return { clicked: true, tag: el.tagName.toLowerCase(), text: (el.innerText || el.value || '').toString().slice(0, 500) }; })()",
    );
    out
}

/// The expression that focuses the element that a selector names.
pub fn focus_expression(selector: &str) -> (r: String)
    ensures
        r@ == focus_script(selector@),
{
    let mut out = "(() => { const el = document.querySelector(".to_owned();
    out.append(json_string(selector).as_str());
    out.append(
        "); if (!el) return { focused: false, reason: 'no element matches selector' }; el.focus(); return { focused: true, tag: el.tagName.toLowerCase() }; })()",
    );
    out
}

// ---------------------------------------------------------------------------
// Evaluating

/// The parameters of `Runtime.evaluate`.
pub open spec fn evaluate_params(expression: Seq<char>) -> JsonView {
    JsonView::Object(
        Seq::empty().push(("expression"@, JsonView::Text(expression))).push(
            ("returnByValue"@, JsonView::Bool(true)),
        ).push(("awaitPromise"@, JsonView::Bool(true))),
    )
}

/// The parameters of `Runtime.evaluate`.
pub fn evaluate_request(expression: &str) -> (r: Json)
    ensures
        r.deep_view() == evaluate_params(expression@),
{
    Fields::new().with("expression", text(expression)).with(
        "returnByValue",
        Json::Bool(true),
    ).with("awaitPromise", Json::Bool(true)).object()
}

/// The value in the answer to `Runtime.evaluate`.
pub open spec fn evaluated(result: JsonView) -> JsonView {
    or_null(field_in(field(result, "result"@), "value"@))
}

/// The value in the answer to `Runtime.evaluate`.
pub fn evaluated_value(result: &Json) -> (r: Json)
    ensures
        r.deep_view() == evaluated(result.deep_view()),
{
    copy_or_null(get_in(result.get("result"), "value"))
}

/// What an evaluation is reported as: its value, type and description, and the text
/// of the exception it ended in, if any.
pub open spec fn evaluation_report(result: JsonView) -> JsonView {
    let value = field(result, "result"@);
    JsonView::Object(
        Seq::empty().push(("value"@, or_null(field_in(value, "value"@)))).push(
            ("type"@, or_null(field_in(value, "type"@))),
        ).push(("description"@, or_null(field_in(value, "description"@)))).push(
            (
                "exception"@,
                text_or_null(text_field_in(field(result, "exceptionDetails"@), "text"@)),
            ),
        ),
    )
}

/// What an evaluation is reported as.
pub fn report_evaluation(result: &Json) -> (r: Json)
    ensures
        r.deep_view() == evaluation_report(result.deep_view()),
{
    let value = result.get("result");
    let exception = read_text(get_in(result.get("exceptionDetails"), "text"));
    Fields::new().with("value", copy_or_null(get_in(value, "value"))).with(
        "type",
        copy_or_null(get_in(value, "type")),
    ).with("description", copy_or_null(get_in(value, "description"))).with(
        "exception",
        crate::json::optional_text(&exception),
    ).object()
}

/// Whether the state of a page says that it left the blank page and is complete.
pub open spec fn is_loaded(state: JsonView) -> bool {
    match text_field(state, "href"@) {
        Some(href) => href != "about:blank"@ && text_field(state, "ready"@) == Some("complete"@),
        None => false,
    }
}

/// Whether the state of a page says that it left the blank page and is complete.
pub fn page_is_loaded(state: &Json) -> (r: bool)
    ensures
        r == is_loaded(state.deep_view()),
{
    match read_text(state.get("href")) {
        Some(href) => match read_text(state.get("ready")) {
            Some(ready) => !same(href.as_str(), "about:blank") && same(ready.as_str(), "complete"),
            None => false,
        },
        None => false,
    }
}

/// Whether focusing an element succeeded.
pub open spec fn is_focused(state: JsonView) -> bool {
    bool_in(field(state, "focused"@)) == Some(true)
}

/// What is reported where the element to type into could not be focused.
pub open spec fn not_typed(state: JsonView) -> JsonView {
    JsonView::Object(
        Seq::empty().push(("typed"@, JsonView::Bool(false))).push(
            (
                "reason"@,
                match field(state, "reason"@) {
                    Some(reason) => reason,
                    None => JsonView::Text("no element matches selector"@),
                },
            ),
        ),
    )
}

/// Whether focusing an element succeeded.
pub fn focus_succeeded(state: &Json) -> (r: bool)
    ensures
        r == is_focused(state.deep_view()),
{
    match read_bool(state.get("focused")) {
        Some(focused) => focused,
        None => false,
    }
}

/// What is reported where the element to type into could not be focused.
pub fn report_not_typed(state: &Json) -> (r: Json)
    ensures
        r.deep_view() == not_typed(state.deep_view()),
{
    let reason = match state.get("reason") {
        Some(reason) => reason.clone(),
        None => text("no element matches selector"),
    };
    Fields::new().with("typed", Json::Bool(false)).with("reason", reason).object()
}

/// What is evaluated in a page is evaluated to the end, and its value comes back.
pub proof fn law_evaluation_gives_a_value(expression: Seq<char>)
    ensures
        text_in(field(evaluate_params(expression), "expression"@)) == Some(expression),
        bool_in(field(evaluate_params(expression), "returnByValue"@)) == Some(true),
        bool_in(field(evaluate_params(expression), "awaitPromise"@)) == Some(true),
{
    reveal_strlit("expression");
    reveal_strlit("returnByValue");
    reveal_strlit("awaitPromise");
    assert("expression"@.len() == 10 && "returnByValue"@.len() == 13 && "awaitPromise"@.len()
        == 12);
    if let JsonView::Object(members) = evaluate_params(expression) {
        assert(members[0].0 == "expression"@ && members[1].0 == "returnByValue"@ && members[2].0
            == "awaitPromise"@);
        lemma_lookup_first(members, 0);
        lemma_lookup_first(members, 1);
        lemma_lookup_first(members, 2);
    }
}


/// The value of an evaluation is the member `value` of the member `result` of the answer,
/// and is reported with its type and description, and with the text of the exception where
/// there is one.
pub proof fn law_evaluation_is_reported(result: JsonView, object: JsonView)
    requires
        field(result, "result"@) == Some(object),
    ensures
        field(object, "value"@) matches Some(value) ==> evaluated(result) == value,
        field(object, "value"@) is None ==> evaluated(result) == JsonView::Null,
        ({
            let report = evaluation_report(result);
            &&& field(object, "value"@) matches Some(value) ==> field(report, "value"@) == Some(
                value,
            )
            &&& field(object, "type"@) matches Some(kind) ==> field(report, "type"@) == Some(kind)
            &&& field(object, "description"@) matches Some(text) ==> field(report, "description"@)
                == Some(text)
            &&& text_in(field_in(field(result, "exceptionDetails"@), "text"@)) matches Some(text)
                ==> text_in(field(report, "exception"@)) == Some(text)
            &&& field(result, "exceptionDetails"@) is None ==> field(report, "exception"@) == Some(
                JsonView::Null,
            )
        }),
{
    reveal_strlit("value");
    reveal_strlit("type");
    reveal_strlit("description");
    reveal_strlit("exception");
    assert("value"@.len() == 5 && "type"@.len() == 4 && "description"@.len() == 11
        && "exception"@.len() == 9);
    if let JsonView::Object(members) = evaluation_report(result) {
        assert(members[0].0 == "value"@ && members[1].0 == "type"@ && members[2].0
            == "description"@ && members[3].0 == "exception"@);
        lemma_lookup_first(members, 0);
        lemma_lookup_first(members, 1);
        lemma_lookup_first(members, 2);
        lemma_lookup_first(members, 3);
    }
}

/// A page is loaded exactly where it says that it is complete and is at a place other than
/// the blank page.
pub proof fn law_page_is_loaded_elsewhere(state: JsonView, href: Seq<char>)
    requires
        text_in(field(state, "href"@)) == Some(href),
    ensures
        is_loaded(state) <==> href != "about:blank"@ && text_in(field(state, "ready"@)) == Some(
            "complete"@,
        ),
{
}

/// Typing that found no element to focus says so, and for the reason that the page gave.
pub proof fn law_not_typed_says_why(state: JsonView)
    ensures
        bool_in(field(not_typed(state), "typed"@)) == Some(false),
        field(state, "reason"@) matches Some(reason) ==> field(not_typed(state), "reason"@) == Some(
            reason,
        ),
        field(state, "reason"@) is None ==> text_in(field(not_typed(state), "reason"@)) == Some(
            "no element matches selector"@,
        ),
        is_focused(state) <==> bool_in(field(state, "focused"@)) == Some(true),
{
    reveal_strlit("typed");
    reveal_strlit("reason");
    assert("typed"@.len() == 5 && "reason"@.len() == 6);
    if let JsonView::Object(members) = not_typed(state) {
        assert(members[0].0 == "typed"@ && members[1].0 == "reason"@);
        lemma_lookup_first(members, 0);
        lemma_lookup_first(members, 1);
    }
}

/// A click and a focus act on the element that the selector, as a JSON string, names, and
/// each does the one and not the other.
pub proof fn law_scripts_name_the_selector(selector: Seq<char>)
    ensures
        occurs(click_script(selector), "document.querySelector("@ + quoted(selector) + ")"@),
        occurs(focus_script(selector), "document.querySelector("@ + quoted(selector) + ")"@),
        occurs(click_script(selector), "el.click();"@),
        occurs(focus_script(selector), "el.focus();"@),
{
    let front = "(() => { const el = document.querySelector("@;
    let click = "); if (!el) return { clicked: false, reason: 'no element matches selector' }; el.click(); return { clicked: true, tag: el.tagName.toLowerCase(), text: (el.innerText || el.value || '').toString().slice(0, 500) }; })()"@;
    let focus = "); if (!el) return { focused: false, reason: 'no element matches selector' }; el.focus(); return { focused: true, tag: el.tagName.toLowerCase() }; })()"@;
    reveal_strlit("(() => { const el = document.querySelector(");
    reveal_strlit("document.querySelector(");
    reveal_strlit(")");
    reveal_strlit("el.click();");
    reveal_strlit("el.focus();");
    reveal_strlit(
        "); if (!el) return { clicked: false, reason: 'no element matches selector' }; el.click(); return { clicked: true, tag: el.tagName.toLowerCase(), text: (el.innerText || el.value || '').toString().slice(0, 500) }; })()",
    );
    reveal_strlit(
        "); if (!el) return { focused: false, reason: 'no element matches selector' }; el.focus(); return { focused: true, tag: el.tagName.toLowerCase() }; })()",
    );
    let named = "document.querySelector("@ + quoted(selector) + ")"@;
    assert(front.subrange(20, 43) =~= "document.querySelector("@);
    let at = front.len() - "document.querySelector("@.len();
    assert(click_script(selector).subrange(at, at + named.len()) =~= named);
    assert(occurs_at(click_script(selector), named, at));
    assert(focus_script(selector).subrange(at, at + named.len()) =~= named);
    assert(occurs_at(focus_script(selector), named, at));
    let before = (front.len() + quoted(selector).len()) as int;
    let done = "el.click();"@;
    assert(click.subrange(78, 89) =~= done);
    assert(click_script(selector).subrange(before + 78, before + 89) =~= done);
    assert(occurs_at(click_script(selector), done, before + 78));
    let done = "el.focus();"@;
    assert(focus.subrange(78, 89) =~= done);
    assert(focus_script(selector).subrange(before + 78, before + 89) =~= done);
    assert(occurs_at(focus_script(selector), done, before + 78));
}

} // verus!
