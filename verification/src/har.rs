//! HTTP archives (HAR): what a store is written to and read from.

use vstd::prelude::*;
use crate::assoc::{
    distinct, lemma_lookup_entry, lemma_lookup_first, lemma_put_keeps_distinct, lookup, put,
};
use crate::digits::{decimal, decimal_text, lemma_decimal_injective};
use crate::json::{
    array, double_in, field, field_in, get_in, is_finite, items_in, number_or_null, optional_number,
    read_double, string_field, string_field_in, text, text_field, text_field_in, text_in, u32_field,
    u32_field_in, u64_in, uint, uint_view, Fields, Json, JsonView,
};
use crate::network::{
    blank_request, requests_of, valid_request, valid_store, Headers, NetworkRequest, NetworkStore,
    RequestView,
};
use crate::number::{number_bits, Number};

verus! {

// ---------------------------------------------------------------------------
// Export

/// A header as an entry of a HAR list.
pub open spec fn har_header(header: (Seq<char>, Seq<char>)) -> JsonView {
    JsonView::Object(
        Seq::empty().push(("name"@, JsonView::Text(header.0))).push(
            ("value"@, JsonView::Text(header.1)),
        ),
    )
}

/// Headers as a HAR list.
pub open spec fn har_header_list(headers: Seq<(Seq<char>, Seq<char>)>) -> JsonView {
    JsonView::Array(Seq::new(headers.len(), |i: int| har_header(headers[i])))
}

/// The text, or the empty text where there is none.
pub open spec fn or_empty(text: Option<Seq<char>>) -> Seq<char> {
    match text {
        Some(s) => s,
        None => Seq::empty(),
    }
}

/// What a request sent, as a HAR object.
pub open spec fn har_post_data(r: RequestView) -> JsonView {
    match r.post_data {
        Some(sent) => JsonView::Object(
            Seq::empty().push(
                (
                    "mimeType"@,
                    JsonView::Text(or_empty(lookup(r.request_headers, "content-type"@))),
                ),
            ).push(("text"@, JsonView::Text(sent))),
        ),
        None => JsonView::Null,
    }
}

/// The request side of a HAR entry.
pub open spec fn har_request(r: RequestView) -> JsonView {
    JsonView::Object(
        Seq::empty().push(("method"@, JsonView::Text(r.method))).push(
            ("url"@, JsonView::Text(r.url)),
        ).push(("headers"@, har_header_list(r.request_headers))).push(
            ("postData"@, har_post_data(r)),
        ),
    )
}

/// The size that a HAR entry gives: zero where none is known.
pub open spec fn har_size(r: RequestView) -> Number {
    match r.encoded_data_length {
        Some(size) => size,
        None => Number::Float(0),
    }
}

/// The content of the response side of a HAR entry.
pub open spec fn har_content(r: RequestView) -> JsonView {
    JsonView::Object(
        Seq::empty().push(("size"@, number_or_null(Some(har_size(r))))).push(
            ("mimeType"@, JsonView::Text(or_empty(r.mime_type))),
        ),
    )
}

/// The response side of a HAR entry.
pub open spec fn har_response(r: RequestView) -> JsonView {
    JsonView::Object(
        Seq::empty().push(
            (
                "status"@,
                uint_view(
                    match r.status {
                        Some(status) => status as int,
                        None => 0,
                    },
                ),
            ),
        ).push(("statusText"@, JsonView::Text(or_empty(r.status_text)))).push(
            ("headers"@, har_header_list(r.response_headers)),
        ).push(("content"@, har_content(r))),
    )
}

/// A request as a HAR entry.
pub open spec fn har_entry(r: RequestView) -> JsonView {
    JsonView::Object(
        Seq::empty().push(("request"@, har_request(r))).push(("response"@, har_response(r))),
    )
}

/// The requests as HAR entries.
pub open spec fn har_entries(requests: Seq<RequestView>) -> Seq<JsonView> {
    Seq::new(requests.len(), |i: int| har_entry(requests[i]))
}

/// The requests as a HAR object.
pub open spec fn har_log(requests: Seq<RequestView>) -> JsonView {
    JsonView::Object(
        Seq::empty().push(
            (
                "log"@,
                JsonView::Object(
                    Seq::empty().push(("version"@, JsonView::Text("1.2"@))).push(
                        (
                            "creator"@,
                            JsonView::Object(
                                Seq::empty().push(("name"@, JsonView::Text("Zed"@))).push(
                                    ("version"@, JsonView::Text("0.1"@)),
                                ),
                            ),
                        ),
                    ).push(("entries"@, JsonView::Array(har_entries(requests)))),
                ),
            ),
        ),
    )
}

fn text_or_empty(s: &Option<String>) -> (r: Json)
    ensures
        r.deep_view() == JsonView::Text(or_empty(s.deep_view())),
{
    match s {
        Some(s) => text(s.as_str()),
        None => {
            let empty = String::new();
            assert(empty@ =~= Seq::<char>::empty());
            Json::Text(empty)
        },
    }
}

fn header_list(headers: &Headers) -> (r: Json)
    ensures
        r.deep_view() == har_header_list(headers.deep_view()),
{
    let entries = headers.entries();
    let ghost models = headers.deep_view();
    let ghost wanted = Seq::new(models.len(), |i: int| har_header(models[i]));
    let mut items: Vec<Json> = Vec::new();
    let mut i: usize = 0;
    while i < entries.len()
        invariant
            i <= entries@.len(),
            models == entries.deep_view(),
            wanted == Seq::new(models.len(), |i: int| har_header(models[i])),
            items.deep_view() == wanted.take(i as int),
        decreases entries@.len() - i,
    {
        let ghost done = items.deep_view();
        let item = Fields::new().with("name", text(entries[i].0.as_str())).with(
            "value",
            text(entries[i].1.as_str()),
        ).object();
        items.push(item);
        assert(items.deep_view() =~= done.push(item.deep_view()));
        assert(models[i as int] == (entries@[i as int].0@, entries@[i as int].1@));
        i = i + 1;
        assert(items.deep_view() =~= wanted.take(i as int));
    }
    assert(items.deep_view() =~= wanted);
    array(items)
}

fn entry_of(request: &NetworkRequest) -> (r: Json)
    ensures
        r.deep_view() == har_entry(request.deep_view()),
{
    let post_data = match &request.post_data {
        Some(sent) => {
            let mime = match request.request_headers.get("content-type") {
                Some(mime) => text(mime.as_str()),
                None => text_or_empty(&None),
            };
            Fields::new().with("mimeType", mime).with("text", text(sent.as_str())).object()
        },
        None => Json::Null,
    };
    let sent = Fields::new().with("method", text(request.method.as_str())).with(
        "url",
        text(request.url.as_str()),
    ).with("headers", header_list(&request.request_headers)).with("postData", post_data).object();
    let size = match request.encoded_data_length {
        Some(size) => size,
        None => Number::Float(0),
    };
    let content = Fields::new().with("size", optional_number(Some(size))).with(
        "mimeType",
        text_or_empty(&request.mime_type),
    ).object();
    let status: u64 = match request.status {
        Some(status) => status as u64,
        None => 0,
    };
    let received = Fields::new().with("status", uint(status)).with(
        "statusText",
        text_or_empty(&request.status_text),
    ).with("headers", header_list(&request.response_headers)).with("content", content).object();
    Fields::new().with("request", sent).with("response", received).object()
}

/// The store as a HAR object, its requests in arrival order.
pub fn export_har(store: &NetworkStore) -> (r: Json)
    ensures
        r.deep_view() == har_log(requests_of(store.deep_view())),
{
    let requests = store.requests();
    let ghost wanted = har_entries(requests.deep_view());
    let mut entries: Vec<Json> = Vec::new();
    let mut i: usize = 0;
    while i < requests.len()
        invariant
            i <= requests@.len(),
            wanted == har_entries(requests.deep_view()),
            entries.deep_view() == wanted.take(i as int),
        decreases requests@.len() - i,
    {
        let ghost done = entries.deep_view();
        let entry = entry_of(requests[i]);
        entries.push(entry);
        assert(entries.deep_view() =~= done.push(entry.deep_view()));
        assert(requests.deep_view()[i as int] == requests@[i as int].deep_view());
        i = i + 1;
        assert(entries.deep_view() =~= wanted.take(i as int));
    }
    assert(entries.deep_view() =~= wanted);
    let creator = Fields::new().with("name", text("Zed")).with("version", text("0.1")).object();
    let log = Fields::new().with("version", text("1.2")).with("creator", creator).with(
        "entries",
        array(entries),
    ).object();
    Fields::new().with("log", log).object()
}

// ---------------------------------------------------------------------------
// Import

/// The headers in a HAR list: those entries that have a name and a value.
pub open spec fn listed_headers(items: Seq<JsonView>) -> Seq<(Seq<char>, Seq<char>)>
    decreases items.len(),
{
    if items.len() == 0 {
        Seq::empty()
    } else {
        let rest = listed_headers(items.drop_last());
        match (text_field(items.last(), "name"@), text_field(items.last(), "value"@)) {
            (Some(name), Some(value)) => put(rest, name, value),
            _ => rest,
        }
    }
}

/// The headers of one side of a HAR entry.
pub open spec fn side_headers(side: Option<JsonView>) -> Seq<(Seq<char>, Seq<char>)> {
    match items_in(field_in(side, "headers"@)) {
        Some(items) => listed_headers(items),
        None => Seq::empty(),
    }
}

/// The id that the entry at that position is kept under.
pub open spec fn har_id(index: int) -> Seq<char> {
    "har-"@ + decimal(index as nat)
}

/// The request in a HAR entry.
pub open spec fn imported_request(index: int, entry: JsonView) -> RequestView {
    let sent = field(entry, "request"@);
    let received = field(entry, "response"@);
    let content = field_in(received, "content"@);
    RequestView {
        url: or_empty(text_field_in(sent, "url"@)),
        method: match text_field_in(sent, "method"@) {
            Some(method) => method,
            None => "GET"@,
        },
        status: u32_field_in(received, "status"@),
        status_text: text_field_in(received, "statusText"@),
        mime_type: text_field_in(content, "mimeType"@),
        request_headers: side_headers(sent),
        response_headers: side_headers(received),
        post_data: text_field_in(field_in(sent, "postData"@), "text"@),
        encoded_data_length: double_in(field_in(content, "size"@)),
        ..blank_request(har_id(index))
    }
}

/// The entries of a HAR object, if it has any list of them.
pub open spec fn har_items(value: JsonView) -> Option<Seq<JsonView>> {
    items_in(field_in(field(value, "log"@), "entries"@))
}

/// The store of HAR entries, under ids of their own, in order.
pub open spec fn imported(entries: Seq<JsonView>) -> Seq<(Seq<char>, RequestView)> {
    Seq::new(entries.len(), |i: int| (har_id(i), imported_request(i, entries[i])))
}

proof fn lemma_listed_headers_distinct(items: Seq<JsonView>)
    ensures
        distinct(listed_headers(items)),
    decreases items.len(),
{
    if items.len() > 0 {
        let rest = listed_headers(items.drop_last());
        lemma_listed_headers_distinct(items.drop_last());
        if let (Some(name), Some(value)) = (
            text_field(items.last(), "name"@),
            text_field(items.last(), "value"@),
        ) {
            lemma_put_keeps_distinct(rest, name, value);
        }
    }
}

proof fn lemma_har_id_injective(i: int, j: int)
    requires
        0 <= i,
        0 <= j,
        har_id(i) == har_id(j),
    ensures
        i == j,
{
    let prefix = "har-"@;
    assert(har_id(i).skip(prefix.len() as int) =~= decimal(i as nat));
    assert(har_id(j).skip(prefix.len() as int) =~= decimal(j as nat));
    lemma_decimal_injective(i as nat, j as nat);
}

/// Whatever is read from a HAR object is a valid store.
pub proof fn law_import_is_valid(entries: Seq<JsonView>)
    ensures
        valid_store(imported(entries)),
{
    let all = imported(entries);
    assert forall|i: int, j: int| 0 <= i < j < all.len() implies (#[trigger] all[i]).0 != (
    #[trigger] all[j]).0 by {
        if all[i].0 == all[j].0 {
            lemma_har_id_injective(i, j);
        }
    }
    assert forall|i: int| 0 <= i < all.len() implies (#[trigger] all[i]).1.request_id == all[i].0
        && valid_request(all[i].1) by {
        let sent = field(entries[i], "request"@);
        let received = field(entries[i], "response"@);
        if let Some(items) = items_in(field_in(sent, "headers"@)) {
            lemma_listed_headers_distinct(items);
        }
        if let Some(items) = items_in(field_in(received, "headers"@)) {
            lemma_listed_headers_distinct(items);
        }
    }
}

fn headers_of(side: Option<&Json>) -> (r: Headers)
    ensures
        r.deep_view() == side_headers(side.deep_view()),
{
    let mut headers = Headers::new();
    if let Some(list) = get_in(side, "headers") {
        if let Some(items) = list.as_array() {
            let ghost models = items.deep_view();
            let mut i: usize = 0;
            assert(models.take(0) =~= Seq::empty());
            while i < items.len()
                invariant
                    i <= items@.len(),
                    models == items.deep_view(),
                    headers.deep_view() == listed_headers(models.take(i as int)),
                decreases items@.len() - i,
            {
                if let Some(name) = string_field(&items[i], "name") {
                    if let Some(value) = string_field(&items[i], "value") {
                        headers.insert(name.as_str(), value);
                    }
                }
                proof {
                    let next = models.take(i + 1);
                    assert(next.drop_last() =~= models.take(i as int));
                    assert(next.last() == items@[i as int].deep_view());
                }
                i = i + 1;
            }
            assert(models.take(models.len() as int) =~= models);
        }
    }
    headers
}

fn string_or(s: Option<String>, other: &str) -> (r: String)
    ensures
        r@ == (match s {
            Some(s) => s@,
            None => other@,
        }),
{
    match s {
        Some(s) => s,
        None => other.to_owned(),
    }
}

fn request_of(index: usize, entry: &Json) -> (r: NetworkRequest)
    ensures
        r.deep_view() == imported_request(index as int, entry.deep_view()),
{
    let sent = entry.get("request");
    let received = entry.get("response");
    let content = get_in(received, "content");
    let mut id = "har-".to_owned();
    id.append(decimal_text(index as u64).as_str());
    let mut request = NetworkRequest::blank(id.as_str());
    let empty = String::new();
    assert(empty@ =~= Seq::<char>::empty());
    request.url = string_or(string_field_in(sent, "url"), empty.as_str());
    request.method = string_or(string_field_in(sent, "method"), "GET");
    request.status = u32_field(received, "status");
    request.status_text = string_field_in(received, "statusText");
    request.mime_type = string_field_in(content, "mimeType");
    request.request_headers = headers_of(sent);
    request.response_headers = headers_of(received);
    request.post_data = string_field_in(get_in(sent, "postData"), "text");
    request.encoded_data_length = read_double(get_in(content, "size"));
    request
}

/// The store in a HAR object. One without a list of entries is refused.
pub fn import_har(value: &Json) -> (r: Result<NetworkStore, String>)
    ensures
        match har_items(value.deep_view()) {
            Some(entries) => r matches Ok(store) && store.deep_view() == imported(entries)
                && valid_store(store.deep_view()),
            None => r matches Err(error) && error@ == "HAR log has no entries array"@,
        },
{
    let list = get_in(value.get("log"), "entries");
    let entries = match list {
        Some(list) => match list.as_array() {
            Some(entries) => entries,
            None => {
                return Err("HAR log has no entries array".to_owned());
            },
        },
        None => {
            return Err("HAR log has no entries array".to_owned());
        },
    };
    let ghost models = entries.deep_view();
    let mut store = NetworkStore::new();
    let mut i: usize = 0;
    while i < entries.len()
        invariant
            i <= entries@.len(),
            models == entries.deep_view(),
            store.deep_view() == imported(models).take(i as int),
        decreases entries@.len() - i,
    {
        let request = request_of(i, &entries[i]);
        let ghost done = store.deep_view();
        proof {
            law_import_is_valid(models);
            let all = imported(models);
            lemma_lookup_entry(done, har_id(i as int));
            if lookup(done, har_id(i as int)) is Some {
                let j = choose|j: int|
                    0 <= j < done.len() && (#[trigger] done[j]).0 == har_id(i as int);
                assert(done[j] == all[j]);
                assert(all[i as int].0 == har_id(i as int));
            }
            assert(distinct(done)) by {
                assert forall|a: int, b: int| 0 <= a < b < done.len() implies (
                #[trigger] done[a]).0 != (#[trigger] done[b]).0 by {
                    assert(done[a] == all[a]);
                    assert(done[b] == all[b]);
                }
            }
            lemma_put_keeps_distinct(done, har_id(i as int), request.deep_view());
        }
        store.insert(request);
        assert(models[i as int] == entries@[i as int].deep_view());
        i = i + 1;
        assert(store.deep_view() =~= imported(models).take(i as int));
    }
    proof {
        law_import_is_valid(models);
        assert(imported(models).take(models.len() as int) =~= imported(models));
    }
    Ok(store)
}

// ---------------------------------------------------------------------------
// Round trip

/// What a request comes back as from a HAR object that it was written to. Its
/// method, URL, headers and what it sent come back as they were; of the response,
/// what was not known comes back as zero or as the empty text; the rest of a
/// request is not written.
pub open spec fn through_har(index: int, r: RequestView) -> RequestView {
    RequestView {
        url: r.url,
        method: r.method,
        status: match r.status {
            Some(status) => Some(status),
            None => Some(0),
        },
        status_text: Some(or_empty(r.status_text)),
        mime_type: Some(or_empty(r.mime_type)),
        request_headers: r.request_headers,
        response_headers: r.response_headers,
        post_data: r.post_data,
        encoded_data_length: if is_finite(har_size(r)) {
            Some(Number::Float(number_bits(har_size(r)) as u64))
        } else {
            None
        },
        ..blank_request(har_id(index))
    }
}

proof fn lemma_header_list_round_trip(headers: Seq<(Seq<char>, Seq<char>)>)
    requires
        distinct(headers),
    ensures
        listed_headers(Seq::new(headers.len(), |i: int| har_header(headers[i]))) == headers,
    decreases headers.len(),
{
    let items = Seq::new(headers.len(), |i: int| har_header(headers[i]));
    if headers.len() > 0 {
        let fewer = headers.drop_last();
        assert(distinct(fewer)) by {
            assert forall|i: int, j: int| 0 <= i < j < fewer.len() implies (
            #[trigger] fewer[i]).0 != (#[trigger] fewer[j]).0 by {
                assert(fewer[i] == headers[i]);
                assert(fewer[j] == headers[j]);
            }
        }
        lemma_header_list_round_trip(fewer);
        assert(items.drop_last() =~= Seq::new(fewer.len(), |i: int| har_header(fewer[i])));
        let last = headers.last();
        reveal_strlit("name");
        reveal_strlit("value");
        if let JsonView::Object(members) = har_header(last) {
            assert("name"@.len() != "value"@.len());
            assert(members[0].0 == "name"@ && members[1].0 == "value"@);
            lemma_lookup_first(members, 0);
            lemma_lookup_first(members, 1);
        }
        lemma_lookup_entry(fewer, last.0);
        if lookup(fewer, last.0) is Some {
            let j = choose|j: int| 0 <= j < fewer.len() && (#[trigger] fewer[j]).0 == last.0;
            assert(headers[j].0 == headers[headers.len() - 1].0);
        }
        lemma_put_keeps_distinct(fewer, last.0, last.1);
        assert(headers =~= fewer.push(last));
    } else {
        assert(headers =~= Seq::empty());
    }
}

proof fn lemma_request_side(r: RequestView)
    ensures
        field(har_request(r), "method"@) == Some(JsonView::Text(r.method)),
        field(har_request(r), "url"@) == Some(JsonView::Text(r.url)),
        field(har_request(r), "headers"@) == Some(har_header_list(r.request_headers)),
        field(har_request(r), "postData"@) == Some(har_post_data(r)),
        text_field_in(field(har_request(r), "postData"@), "text"@) == r.post_data,
{
    reveal_strlit("method");
    reveal_strlit("url");
    reveal_strlit("headers");
    reveal_strlit("postData");
    reveal_strlit("mimeType");
    reveal_strlit("text");
    assert("method"@.len() == 6 && "url"@.len() == 3 && "headers"@.len() == 7 && "postData"@.len()
        == 8);
    if let JsonView::Object(members) = har_request(r) {
        assert(members[0].0 == "method"@ && members[1].0 == "url"@ && members[2].0 == "headers"@
            && members[3].0 == "postData"@);
        lemma_lookup_first(members, 0);
        lemma_lookup_first(members, 1);
        lemma_lookup_first(members, 2);
        lemma_lookup_first(members, 3);
    }
    if let JsonView::Object(members) = har_post_data(r) {
        assert("mimeType"@.len() != "text"@.len());
        assert(members[0].0 == "mimeType"@ && members[1].0 == "text"@);
        lemma_lookup_first(members, 1);
    }
}

proof fn lemma_response_side(r: RequestView)
    ensures
        field(har_response(r), "status"@) == Some(
            uint_view(
                match r.status {
                    Some(status) => status as int,
                    None => 0,
                },
            ),
        ),
        field(har_response(r), "statusText"@) == Some(JsonView::Text(or_empty(r.status_text))),
        field(har_response(r), "headers"@) == Some(har_header_list(r.response_headers)),
        field(har_response(r), "content"@) == Some(har_content(r)),
        field(har_content(r), "size"@) == Some(number_or_null(Some(har_size(r)))),
        field(har_content(r), "mimeType"@) == Some(JsonView::Text(or_empty(r.mime_type))),
{
    reveal_strlit("status");
    reveal_strlit("statusText");
    reveal_strlit("headers");
    reveal_strlit("content");
    reveal_strlit("size");
    reveal_strlit("mimeType");
    assert("status"@.len() == 6 && "statusText"@.len() == 10 && "headers"@.len() == 7
        && "content"@.len() == 7);
    assert("headers"@[0] == 'h' && "content"@[0] == 'c');
    assert("size"@.len() != "mimeType"@.len());
    if let JsonView::Object(members) = har_response(r) {
        assert(members[0].0 == "status"@ && members[1].0 == "statusText"@ && members[2].0
            == "headers"@ && members[3].0 == "content"@);
        lemma_lookup_first(members, 0);
        lemma_lookup_first(members, 1);
        lemma_lookup_first(members, 2);
        lemma_lookup_first(members, 3);
    }
    if let JsonView::Object(members) = har_content(r) {
        assert(members[0].0 == "size"@ && members[1].0 == "mimeType"@);
        lemma_lookup_first(members, 0);
        lemma_lookup_first(members, 1);
    }
}

proof fn lemma_entry_round_trip(index: int, r: RequestView)
    requires
        valid_request(r),
    ensures
        imported_request(index, har_entry(r)) == through_har(index, r),
{
    reveal_strlit("request");
    reveal_strlit("response");
    assert("request"@.len() != "response"@.len());
    if let JsonView::Object(members) = har_entry(r) {
        assert(members[0].0 == "request"@ && members[1].0 == "response"@);
        lemma_lookup_first(members, 0);
        lemma_lookup_first(members, 1);
    }
    lemma_request_side(r);
    lemma_response_side(r);
    lemma_header_list_round_trip(r.request_headers);
    lemma_header_list_round_trip(r.response_headers);
}

/// Writing a store to a HAR object and reading it back keeps the requests, in order,
/// with their request metadata.
pub proof fn law_har_round_trip(requests: Seq<RequestView>)
    requires
        forall|i: int| 0 <= i < requests.len() ==> valid_request(#[trigger] requests[i]),
    ensures
        har_items(har_log(requests)) == Some(har_entries(requests)),
        imported(har_entries(requests)) == Seq::new(
            requests.len(),
            |i: int| (har_id(i), through_har(i, requests[i])),
        ),
{
    reveal_strlit("log");
    reveal_strlit("version");
    reveal_strlit("creator");
    reveal_strlit("entries");
    if let JsonView::Object(members) = har_log(requests) {
        assert(members[0].0 == "log"@);
        lemma_lookup_first(members, 0);
        if let JsonView::Object(inner) = members[0].1 {
            assert("version"@[0] == 'v' && "creator"@[0] == 'c' && "entries"@[0] == 'e');
            assert(inner[0].0 == "version"@ && inner[1].0 == "creator"@ && inner[2].0
                == "entries"@);
            lemma_lookup_first(inner, 2);
        }
    }
    let back = imported(har_entries(requests));
    assert forall|i: int| 0 <= i < requests.len() implies back[i] == (
        har_id(i),
        through_har(i, requests[i]),
    ) by {
        lemma_entry_round_trip(i, requests[i]);
    }
    assert(back =~= Seq::new(
        requests.len(),
        |i: int| (har_id(i), through_har(i, requests[i])),
    ));
}

// ---------------------------------------------------------------------------
// The names in a HAR object

/// A HAR object has the version, who made it, and one entry for each request, in order.
pub proof fn law_har_lists_each_request(requests: Seq<RequestView>, i: int)
    requires
        0 <= i < requests.len(),
    ensures
        text_in(field_in(field(har_log(requests), "log"@), "version"@)) == Some("1.2"@),
        ({
            let creator = field_in(field(har_log(requests), "log"@), "creator"@);
            &&& text_in(field_in(creator, "name"@)) == Some("Zed"@)
            &&& text_in(field_in(creator, "version"@)) == Some("0.1"@)
        }),
        items_in(field_in(field(har_log(requests), "log"@), "entries"@)) matches Some(entries)
            && entries.len() == requests.len() && entries[i] == har_entry(requests[i]),
{
    reveal_strlit("log");
    reveal_strlit("version");
    reveal_strlit("creator");
    reveal_strlit("entries");
    reveal_strlit("name");
    assert("version"@[0] == 'v' && "creator"@[0] == 'c' && "entries"@[0] == 'e' && "name"@[0] == 'n');
    if let JsonView::Object(members) = har_log(requests) {
        assert(members[0].0 == "log"@);
        lemma_lookup_first(members, 0);
        if let JsonView::Object(inner) = members[0].1 {
            assert(inner[0].0 == "version"@ && inner[1].0 == "creator"@ && inner[2].0
                == "entries"@);
            lemma_lookup_first(inner, 0);
            lemma_lookup_first(inner, 1);
            lemma_lookup_first(inner, 2);
            if let JsonView::Object(made) = inner[1].1 {
                assert(made[0].0 == "name"@ && made[1].0 == "version"@);
                lemma_lookup_first(made, 0);
                lemma_lookup_first(made, 1);
            }
        }
    }
}

/// What was sent is written under `request` and what was received under `response`, each
/// thing under its own name.
pub proof fn law_har_entry_is_written_by_name(r: RequestView)
    ensures
        ({
            let sent = field(har_entry(r), "request"@);
            &&& text_in(field_in(sent, "url"@)) == Some(r.url)
            &&& text_in(field_in(sent, "method"@)) == Some(r.method)
            &&& field_in(sent, "headers"@) == Some(har_header_list(r.request_headers))
            &&& r.post_data matches Some(text) ==> text_in(
                field_in(field_in(sent, "postData"@), "text"@),
            ) == Some(text)
            &&& r.post_data is Some ==> (lookup(r.request_headers, "content-type"@) matches Some(
                kind,
            ) ==> text_in(field_in(field_in(sent, "postData"@), "mimeType"@)) == Some(kind))
            &&& r.post_data is None ==> field_in(sent, "postData"@) == Some(JsonView::Null)
        }),
        ({
            let received = field(har_entry(r), "response"@);
            let content = field_in(received, "content"@);
            &&& r.status matches Some(status) ==> u64_in(field_in(received, "status"@)) == Some(
                status as u64,
            )
            &&& r.status is None ==> u64_in(field_in(received, "status"@)) == Some(0u64)
            &&& r.status_text matches Some(text) ==> text_in(field_in(received, "statusText"@))
                == Some(text)
            &&& field_in(received, "headers"@) == Some(har_header_list(r.response_headers))
            &&& r.mime_type matches Some(text) ==> text_in(field_in(content, "mimeType"@)) == Some(
                text,
            )
            &&& r.mime_type is None ==> text_in(field_in(content, "mimeType"@)) == Some(
                Seq::<char>::empty(),
            )
            &&& r.encoded_data_length matches Some(size) ==> is_finite(size) ==> field_in(
                content,
                "size"@,
            ) == Some(JsonView::Number(size))
            &&& r.encoded_data_length is None ==> field_in(content, "size"@) == Some(
                JsonView::Number(Number::Float(0)),
            )
        }),
{
    reveal_strlit("request");
    reveal_strlit("response");
    reveal_strlit("mimeType");
    assert("request"@.len() != "response"@.len());
    if let JsonView::Object(members) = har_entry(r) {
        assert(members[0].0 == "request"@ && members[1].0 == "response"@);
        lemma_lookup_first(members, 0);
        lemma_lookup_first(members, 1);
    }
    lemma_request_side(r);
    lemma_response_side(r);
    if let JsonView::Object(members) = har_post_data(r) {
        assert(members[0].0 == "mimeType"@);
        lemma_lookup_first(members, 0);
    }
    assert(is_finite(Number::Float(0)));
}

/// Headers are written as a list of names and values, in order.
pub proof fn law_har_headers_are_names_and_values(headers: Seq<(Seq<char>, Seq<char>)>, i: int)
    requires
        0 <= i < headers.len(),
    ensures
        items_in(Some(har_header_list(headers))) matches Some(items) && items.len() == headers.len()
            && text_in(field(items[i], "name"@)) == Some(headers[i].0) && text_in(
            field(items[i], "value"@),
        ) == Some(headers[i].1),
{
    reveal_strlit("name");
    reveal_strlit("value");
    if let JsonView::Object(members) = har_header(headers[i]) {
        assert("name"@.len() != "value"@.len());
        assert(members[0].0 == "name"@ && members[1].0 == "value"@);
        lemma_lookup_first(members, 0);
        lemma_lookup_first(members, 1);
    }
}

/// An entry is read by the names of the HAR format: what was sent from `request` and what
/// was received from `response`. Where no method is given it is a GET. Nothing of what the
/// format does not hold is made up, and the request is not in flight by any event.
pub proof fn law_har_entry_is_read_by_name(
    index: int,
    entry: JsonView,
    sent: JsonView,
    received: JsonView,
)
    requires
        field(entry, "request"@) == Some(sent),
        field(entry, "response"@) == Some(received),
    ensures
        ({
            let r = imported_request(index, entry);
            let content = field(received, "content"@);
            &&& text_in(field(sent, "url"@)) matches Some(t) ==> r.url == t
            &&& field(sent, "url"@) is None ==> r.url.len() == 0
            &&& text_in(field(sent, "method"@)) matches Some(t) ==> r.method == t
            &&& field(sent, "method"@) is None ==> r.method == "GET"@
            &&& u64_in(field(received, "status"@)) matches Some(n) ==> n <= u32::MAX ==> r.status
                == Some(n as u32)
            &&& field(received, "status"@) is None ==> r.status is None
            &&& r.status_text == text_in(field(received, "statusText"@))
            &&& content matches Some(content) ==> {
                &&& r.mime_type == text_in(field(content, "mimeType"@))
                &&& r.encoded_data_length == double_in(field(content, "size"@))
            }
            &&& field(sent, "postData"@) matches Some(posted) ==> r.post_data == text_in(
                field(posted, "text"@),
            )
            &&& field(sent, "postData"@) is None ==> r.post_data is None
            &&& items_in(field(sent, "headers"@)) matches Some(items) ==> r.request_headers
                == listed_headers(items)
            &&& items_in(field(received, "headers"@)) matches Some(items) ==> r.response_headers
                == listed_headers(items)
            &&& r.timing is None
            &&& r.failure_reason is None
            &&& r.blocked_reason is None
            &&& r.resource_type is None
            &&& r.initiator is None
            &&& !r.from_cache
        }),
{
}

/// The headers of a list are read one after the other: an item with a name and a value
/// gives that header, an item without one of them gives nothing, and no item touches a
/// header of another name.
pub proof fn law_har_headers_are_read_one_by_one(
    items: Seq<JsonView>,
    item: JsonView,
    name: Seq<char>,
)
    ensures
        listed_headers(Seq::empty()) == Seq::<(Seq<char>, Seq<char>)>::empty(),
        text_in(field(item, "name"@)) == Some(name) ==> (text_in(field(item, "value"@)) matches Some(
            value,
        ) ==> lookup(listed_headers(items.push(item)), name) == Some(value)),
        text_in(field(item, "name"@)) != Some(name) || field(item, "value"@) is None ==> lookup(
            listed_headers(items.push(item)),
            name,
        ) == lookup(listed_headers(items), name),
{
    let all = items.push(item);
    assert(all.drop_last() =~= items);
    if let (Some(n), Some(v)) = (text_field(item, "name"@), text_field(item, "value"@)) {
        crate::assoc::lemma_lookup_after_put(listed_headers(items), n, v, name);
    }
}

/// A HAR object is read entry by entry, in order, each under an id that says its place;
/// one without a list of entries is not read.
pub proof fn law_har_is_read_in_order(value: JsonView, log: JsonView, entries: Seq<JsonView>, i: int)
    requires
        0 <= i < entries.len(),
    ensures
        field(value, "log"@) == Some(log) && field(log, "entries"@) == Some(
            JsonView::Array(entries),
        ) ==> har_items(value) == Some(entries),
        field(value, "log"@) is None ==> har_items(value) is None,
        field(value, "log"@) == Some(log) && field(log, "entries"@) is None ==> har_items(value)
            is None,
        imported(entries).len() == entries.len(),
        imported(entries)[i].0 == "har-"@ + decimal(i as nat),
        imported(entries)[i].1 == imported_request(i, entries[i]),
        imported(entries)[i].1.request_id == imported(entries)[i].0,
{
}

} // verus!
