//! JSON values.
//!
//! The members of an object keep the order in which they were added.

use vstd::prelude::*;
use crate::assoc::{
    assign, distinct, find, lemma_lookup_entry, lemma_lookup_first, lookup, put_all,
};
use crate::number::{number_bits, Number};
use crate::text::same;

verus! {

/// A JSON value.
#[derive(Debug)]
pub enum Json {
    Null,
    Bool(bool),
    Number(Number),
    Text(String),
    Array(Vec<Json>),
    Object(Vec<(String, Json)>),
}

/// The model of a JSON value.
pub enum JsonView {
    Null,
    Bool(bool),
    Number(Number),
    Text(Seq<char>),
    Array(Seq<JsonView>),
    Object(Seq<(Seq<char>, JsonView)>),
}

/// The model of a JSON value.
pub open spec fn json_view(value: Json) -> JsonView
    decreases value,
{
    match value {
        Json::Null => JsonView::Null,
        Json::Bool(b) => JsonView::Bool(b),
        Json::Number(n) => JsonView::Number(n),
        Json::Text(s) => JsonView::Text(s@),
        Json::Array(items) => JsonView::Array(
            Seq::new(
                items@.len(),
                |i: int|
                    if 0 <= i < items@.len() {
                        json_view(items@[i])
                    } else {
                        JsonView::Null
                    },
            ),
        ),
        Json::Object(members) => JsonView::Object(
            Seq::new(
                members@.len(),
                |i: int|
                    if 0 <= i < members@.len() {
                        (members@[i].0@, json_view(members@[i].1))
                    } else {
                        (Seq::empty(), JsonView::Null)
                    },
            ),
        ),
    }
}

impl DeepView for Json {
    type V = JsonView;

    open spec fn deep_view(&self) -> JsonView {
        json_view(*self)
    }
}

// ---------------------------------------------------------------------------
// Reading

/// The member of that name, where the value is an object that has one.
pub open spec fn field(value: JsonView, name: Seq<char>) -> Option<JsonView> {
    match value {
        JsonView::Object(members) => lookup(members, name),
        _ => None,
    }
}

/// The member of that name of a value that may be absent.
pub open spec fn field_in(value: Option<JsonView>, name: Seq<char>) -> Option<JsonView> {
    match value {
        Some(v) => field(v, name),
        None => None,
    }
}

/// The text, where the value is a string.
pub open spec fn text_in(value: Option<JsonView>) -> Option<Seq<char>> {
    match value {
        Some(JsonView::Text(s)) => Some(s),
        _ => None,
    }
}

/// The truth value, where the value is one.
pub open spec fn bool_in(value: Option<JsonView>) -> Option<bool> {
    match value {
        Some(JsonView::Bool(b)) => Some(b),
        _ => None,
    }
}

/// The integer, where the value is one from zero up.
pub open spec fn u64_in(value: Option<JsonView>) -> Option<u64> {
    match value {
        Some(JsonView::Number(Number::PosInt(n))) => Some(n),
        _ => None,
    }
}

/// The integer, where the value is one that a signed 64-bit integer holds.
pub open spec fn i64_in(value: Option<JsonView>) -> Option<i64> {
    match value {
        Some(JsonView::Number(Number::PosInt(n))) => if n <= i64::MAX {
            Some(n as i64)
        } else {
            None
        },
        Some(JsonView::Number(Number::NegInt(n))) => Some(n),
        _ => None,
    }
}

/// The number as a double, where the value is a number.
pub open spec fn double_in(value: Option<JsonView>) -> Option<Number> {
    match value {
        Some(JsonView::Number(n)) => Some(Number::Float(number_bits(n) as u64)),
        _ => None,
    }
}

/// The items, where the value is an array.
pub open spec fn items_in(value: Option<JsonView>) -> Option<Seq<JsonView>> {
    match value {
        Some(JsonView::Array(items)) => Some(items),
        _ => None,
    }
}

/// The members, where the value is an object.
pub open spec fn members_in(value: Option<JsonView>) -> Option<Seq<(Seq<char>, JsonView)>> {
    match value {
        Some(JsonView::Object(members)) => Some(members),
        _ => None,
    }
}

/// The value, or null where there is none.
pub open spec fn or_null(value: Option<JsonView>) -> JsonView {
    match value {
        Some(v) => v,
        None => JsonView::Null,
    }
}

/// The text of a string member.
pub open spec fn text_field(value: JsonView, name: Seq<char>) -> Option<Seq<char>> {
    text_in(field(value, name))
}

/// The text of a string member of a value that may be absent.
pub open spec fn text_field_in(value: Option<JsonView>, name: Seq<char>) -> Option<Seq<char>> {
    text_in(field_in(value, name))
}

/// The lowest 32 bits of an integer member of a value that may be absent.
pub open spec fn u32_field_in(value: Option<JsonView>, name: Seq<char>) -> Option<u32> {
    match u64_in(field_in(value, name)) {
        Some(n) => Some((n % 0x1_0000_0000) as u32),
        None => None,
    }
}

impl Json {
    /// The member of that name, where the value is an object that has one.
    pub fn get(&self, name: &str) -> (r: Option<&Json>)
        ensures
            r.deep_view() == field(self.deep_view(), name@),
    {
        match self {
            Json::Object(members) => {
                assert(json_view(*self)->Object_0 =~= members.deep_view());
                find(members, name)
            },
            _ => None,
        }
    }

    /// The text, where the value is a string.
    pub fn as_str(&self) -> (r: Option<&str>)
        ensures
            r.deep_view() == text_in(Some(self.deep_view())),
    {
        match self {
            Json::Text(s) => Some(s.as_str()),
            _ => None,
        }
    }

    /// The truth value, where the value is one.
    pub fn as_bool(&self) -> (r: Option<bool>)
        ensures
            r == bool_in(Some(self.deep_view())),
    {
        match self {
            Json::Bool(b) => Some(*b),
            _ => None,
        }
    }

    /// The integer, where the value is one from zero up.
    pub fn as_u64(&self) -> (r: Option<u64>)
        ensures
            r == u64_in(Some(self.deep_view())),
    {
        match self {
            Json::Number(Number::PosInt(n)) => Some(*n),
            _ => None,
        }
    }

    /// The integer, where the value is one that a signed 64-bit integer holds.
    pub fn as_i64(&self) -> (r: Option<i64>)
        ensures
            r == i64_in(Some(self.deep_view())),
    {
        match self {
            Json::Number(Number::PosInt(n)) => if *n <= i64::MAX as u64 {
                Some(*n as i64)
            } else {
                None
            },
            Json::Number(Number::NegInt(n)) => Some(*n),
            _ => None,
        }
    }

    /// The number as a double, where the value is a number.
    pub fn as_double(&self) -> (r: Option<Number>)
        ensures
            r == double_in(Some(self.deep_view())),
    {
        match self {
            Json::Number(n) => Some(n.as_double()),
            _ => None,
        }
    }

    /// The items, where the value is an array.
    pub fn as_array(&self) -> (r: Option<&Vec<Json>>)
        ensures
            r.deep_view() == items_in(Some(self.deep_view())),
    {
        match self {
            Json::Array(items) => {
                assert(json_view(*self)->Array_0 =~= items.deep_view());
                Some(items)
            },
            _ => None,
        }
    }

    /// The members, where the value is an object.
    pub fn as_object(&self) -> (r: Option<&Vec<(String, Json)>>)
        ensures
            r.deep_view() == members_in(Some(self.deep_view())),
    {
        match self {
            Json::Object(members) => {
                assert(json_view(*self)->Object_0 =~= members.deep_view());
                Some(members)
            },
            _ => None,
        }
    }
}

impl Json {
    /// The same value again.
    fn copied(&self) -> (r: Json)
        ensures
            r.deep_view() == self.deep_view(),
        decreases self,
    {
        match self {
            Json::Null => Json::Null,
            Json::Bool(b) => Json::Bool(*b),
            Json::Number(n) => Json::Number(*n),
            Json::Text(s) => Json::Text(s.clone()),
            Json::Array(items) => {
                let mut out: Vec<Json> = Vec::new();
                let mut i: usize = 0;
                while i < items.len()
                    invariant
                        i <= items@.len(),
                        *self == Json::Array(*items),
                        out.deep_view() == items.deep_view().take(i as int),
                    decreases items@.len() - i,
                {
                    assert(decreases_to!(*self => self->Array_0));
                    assert(decreases_to!(*items => items@));
                    assert(decreases_to!(items@ => items@[i as int]));
                    let ghost done = out.deep_view();
                    let item = items[i].copied();
                    out.push(item);
                    proof {
                        assert(out.deep_view() =~= done.push(item.deep_view()));
                        assert(items.deep_view()[i as int] == items@[i as int].deep_view());
                        assert(out.deep_view() =~= items.deep_view().take(i + 1));
                    }
                    i = i + 1;
                }
                let r = Json::Array(out);
                assert(json_view(r)->Array_0 =~= json_view(*self)->Array_0) by {
                    assert(json_view(r)->Array_0 =~= out.deep_view());
                    assert(json_view(*self)->Array_0 =~= items.deep_view());
                }
                r
            },
            Json::Object(members) => {
                let mut out: Vec<(String, Json)> = Vec::new();
                let mut i: usize = 0;
                while i < members.len()
                    invariant
                        i <= members@.len(),
                        *self == Json::Object(*members),
                        out.deep_view() == members.deep_view().take(i as int),
                    decreases members@.len() - i,
                {
                    assert(decreases_to!(*self => self->Object_0));
                    assert(decreases_to!(*members => members@));
                    assert(decreases_to!(members@ => members@[i as int]));
                    let ghost done = out.deep_view();
                    let member = (members[i].0.clone(), members[i].1.copied());
                    out.push(member);
                    proof {
                        assert(out.deep_view() =~= done.push(member.deep_view()));
                        assert(members.deep_view()[i as int] == members@[i as int].deep_view());
                        assert(out.deep_view() =~= members.deep_view().take(i + 1));
                    }
                    i = i + 1;
                }
                let r = Json::Object(out);
                assert(json_view(r)->Object_0 =~= json_view(*self)->Object_0) by {
                    assert(json_view(r)->Object_0 =~= out.deep_view());
                    assert(json_view(*self)->Object_0 =~= members.deep_view());
                }
                r
            },
        }
    }
}

impl Clone for Json {
    fn clone(&self) -> (r: Self)
        ensures
            r.deep_view() == self.deep_view(),
    {
        self.copied()
    }
}

// ---------------------------------------------------------------------------
// Reading a value that may be absent

/// The member of that name of a value that may be absent.
pub fn get_in<'a>(value: Option<&'a Json>, name: &str) -> (r: Option<&'a Json>)
    ensures
        r.deep_view() == field_in(value.deep_view(), name@),
{
    match value {
        Some(v) => v.get(name),
        None => None,
    }
}

/// The text of a value that may be absent, where it is a string.
pub fn read_text(value: Option<&Json>) -> (r: Option<String>)
    ensures
        r.deep_view() == text_in(value.deep_view()),
{
    match value {
        Some(v) => match v.as_str() {
            Some(s) => Some(s.to_owned()),
            None => None,
        },
        None => None,
    }
}

/// The truth value of a value that may be absent, where it is one.
pub fn read_bool(value: Option<&Json>) -> (r: Option<bool>)
    ensures
        r == bool_in(value.deep_view()),
{
    match value {
        Some(v) => v.as_bool(),
        None => None,
    }
}

/// The integer of a value that may be absent, where it is one from zero up.
pub fn read_u64(value: Option<&Json>) -> (r: Option<u64>)
    ensures
        r == u64_in(value.deep_view()),
{
    match value {
        Some(v) => v.as_u64(),
        None => None,
    }
}

/// The number as a double of a value that may be absent, where it is a number.
pub fn read_double(value: Option<&Json>) -> (r: Option<Number>)
    ensures
        r == double_in(value.deep_view()),
{
    match value {
        Some(v) => v.as_double(),
        None => None,
    }
}

/// The text of a string member.
pub fn string_field(value: &Json, name: &str) -> (r: Option<String>)
    ensures
        r.deep_view() == text_field(value.deep_view(), name@),
{
    read_text(value.get(name))
}

/// The text of a string member of a value that may be absent.
pub fn string_field_in(value: Option<&Json>, name: &str) -> (r: Option<String>)
    ensures
        r.deep_view() == text_field_in(value.deep_view(), name@),
{
    read_text(get_in(value, name))
}

/// The lowest 32 bits of an integer member of a value that may be absent.
pub fn u32_field(value: Option<&Json>, name: &str) -> (r: Option<u32>)
    ensures
        r == u32_field_in(value.deep_view(), name@),
{
    match read_u64(get_in(value, name)) {
        Some(n) => Some((n % 0x1_0000_0000) as u32),
        None => None,
    }
}

/// The first item whose member of that name is that text.
pub open spec fn first_with(items: Seq<JsonView>, name: Seq<char>, wanted: Seq<char>) -> Option<
    JsonView,
>
    decreases items.len(),
{
    if items.len() == 0 {
        None
    } else if text_field(items[0], name) == Some(wanted) {
        Some(items[0])
    } else {
        first_with(items.drop_first(), name, wanted)
    }
}

/// The first item whose member of that name is that text.
pub fn find_with<'a>(items: &'a Vec<Json>, name: &str, wanted: &str) -> (r: Option<&'a Json>)
    ensures
        r.deep_view() == first_with(items.deep_view(), name@, wanted@),
{
    let ghost models = items.deep_view();
    let mut i: usize = 0;
    assert(models.skip(0) =~= models);
    while i < items.len()
        invariant
            i <= items@.len(),
            models == items.deep_view(),
            first_with(models, name@, wanted@) == first_with(models.skip(i as int), name@, wanted@),
        decreases items@.len() - i,
    {
        proof {
            let rest = models.skip(i as int);
            assert(rest[0] == items@[i as int].deep_view());
            assert(rest.drop_first() =~= models.skip(i + 1));
        }
        if let Some(found) = string_field(&items[i], name) {
            if same(found.as_str(), wanted) {
                return Some(&items[i]);
            }
        }
        i = i + 1;
    }
    None
}

/// The items, where the value is an array.
pub fn array_in<'a>(value: Option<&'a Json>) -> (r: Option<&'a Vec<Json>>)
    ensures
        r.deep_view() == items_in(value.deep_view()),
{
    match value {
        Some(value) => value.as_array(),
        None => None,
    }
}

/// A copy of the value, or null where there is none.
pub fn copy_or_null(value: Option<&Json>) -> (r: Json)
    ensures
        r.deep_view() == or_null(value.deep_view()),
{
    match value {
        Some(v) => v.clone(),
        None => Json::Null,
    }
}

/// A copy of a value that may be absent.
pub fn copy_of(value: Option<&Json>) -> (r: Option<Json>)
    ensures
        r.deep_view() == value.deep_view(),
{
    match value {
        Some(v) => Some(v.clone()),
        None => None,
    }
}

// ---------------------------------------------------------------------------
// Building

/// The string, or null where there is none.
pub open spec fn text_or_null(text: Option<Seq<char>>) -> JsonView {
    match text {
        Some(s) => JsonView::Text(s),
        None => JsonView::Null,
    }
}

/// The integer, or null where there is none.
pub open spec fn u32_or_null(value: Option<u32>) -> JsonView {
    match value {
        Some(n) => JsonView::Number(Number::PosInt(n as u64)),
        None => JsonView::Null,
    }
}

/// Whether a number is one that JSON can write: a double that is infinite or no
/// number at all is not.
pub open spec fn is_finite(value: Number) -> bool {
    match value {
        Number::Float(bits) => (bits / 0x10_0000_0000_0000) % 0x800 != 0x7ff,
        _ => true,
    }
}

/// The number, or null where there is none or none that JSON can write.
pub open spec fn number_or_null(value: Option<Number>) -> JsonView {
    match value {
        Some(n) => if is_finite(n) {
            JsonView::Number(n)
        } else {
            JsonView::Null
        },
        None => JsonView::Null,
    }
}

/// The number that a non-negative integer is.
pub open spec fn uint_view(value: int) -> JsonView {
    JsonView::Number(Number::PosInt(value as u64))
}

/// The array of strings.
pub open spec fn text_array(items: Seq<Seq<char>>) -> JsonView {
    JsonView::Array(Seq::new(items.len(), |i: int| JsonView::Text(items[i])))
}

/// The JSON string.
pub fn text(s: &str) -> (r: Json)
    ensures
        r.deep_view() == JsonView::Text(s@),
{
    Json::Text(s.to_owned())
}

/// The JSON string, or null where there is none.
pub fn optional_text(s: &Option<String>) -> (r: Json)
    ensures
        r.deep_view() == text_or_null(s.deep_view()),
{
    match s {
        Some(s) => Json::Text(s.clone()),
        None => Json::Null,
    }
}

/// The JSON number that a non-negative integer is.
pub fn uint(value: u64) -> (r: Json)
    ensures
        r.deep_view() == uint_view(value as int),
{
    Json::Number(Number::PosInt(value))
}

/// The JSON number, or null where there is none.
pub fn optional_u32(value: Option<u32>) -> (r: Json)
    ensures
        r.deep_view() == u32_or_null(value),
{
    match value {
        Some(n) => Json::Number(Number::PosInt(n as u64)),
        None => Json::Null,
    }
}

/// The JSON number, or null where there is none or none that JSON can write.
pub fn optional_number(value: Option<Number>) -> (r: Json)
    ensures
        r.deep_view() == number_or_null(value),
{
    match value {
        Some(Number::Float(bits)) => if (bits / 0x10_0000_0000_0000) % 0x800 != 0x7ff {
            Json::Number(Number::Float(bits))
        } else {
            Json::Null
        },
        Some(n) => Json::Number(n),
        None => Json::Null,
    }
}

/// The object with these members.
pub fn object(members: Vec<(String, Json)>) -> (r: Json)
    ensures
        r.deep_view() == JsonView::Object(members.deep_view()),
{
    let r = Json::Object(members);
    assert(json_view(r)->Object_0 =~= members.deep_view());
    r
}

/// The members of an object under construction, in order.
pub struct Fields {
    members: Vec<(String, Json)>,
}

impl DeepView for Fields {
    type V = Seq<(Seq<char>, JsonView)>;

    closed spec fn deep_view(&self) -> Seq<(Seq<char>, JsonView)> {
        self.members.deep_view()
    }
}

impl Fields {
    /// No members yet.
    pub fn new() -> (r: Fields)
        ensures
            r.deep_view() == Seq::<(Seq<char>, JsonView)>::empty(),
    {
        let r = Fields { members: Vec::new() };
        assert(r.deep_view() =~= Seq::empty());
        r
    }

    /// One more member, at the end.
    pub fn with(self, name: &str, value: Json) -> (r: Fields)
        ensures
            r.deep_view() == self.deep_view().push((name@, value.deep_view())),
    {
        let mut members = self.members;
        let added = (name.to_owned(), value);
        members.push(added);
        let r = Fields { members };
        assert(r.deep_view() =~= self.deep_view().push(added.deep_view()));
        r
    }

    /// The object with these members.
    pub fn object(self) -> (r: Json)
        ensures
            r.deep_view() == JsonView::Object(self.deep_view()),
    {
        object(self.members)
    }

    /// The members themselves.
    pub fn members(self) -> (r: Vec<(String, Json)>)
        ensures
            r.deep_view() == self.deep_view(),
    {
        self.members
    }
}

/// The array of these items.
pub fn array(items: Vec<Json>) -> (r: Json)
    ensures
        r.deep_view() == JsonView::Array(items.deep_view()),
{
    let r = Json::Array(items);
    assert(json_view(r)->Array_0 =~= items.deep_view());
    r
}

/// The array of these strings.
pub fn strings(items: &Vec<String>) -> (r: Json)
    ensures
        r.deep_view() == text_array(items.deep_view()),
{
    let mut out: Vec<Json> = Vec::new();
    let mut i: usize = 0;
    while i < items.len()
        invariant
            i <= items@.len(),
            out@.len() == i,
            forall|j: int| 0 <= j < i ==> (#[trigger] out@[j]).deep_view() == JsonView::Text(items@[j]@),
        decreases items@.len() - i,
    {
        out.push(Json::Text(items[i].clone()));
        i = i + 1;
    }
    assert(out.deep_view() =~= text_array(items.deep_view())->Array_0);
    array(out)
}

/// Gives an object a copy of each member of `extra`, in turn.
pub fn set_members(members: &mut Vec<(String, Json)>, extra: &Vec<(String, Json)>)
    ensures
        final(members).deep_view() == put_all(old(members).deep_view(), extra.deep_view()),
{
    let ghost before = members.deep_view();
    let mut i: usize = 0;
    while i < extra.len()
        invariant
            i <= extra@.len(),
            before == old(members).deep_view(),
            members.deep_view() == put_all(before, extra.deep_view().take(i as int)),
        decreases extra@.len() - i,
    {
        let value = extra[i].1.clone();
        assign(members, extra[i].0.as_str(), value);
        proof {
            let next = extra.deep_view().take(i + 1);
            assert(next.drop_last() =~= extra.deep_view().take(i as int));
            assert(next.last() == extra@[i as int].deep_view());
        }
        i = i + 1;
    }
    assert(extra.deep_view().take(extra@.len() as int) =~= extra.deep_view());
}

// ---------------------------------------------------------------------------
// What reading gives

/// Whether an object has that member under that name.
pub open spec fn has_member(value: JsonView, name: Seq<char>, member: JsonView) -> bool {
    value matches JsonView::Object(members) && exists|i: int|
        0 <= i < members.len() && #[trigger] members[i] == (name, member)
}

/// Whether nothing stands under that name.
pub open spec fn lacks_member(value: JsonView, name: Seq<char>) -> bool {
    value matches JsonView::Object(members) ==> forall|i: int|
        0 <= i < members.len() ==> (#[trigger] members[i]).0 != name
}

/// A name that stands once in an object gives its member; a name that does not stand in
/// it, or a value that is no object, gives nothing.
pub proof fn law_members_are_found(value: JsonView, name: Seq<char>, member: JsonView)
    ensures
        value matches JsonView::Object(members) && distinct(members) ==> (field(value, name)
            == Some(member) <==> has_member(value, name, member)),
        lacks_member(value, name) <==> field(value, name) is None,
{
    if let JsonView::Object(members) = value {
        lemma_lookup_entry(members, name);
        if distinct(members) && has_member(value, name, member) {
            let i = choose|i: int| 0 <= i < members.len() && #[trigger] members[i] == (name, member);
            assert forall|j: int| 0 <= j < i implies (#[trigger] members[j]).0 != members[i].0 by {
                assert(members[j].0 != members[i].0);
            }
            lemma_lookup_first(members, i);
        }
        if field(value, name) == Some(member) {
            let i = choose|i: int|
                0 <= i < members.len() && (#[trigger] members[i]).0 == name && members[i].1
                    == member;
            assert(members[i] == (name, member));
        }
    }
}

/// A text, a truth value, a list and an integer below the bounds are read as they are,
/// and as nothing else.
pub proof fn law_values_are_read_by_kind(
    value: JsonView,
    text: Seq<char>,
    flag: bool,
    n: u64,
    bits: u64,
    items: Seq<JsonView>,
)
    ensures
        text_in(Some(value)) == Some(text) <==> value == JsonView::Text(text),
        bool_in(Some(value)) == Some(flag) <==> value == JsonView::Bool(flag),
        u64_in(Some(value)) == Some(n) <==> value == JsonView::Number(Number::PosInt(n)),
        items_in(Some(value)) == Some(items) <==> value == JsonView::Array(items),
        double_in(Some(JsonView::Number(Number::Float(bits)))) == Some(Number::Float(bits)),
        double_in(Some(value)) is Some <==> value is Number,
        n <= i64::MAX ==> i64_in(Some(JsonView::Number(Number::PosInt(n)))) == Some(n as i64),
        n <= u32::MAX && field(value, text) == Some(JsonView::Number(Number::PosInt(n)))
            ==> u32_field_in(Some(value), text) == Some(n as u32),
        text_in(None) is None && bool_in(None) is None && u64_in(None) is None && i64_in(None)
            is None && double_in(None) is None && items_in(None) is None,
{
}

/// What is there is written as it is, and what is not there as null.
pub proof fn law_absent_is_null(text: Option<Seq<char>>, n: Option<u32>, number: Option<Number>)
    ensures
        text_or_null(text) == JsonView::Null <==> text is None,
        text matches Some(s) ==> text_or_null(text) == JsonView::Text(s),
        u32_or_null(n) == JsonView::Null <==> n is None,
        n matches Some(k) ==> u64_in(Some(u32_or_null(n))) == Some(k as u64),
        number matches Some(k) ==> is_finite(k) ==> number_or_null(number) == JsonView::Number(k),
        number is None ==> number_or_null(number) == JsonView::Null,
        or_null(None) == JsonView::Null,
{
}

/// The first item of that text is found: none before it has the text, and nothing is found
/// only where no item has it.
pub proof fn law_first_item_is_found(items: Seq<JsonView>, name: Seq<char>, wanted: Seq<char>)
    ensures
        match first_with(items, name, wanted) {
            Some(found) => exists|i: int|
                0 <= i < items.len() && #[trigger] items[i] == found && text_field(items[i], name)
                    == Some(wanted) && forall|j: int|
                    0 <= j < i ==> text_field(#[trigger] items[j], name) != Some(wanted),
            None => forall|i: int|
                0 <= i < items.len() ==> text_field(#[trigger] items[i], name) != Some(wanted),
        },
    decreases items.len(),
{
    if items.len() > 0 {
        let rest = items.drop_first();
        if text_field(items[0], name) == Some(wanted) {
            assert(items[0] == first_with(items, name, wanted)->0);
        } else {
            law_first_item_is_found(rest, name, wanted);
            match first_with(rest, name, wanted) {
                Some(found) => {
                    let i = choose|i: int|
                        0 <= i < rest.len() && #[trigger] rest[i] == found && text_field(
                            rest[i],
                            name,
                        ) == Some(wanted) && forall|j: int|
                            0 <= j < i ==> text_field(#[trigger] rest[j], name) != Some(wanted);
                    assert(items[i + 1] == found);
                    assert forall|j: int| 0 <= j < i + 1 implies text_field(
                        #[trigger] items[j],
                        name,
                    ) != Some(wanted) by {
                        if j > 0 {
                            assert(items[j] == rest[j - 1]);
                        }
                    }
                },
                None => {
                    assert forall|i: int| 0 <= i < items.len() implies text_field(
                        #[trigger] items[i],
                        name,
                    ) != Some(wanted) by {
                        if i > 0 {
                            assert(items[i] == rest[i - 1]);
                        }
                    }
                },
            }
        }
    }
}

} // verus!
