//! Text: the few string operations that the rest of the library is stated over.
//!
//! A string is modelled by the sequence of its characters. Every function here
//! says what it returns as a sequence of characters.

use vstd::prelude::*;

verus! {

/// `String::push`: appends one character at the end.
pub assume_specification[ String::push ](s: &mut String, c: char)
    ensures
        final(s)@ == old(s)@.push(c),
;

/// The characters of each string, in order.
pub open spec fn texts(strings: Seq<String>) -> Seq<Seq<char>> {
    Seq::new(strings.len(), |i: int| strings[i]@)
}

/// Whether two strings hold the same characters.
pub fn same(a: &str, b: &str) -> (r: bool)
    ensures
        r == (a@ == b@),
{
    a.to_owned() == b.to_owned()
}

/// Whether a string holds no characters.
pub fn is_blank(s: &str) -> (r: bool)
    ensures
        r == (s@.len() == 0),
{
    let empty = String::new();
    proof {
        if s@.len() == 0 {
            assert(s@ =~= empty@);
        }
    }
    same(s, empty.as_str())
}

/// The same optional text.
pub fn copy_text(text: &Option<String>) -> (r: Option<String>)
    ensures
        r.deep_view() == text.deep_view(),
{
    match text {
        Some(text) => Some(text.clone()),
        None => None,
    }
}

/// The characters of a string.
pub fn chars_of(s: &str) -> (r: Vec<char>)
    ensures
        r@ == s@,
{
    let mut out: Vec<char> = Vec::new();
    for c in it: s.chars()
        invariant
            it.seq() == s@,
            out@ == s@.take(it.index() as int),
    {
        out.push(c);
    }
    out
}

/// The string made of the characters `from..to`.
pub fn string_of(chars: &Vec<char>, from: usize, to: usize) -> (r: String)
    requires
        from <= to <= chars@.len(),
    ensures
        r@ == chars@.subrange(from as int, to as int),
{
    let mut out = String::new();
    let mut i: usize = from;
    while i < to
        invariant
            from <= i <= to <= chars@.len(),
            out@ == chars@.subrange(from as int, i as int),
        decreases to - i,
    {
        out.push(chars[i]);
        i = i + 1;
    }
    out
}

// ---------------------------------------------------------------------------
// Joining

/// The parts in order, with `separator` between neighbours.
pub open spec fn joined(parts: Seq<Seq<char>>, separator: Seq<char>) -> Seq<char>
    decreases parts.len(),
{
    if parts.len() == 0 {
        Seq::empty()
    } else if parts.len() == 1 {
        parts[0]
    } else {
        joined(parts.drop_last(), separator) + separator + parts.last()
    }
}

/// The strings in order, with `separator` between neighbours.
pub fn join(parts: &Vec<String>, separator: &str) -> (r: String)
    ensures
        r@ == joined(texts(parts@), separator@),
{
    let mut out = String::new();
    let mut i: usize = 0;
    while i < parts.len()
        invariant
            i <= parts@.len(),
            out@ == joined(texts(parts@).take(i as int), separator@),
        decreases parts@.len() - i,
    {
        if i > 0 {
            out.append(separator);
        }
        out.append(parts[i].as_str());
        proof {
            let next = texts(parts@).take(i + 1);
            assert(next.drop_last() =~= texts(parts@).take(i as int));
            assert(next.last() == parts@[i as int]@);
            if i == 0 {
                assert(Seq::<char>::empty() + parts@[0]@ =~= parts@[0]@);
            }
        }
        i = i + 1;
    }
    assert(texts(parts@).take(parts@.len() as int) =~= texts(parts@));
    out
}

// ---------------------------------------------------------------------------
// ASCII case

/// The lower-case form of an ASCII letter; any other character is unchanged.
pub open spec fn ascii_lower(c: char) -> char {
    if 'A' as u32 <= c as u32 <= 'Z' as u32 {
        (c as u32 + 32) as char
    } else {
        c
    }
}

/// Each character in its ASCII lower-case form.
pub open spec fn ascii_lower_text(s: Seq<char>) -> Seq<char> {
    Seq::new(s.len(), |i: int| ascii_lower(s[i]))
}

/// The lower-case form of an ASCII letter; any other character is unchanged.
pub fn ascii_lower_char(c: char) -> (r: char)
    ensures
        r == ascii_lower(c),
{
    if c >= 'A' && c <= 'Z' {
        (c as u8 + 32) as char
    } else {
        c
    }
}

/// The string with each ASCII letter in lower case.
pub fn to_ascii_lower(s: &str) -> (r: String)
    ensures
        r@ == ascii_lower_text(s@),
{
    let chars = chars_of(s);
    let mut out = String::new();
    let mut i: usize = 0;
    while i < chars.len()
        invariant
            i <= chars@.len(),
            chars@ == s@,
            out@ == ascii_lower_text(s@).take(i as int),
        decreases chars@.len() - i,
    {
        out.push(ascii_lower_char(chars[i]));
        i = i + 1;
        assert(out@ =~= ascii_lower_text(s@).take(i as int));
    }
    assert(out@ =~= ascii_lower_text(s@));
    out
}

/// Whether two strings are equal but for the case of ASCII letters.
pub fn same_ignoring_ascii_case(a: &str, b: &str) -> (r: bool)
    ensures
        r == (ascii_lower_text(a@) == ascii_lower_text(b@)),
{
    to_ascii_lower(a) == to_ascii_lower(b)
}

// ---------------------------------------------------------------------------
// Case

/// The lower-case form of a text, by Unicode's rules.
pub uninterp spec fn lowercase(s: Seq<char>) -> Seq<char>;

/// `str::to_lowercase`: the lower-case form of the text by Unicode's rules, which
/// is a function of the text alone and goes by the name `lowercase`.
#[verifier::external_body]
pub(crate) fn to_lowercase(s: &str) -> (r: String)
    ensures
        r@ == lowercase(s@),
{
    s.to_lowercase()
}

// ---------------------------------------------------------------------------
// Searching

/// Whether `needle` stands in `hay` at position `at`.
pub open spec fn occurs_at(hay: Seq<char>, needle: Seq<char>, at: int) -> bool {
    0 <= at && at + needle.len() <= hay.len() && hay.subrange(at, at + needle.len()) == needle
}

/// Whether `needle` stands somewhere in `hay`.
pub open spec fn occurs(hay: Seq<char>, needle: Seq<char>) -> bool {
    exists|at: int| occurs_at(hay, needle, at)
}

/// Whether `hay` begins with `needle`.
pub open spec fn begins_with(hay: Seq<char>, needle: Seq<char>) -> bool {
    needle.len() <= hay.len() && hay.take(needle.len() as int) == needle
}

fn matches_at(hay: &Vec<char>, needle: &Vec<char>, at: usize) -> (r: bool)
    requires
        at <= hay@.len(),
    ensures
        r == occurs_at(hay@, needle@, at as int),
{
    let length: usize = hay.len();
    if needle.len() > length - at {
        return false;
    }
    let mut i: usize = 0;
    while i < needle.len()
        invariant
            i <= needle@.len(),
            length == hay@.len(),
            at + needle@.len() <= hay@.len(),
            forall|j: int| 0 <= j < i ==> hay@[at + j] == needle@[j],
        decreases needle@.len() - i,
    {
        if hay[at + i] != needle[i] {
            assert(hay@.subrange(at as int, at + needle@.len())[i as int] != needle@[i as int]);
            return false;
        }
        i = i + 1;
    }
    assert(hay@.subrange(at as int, at + needle@.len()) =~= needle@);
    true
}

/// The first position at which `needle` stands in `hay`.
pub fn find_chars(hay: &Vec<char>, needle: &Vec<char>) -> (r: Option<usize>)
    ensures
        match r {
            Some(at) => occurs_at(hay@, needle@, at as int) && forall|i: int|
                0 <= i < at ==> !occurs_at(hay@, needle@, i),
            None => !occurs(hay@, needle@),
        },
{
    let mut at: usize = 0;
    loop
        invariant
            at <= hay@.len(),
            forall|i: int| 0 <= i < at ==> !occurs_at(hay@, needle@, i),
        decreases hay@.len() - at,
    {
        if matches_at(hay, needle, at) {
            return Some(at);
        }
        if at == hay.len() {
            return None;
        }
        at = at + 1;
    }
}

/// Whether `needle` stands somewhere in `hay`.
pub fn contains(hay: &str, needle: &str) -> (r: bool)
    ensures
        r == occurs(hay@, needle@),
{
    let h = chars_of(hay);
    let n = chars_of(needle);
    match find_chars(&h, &n) {
        Some(at) => true,
        None => false,
    }
}

/// Whether `hay` begins with `needle`.
pub fn starts_with(hay: &str, needle: &str) -> (r: bool)
    ensures
        r == begins_with(hay@, needle@),
{
    let h = chars_of(hay);
    let n = chars_of(needle);
    assert(hay@.subrange(0, needle@.len() as int) =~= hay@.take(needle@.len() as int));
    matches_at(&h, &n, 0)
}

// ---------------------------------------------------------------------------
// White space

/// Whether a character has the Unicode `White_Space` property.
pub open spec fn white_space(c: char) -> bool {
    let code = c as u32;
    ||| 0x09 <= code <= 0x0d
    ||| code == 0x20
    ||| code == 0x85
    ||| code == 0xa0
    ||| code == 0x1680
    ||| 0x2000 <= code <= 0x200a
    ||| code == 0x2028
    ||| code == 0x2029
    ||| code == 0x202f
    ||| code == 0x205f
    ||| code == 0x3000
}

/// Whether a character has the Unicode `White_Space` property.
pub fn is_white_space(c: char) -> (r: bool)
    ensures
        r == white_space(c),
{
    let code: u32 = c as u32;
    (0x09 <= code && code <= 0x0d) || code == 0x20 || code == 0x85 || code == 0xa0 || code
        == 0x1680 || (0x2000 <= code && code <= 0x200a) || code == 0x2028 || code == 0x2029 || code
        == 0x202f || code == 0x205f || code == 0x3000
}

/// How many characters at the front are white space.
pub open spec fn leading_space(s: Seq<char>) -> nat
    decreases s.len(),
{
    if s.len() > 0 && white_space(s[0]) {
        1 + leading_space(s.drop_first())
    } else {
        0
    }
}

/// How many characters at the back are white space.
pub open spec fn trailing_space(s: Seq<char>) -> nat
    decreases s.len(),
{
    if s.len() > 0 && white_space(s.last()) {
        1 + trailing_space(s.drop_last())
    } else {
        0
    }
}

/// The text without white space at either end.
pub open spec fn trimmed(s: Seq<char>) -> Seq<char> {
    let front = s.skip(leading_space(s) as int);
    front.take(front.len() - trailing_space(front))
}

proof fn lemma_leading_space_bound(s: Seq<char>)
    ensures
        leading_space(s) <= s.len(),
    decreases s.len(),
{
    if s.len() > 0 && white_space(s[0]) {
        lemma_leading_space_bound(s.drop_first());
    }
}

proof fn lemma_trailing_space_bound(s: Seq<char>)
    ensures
        trailing_space(s) <= s.len(),
    decreases s.len(),
{
    if s.len() > 0 && white_space(s.last()) {
        lemma_trailing_space_bound(s.drop_last());
    }
}

/// The characters `from..` without white space at either end.
pub fn trim_from(chars: &Vec<char>, from: usize) -> (r: String)
    requires
        from <= chars@.len(),
    ensures
        r@ == trimmed(chars@.skip(from as int)),
{
    let ghost whole = chars@.skip(from as int);
    let mut start: usize = from;
    proof {
        lemma_leading_space_bound(whole);
        assert(whole.skip(0) =~= whole);
    }
    while start < chars.len() && is_white_space(chars[start])
        invariant
            from <= start <= chars@.len(),
            whole == chars@.skip(from as int),
            leading_space(whole) == (start - from) + leading_space(chars@.skip(start as int)),
        decreases chars@.len() - start,
    {
        proof {
            let rest = chars@.skip(start as int);
            assert(rest.drop_first() =~= chars@.skip(start + 1));
        }
        start = start + 1;
    }
    let ghost front = chars@.skip(start as int);
    proof {
        assert(leading_space(front) == 0);
        assert(whole.skip(leading_space(whole) as int) =~= front);
        lemma_trailing_space_bound(front);
        assert(front.take(front.len() as int) =~= front);
    }
    let mut end: usize = chars.len();
    while end > start && is_white_space(chars[end - 1])
        invariant
            from <= start <= end <= chars@.len(),
            front == chars@.skip(start as int),
            trailing_space(front) == (chars@.len() - end) + trailing_space(
                front.take(end - start),
            ),
        decreases end,
    {
        proof {
            let part = front.take(end - start);
            assert(part.last() == chars@[end - 1]);
            assert(part.drop_last() =~= front.take(end - start - 1));
        }
        end = end - 1;
    }
    proof {
        let part = front.take(end - start);
        if end > start {
            assert(part.last() == chars@[end - 1]);
        }
        assert(trailing_space(part) == 0);
        assert(chars@.subrange(start as int, end as int) =~= front.take(
            front.len() - trailing_space(front),
        ));
    }
    string_of(chars, start, end)
}

/// The string without white space at either end.
pub fn trim(s: &str) -> (r: String)
    ensures
        r@ == trimmed(s@),
{
    let chars = chars_of(s);
    assert(s@.skip(0) =~= s@);
    trim_from(&chars, 0)
}

/// A text stands in what it was put into.
pub proof fn lemma_occurs_between(
    hay: Seq<char>,
    front: Seq<char>,
    needle: Seq<char>,
    back: Seq<char>,
)
    requires
        hay == front + needle + back,
    ensures
        occurs(hay, needle),
{
    assert(hay.subrange(front.len() as int, (front.len() + needle.len()) as int) =~= needle);
    assert(occurs_at(hay, needle, front.len() as int));
}

/// Trimming takes nothing but white space, and takes it from both ends: what is left neither
/// begins nor ends with any, and a text without any at its ends is left as it is.
pub proof fn law_trimmed_has_no_space_at_its_ends(s: Seq<char>)
    ensures
        trimmed(s).len() > 0 ==> !white_space(trimmed(s)[0]) && !white_space(trimmed(s).last()),
        exists|front: int, back: int|
            {
                &&& 0 <= front <= back <= s.len()
                &&& trimmed(s) == #[trigger] s.subrange(front, back)
                &&& forall|i: int| 0 <= i < front ==> white_space(#[trigger] s[i])
                &&& forall|i: int| back <= i < s.len() ==> white_space(#[trigger] s[i])
            },
        s.len() > 0 && !white_space(s[0]) && !white_space(s.last()) ==> trimmed(s) == s,
{
    let n = leading_space(s) as int;
    lemma_leading_space(s);
    let front = s.skip(n);
    let m = trailing_space(front) as int;
    lemma_trailing_space(front);
    let back = s.len() - m;
    assert(trimmed(s) =~= s.subrange(n, back));
    assert forall|i: int| back <= i < s.len() implies white_space(#[trigger] s[i]) by {
        assert(front[i - n] == s[i]);
    }
    if trimmed(s).len() > 0 {
        assert(front[0] == s[n]);
        assert(trimmed(s).last() == front[front.len() - m - 1]);
    }
    if s.len() > 0 && !white_space(s[0]) && !white_space(s.last()) {
        assert(n == 0);
        assert(front =~= s);
        assert(trimmed(s) =~= s);
    }
}

proof fn lemma_leading_space(s: Seq<char>)
    ensures
        leading_space(s) <= s.len(),
        forall|i: int| 0 <= i < leading_space(s) ==> white_space(#[trigger] s[i]),
        leading_space(s) < s.len() ==> !white_space(s[leading_space(s) as int]),
    decreases s.len(),
{
    if s.len() > 0 && white_space(s[0]) {
        let rest = s.drop_first();
        lemma_leading_space(rest);
        assert forall|i: int| 0 <= i < leading_space(s) implies white_space(#[trigger] s[i]) by {
            if i > 0 {
                assert(rest[i - 1] == s[i]);
            }
        }
        if leading_space(s) < s.len() {
            assert(rest[leading_space(rest) as int] == s[leading_space(s) as int]);
        }
    }
}

proof fn lemma_trailing_space(s: Seq<char>)
    ensures
        trailing_space(s) <= s.len(),
        forall|i: int| s.len() - trailing_space(s) <= i < s.len() ==> white_space(#[trigger] s[i]),
        trailing_space(s) < s.len() ==> !white_space(s[s.len() - trailing_space(s) - 1]),
    decreases s.len(),
{
    if s.len() > 0 && white_space(s.last()) {
        let rest = s.drop_last();
        lemma_trailing_space(rest);
        assert forall|i: int| s.len() - trailing_space(s) <= i < s.len() implies white_space(
            #[trigger] s[i],
        ) by {
            if i < s.len() - 1 {
                assert(rest[i] == s[i]);
            }
        }
    }
}

/// Lower case is lower case: no capital letter is left, nothing else is changed, and doing
/// it twice changes nothing more.
pub proof fn law_ascii_lower_changes_capitals(s: Seq<char>, i: int)
    requires
        0 <= i < s.len(),
    ensures
        ascii_lower_text(s).len() == s.len(),
        !('A' as u32 <= ascii_lower_text(s)[i] as u32 <= 'Z' as u32),
        'A' as u32 <= s[i] as u32 <= 'Z' as u32 ==> ascii_lower_text(s)[i] as u32 == s[i] as u32
            + 32,
        !('A' as u32 <= s[i] as u32 <= 'Z' as u32) ==> ascii_lower_text(s)[i] == s[i],
        ascii_lower_text(ascii_lower_text(s)) == ascii_lower_text(s),
{
    assert(ascii_lower_text(ascii_lower_text(s)) =~= ascii_lower_text(s));
}

/// Texts are joined one after the other, with the separator between them and nowhere else.
pub proof fn law_joined_one_after_the_other(
    parts: Seq<Seq<char>>,
    next: Seq<char>,
    separator: Seq<char>,
)
    ensures
        joined(Seq::empty(), separator) == Seq::<char>::empty(),
        joined(seq![next], separator) == next,
        parts.len() > 0 ==> joined(parts.push(next), separator) == joined(parts, separator)
            + separator + next,
{
    assert(parts.push(next).drop_last() =~= parts);
}

/// A text begins with another exactly where it is that text with something behind it, and holds
/// another exactly where there is something before and something behind.
pub proof fn law_texts_are_taken_apart(hay: Seq<char>, needle: Seq<char>)
    ensures
        begins_with(hay, needle) <==> exists|rest: Seq<char>| hay == #[trigger] (needle + rest),
        occurs(hay, needle) <==> exists|front: Seq<char>, rest: Seq<char>|
            hay == #[trigger] (front + needle + rest),
{
    let n = needle.len() as int;
    if begins_with(hay, needle) {
        assert(hay =~= needle + hay.skip(n));
    }
    if exists|rest: Seq<char>| hay == #[trigger] (needle + rest) {
        let rest = choose|rest: Seq<char>| hay == #[trigger] (needle + rest);
        assert((needle + rest).take(n) =~= needle);
    }
    if occurs(hay, needle) {
        let at = choose|at: int| occurs_at(hay, needle, at);
        assert(hay =~= hay.take(at) + needle + hay.skip(at + n));
    }
    if exists|front: Seq<char>, rest: Seq<char>| hay == #[trigger] (front + needle + rest) {
        let (front, rest) = choose|front: Seq<char>, rest: Seq<char>|
            hay == #[trigger] (front + needle + rest);
        lemma_occurs_between(hay, front, needle, rest);
    }
}

} // verus!
