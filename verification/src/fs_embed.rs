//! The source text that gives a struct access to embedded files.
//!
//! The text is made by a build script, which is run again whenever a directory below the
//! embedded folder changes, so that a new file is seen without a full rebuild.

use vstd::prelude::*;
use crate::text::{
    begins_with, chars_of, leading_space, lemma_occurs_between, occurs, same, starts_with,
    string_of, trailing_space, trim, trimmed,
};

verus! {

/// A struct that embeds the files of a folder.
#[derive(Debug)]
pub struct FsEmbed {
    /// The name of the struct; the text goes to a file named after it.
    pub struct_name: String,
    /// The path to the types of embedded files, as seen from the crate of the struct.
    pub crate_path: String,
    /// The folder, relative to the crate of the struct.
    pub crate_relative: String,
    /// Patterns of the files to embed; all where there is none.
    pub includes: Vec<String>,
    /// Patterns of the files to leave out.
    pub excludes: Vec<String>,
}

/// A file to embed.
#[derive(Debug)]
pub struct EmbeddedEntry {
    /// The path below the embedded folder.
    pub rel_path: String,
    /// The whole path.
    pub full_path: String,
}

impl DeepView for EmbeddedEntry {
    type V = (Seq<char>, Seq<char>);

    open spec fn deep_view(&self) -> (Seq<char>, Seq<char>) {
        (self.rel_path@, self.full_path@)
    }
}

/// The text with a backslash before each quote and each backslash.
pub open spec fn escaped(text: Seq<char>) -> Seq<char>
    decreases text.len(),
{
    if text.len() == 0 {
        Seq::empty()
    } else {
        let rest = escaped(text.drop_last());
        let c = text.last();
        if c == '"' || c == '\\' {
            rest.push('\\').push(c)
        } else {
            rest.push(c)
        }
    }
}

/// A string literal of the text.
pub open spec fn literal(text: Seq<char>) -> Seq<char> {
    (seq!['"'] + escaped(text)).push('"')
}

/// The text with slashes for backslashes.
pub open spec fn with_slashes(text: Seq<char>) -> Seq<char> {
    Seq::new(
        text.len(),
        |i: int|
            if text[i] == '\\' {
                '/'
            } else {
                text[i]
            },
    )
}

/// A string literal of the text.
pub fn string_literal(value: &str) -> (r: String)
    ensures
        r@ == literal(value@),
{
    let chars = chars_of(value);
    let mut out = String::new();
    out.push('"');
    let mut i: usize = 0;
    proof {
        assert(chars@.take(0) =~= Seq::empty());
        assert(out@ =~= seq!['"'] + escaped(chars@.take(0)));
    }
    while i < chars.len()
        invariant
            i <= chars@.len(),
            out@ == seq!['"'] + escaped(chars@.take(i as int)),
        decreases chars@.len() - i,
    {
        let ghost done = escaped(chars@.take(i as int));
        let c = chars[i];
        proof {
            let next = chars@.take(i + 1);
            assert(next.drop_last() =~= chars@.take(i as int));
            assert(next.last() == c);
        }
        if c == '"' || c == '\\' {
            out.push('\\');
            out.push(c);
            assert(out@ =~= seq!['"'] + done.push('\\').push(c));
        } else {
            out.push(c);
            assert(out@ =~= seq!['"'] + done.push(c));
        }
        i = i + 1;
    }
    assert(chars@.take(chars@.len() as int) =~= chars@);
    out.push('"');
    out
}

fn slashes(text: &str) -> (r: String)
    ensures
        r@ == with_slashes(text@),
{
    let chars = chars_of(text);
    let ghost wanted = with_slashes(chars@);
    let mut out = String::new();
    let mut i: usize = 0;
    assert(out@ =~= wanted.take(0));
    while i < chars.len()
        invariant
            i <= chars@.len(),
            wanted == with_slashes(chars@),
            out@ == wanted.take(i as int),
        decreases chars@.len() - i,
    {
        if chars[i] == '\\' {
            out.push('/');
        } else {
            out.push(chars[i]);
        }
        i = i + 1;
        assert(out@ =~= wanted.take(i as int));
    }
    assert(wanted.take(wanted.len() as int) =~= wanted);
    out
}

/// The match arm of a file.
pub open spec fn arm_text(file: (Seq<char>, Seq<char>), crate_path: Seq<char>) -> Seq<char> {
    "            "@ + literal(file.0) + " => ::core::option::Option::Some("@ + crate_path
        + "::EmbeddedFile {\n                data: ::std::borrow::Cow::Borrowed(include_bytes!(\""@
        + with_slashes(file.1) + "\")),\n                metadata: "@ + crate_path
        + "::Metadata::__rust_embed_new([0u8; 32], ::core::option::Option::None, ::core::option::Option::None),\n            }),\n"@
}

/// The match arms of files.
pub open spec fn arms_text(files: Seq<(Seq<char>, Seq<char>)>, crate_path: Seq<char>) -> Seq<char>
    decreases files.len(),
{
    if files.len() == 0 {
        Seq::empty()
    } else {
        arms_text(files.drop_last(), crate_path) + arm_text(files.last(), crate_path)
    }
}

/// The names of files, each as a literal with a comma behind it.
pub open spec fn names_text(files: Seq<(Seq<char>, Seq<char>)>) -> Seq<char>
    decreases files.len(),
{
    if files.len() == 0 {
        Seq::empty()
    } else {
        names_text(files.drop_last()) + literal(files.last().0) + ", "@
    }
}

/// The source text for a struct: to get a file by its name, to walk over the names, and
/// both through the trait for embedded files.
pub open spec fn impl_text(
    name: Seq<char>,
    crate_path: Seq<char>,
    files: Seq<(Seq<char>, Seq<char>)>,
) -> Seq<char> {
    "impl "@ + name + " {\n    pub fn get(file_path: &str) -> ::core::option::Option<"@ + crate_path
        + "::EmbeddedFile> {\n        match file_path {\n"@ + arms_text(files, crate_path)
        + "            _ => ::core::option::Option::None,\n        }\n    }\n\n    pub fn iter() -> impl ::core::iter::Iterator<Item = ::std::borrow::Cow<'static, str>> + 'static {\n        ["@
        + names_text(files)
        + "].into_iter().map(::std::borrow::Cow::Borrowed)\n    }\n}\n\nimpl "@ + crate_path
        + "::RustEmbed for "@ + name
        + " {\n    fn get(file_path: &str) -> ::core::option::Option<"@ + crate_path
        + "::EmbeddedFile> {\n        "@ + name
        + "::get(file_path)\n    }\n\n    fn iter() -> impl ::core::iter::Iterator<Item = ::std::borrow::Cow<'static, str>> + 'static {\n        "@
        + name + "::iter()\n    }\n}\n"@
}

fn write_arm(file: &EmbeddedEntry, crate_path: &str) -> (r: String)
    ensures
        r@ == arm_text(file.deep_view(), crate_path@),
{
    let mut out = "            ".to_owned();
    out.append(string_literal(file.rel_path.as_str()).as_str());
    out.append(" => ::core::option::Option::Some(");
    out.append(crate_path);
    out.append(
        "::EmbeddedFile {\n                data: ::std::borrow::Cow::Borrowed(include_bytes!(\"",
    );
    out.append(slashes(file.full_path.as_str()).as_str());
    out.append("\")),\n                metadata: ");
    out.append(crate_path);
    out.append(
        "::Metadata::__rust_embed_new([0u8; 32], ::core::option::Option::None, ::core::option::Option::None),\n            }),\n",
    );
    out
}

fn write_arms(files: &Vec<EmbeddedEntry>, crate_path: &str) -> (r: String)
    ensures
        r@ == arms_text(files.deep_view(), crate_path@),
{
    let ghost models = files.deep_view();
    let mut out = String::new();
    let mut i: usize = 0;
    proof {
        assert(models.take(0) =~= Seq::empty());
        assert(out@ =~= Seq::<char>::empty());
    }
    while i < files.len()
        invariant
            i <= files@.len(),
            models == files.deep_view(),
            out@ == arms_text(models.take(i as int), crate_path@),
        decreases files@.len() - i,
    {
        proof {
            let next = models.take(i + 1);
            assert(next.drop_last() =~= models.take(i as int));
            assert(next.last() == files@[i as int].deep_view());
        }
        out.append(write_arm(&files[i], crate_path).as_str());
        i = i + 1;
    }
    assert(models.take(models.len() as int) =~= models);
    out
}

fn write_names(files: &Vec<EmbeddedEntry>) -> (r: String)
    ensures
        r@ == names_text(files.deep_view()),
{
    let ghost models = files.deep_view();
    let mut out = String::new();
    let mut i: usize = 0;
    proof {
        assert(models.take(0) =~= Seq::empty());
        assert(out@ =~= Seq::<char>::empty());
    }
    while i < files.len()
        invariant
            i <= files@.len(),
            models == files.deep_view(),
            out@ == names_text(models.take(i as int)),
        decreases files@.len() - i,
    {
        proof {
            let next = models.take(i + 1);
            assert(next.drop_last() =~= models.take(i as int));
            assert(next.last() == files@[i as int].deep_view());
        }
        out.append(string_literal(files[i].rel_path.as_str()).as_str());
        out.append(", ");
        i = i + 1;
    }
    assert(models.take(models.len() as int) =~= models);
    out
}

impl FsEmbed {
    fn file_name(&self) -> (r: String)
        ensures
            r@ == self.struct_name@ + "_fs_embed_impl.rs"@,
    {
        let mut name = self.struct_name.clone();
        name.append("_fs_embed_impl.rs");
        name
    }

    fn source(&self, files: &Vec<EmbeddedEntry>) -> (r: String)
        ensures
            r@ == impl_text(self.struct_name@, self.crate_path@, files.deep_view()),
    {
        let name = self.struct_name.as_str();
        let crate_path = self.crate_path.as_str();
        let mut body = "impl ".to_owned();
        body.append(name);
        body.append(" {\n    pub fn get(file_path: &str) -> ::core::option::Option<");
        body.append(crate_path);
        body.append("::EmbeddedFile> {\n        match file_path {\n");
        body.append(write_arms(files, crate_path).as_str());
        body.append(
            "            _ => ::core::option::Option::None,\n        }\n    }\n\n    pub fn iter() -> impl ::core::iter::Iterator<Item = ::std::borrow::Cow<'static, str>> + 'static {\n        [",
        );
        body.append(write_names(files).as_str());
        body.append("].into_iter().map(::std::borrow::Cow::Borrowed)\n    }\n}\n\nimpl ");
        body.append(crate_path);
        body.append("::RustEmbed for ");
        body.append(name);
        body.append(" {\n    fn get(file_path: &str) -> ::core::option::Option<");
        body.append(crate_path);
        body.append("::EmbeddedFile> {\n        ");
        body.append(name);
        body.append(
            "::get(file_path)\n    }\n\n    fn iter() -> impl ::core::iter::Iterator<Item = ::std::borrow::Cow<'static, str>> + 'static {\n        ",
        );
        body.append(name);
        body.append("::iter()\n    }\n}\n");
        body
    }
}

/// The name of the file that the source text for a struct goes to, and that text, given
/// the files to embed.
pub fn generate(fs_embed: &FsEmbed, files: &Vec<EmbeddedEntry>) -> (r: (String, String))
    ensures
        r.0@ == fs_embed.struct_name@ + "_fs_embed_impl.rs"@,
        r.1@ == impl_text(fs_embed.struct_name@, fs_embed.crate_path@, files.deep_view()),
{
    (fs_embed.file_name(), fs_embed.source(files))
}

/// Whether a text has to be written: not where the file holds it already.
pub fn must_write(existing: Option<&str>, contents: &str) -> (r: bool)
    ensures
        r == (existing.deep_view() != Some(contents@)),
{
    match existing {
        Some(existing) => !same(existing, contents),
        None => true,
    }
}

/// The line that has a build script run again when a directory changes.
pub fn rerun_line(directory: &str) -> (r: String)
    ensures
        r@ == "cargo:rerun-if-changed="@ + directory@,
{
    let mut line = "cargo:rerun-if-changed=".to_owned();
    line.append(directory);
    line
}

// ---------------------------------------------------------------------------
// The version of a package

/// Where a character first stands; the length where it does not.
pub open spec fn first_index(text: Seq<char>, c: char) -> nat
    decreases text.len(),
{
    if text.len() == 0 || text[0] == c {
        0
    } else {
        1 + first_index(text.drop_first(), c)
    }
}

proof fn lemma_first_index(text: Seq<char>, c: char)
    ensures
        first_index(text, c) <= text.len(),
        first_index(text, c) < text.len() ==> text[first_index(text, c) as int] == c,
    decreases text.len(),
{
    if text.len() > 0 && text[0] != c {
        lemma_first_index(text.drop_first(), c);
    }
}

/// A line without the carriage return that stood before its line feed.
pub open spec fn without_return(line: Seq<char>) -> Seq<char> {
    if line.len() > 0 && line.last() == '\r' {
        line.drop_last()
    } else {
        line
    }
}

/// The lines of a text. A line ends with a line feed, or a carriage return and a line
/// feed; the last one may go without.
pub open spec fn lines(text: Seq<char>) -> Seq<Seq<char>>
    decreases text.len(),
{
    if text.len() == 0 {
        Seq::empty()
    } else {
        let end = first_index(text, '\n') as int;
        if end < text.len() {
            seq![without_return(text.take(end))] + lines(text.skip(end + 1))
        } else {
            seq![text]
        }
    }
}

/// The first of the lines that begins with the given text.
pub open spec fn first_line_with(lines: Seq<Seq<char>>, start: Seq<char>) -> Option<Seq<char>>
    decreases lines.len(),
{
    if lines.len() == 0 {
        None
    } else if begins_with(lines[0], start) {
        Some(lines[0])
    } else {
        first_line_with(lines.drop_first(), start)
    }
}

/// What stands after the first equals sign, up to the second.
pub open spec fn value_in(line: Seq<char>) -> Seq<char> {
    let rest = line.skip(first_index(line, '=') as int + 1);
    rest.take(first_index(rest, '=') as int)
}

/// The text without the quotes at its ends.
pub open spec fn unquoted(text: Seq<char>) -> Seq<char>
    decreases text.len(),
{
    if text.len() > 0 && text[0] == '"' {
        unquoted(text.drop_first())
    } else if text.len() > 0 && text.last() == '"' {
        unquoted(text.drop_last())
    } else {
        text
    }
}

/// The version that a package manifest gives.
pub open spec fn version_in(manifest: Seq<char>) -> Option<Seq<char>> {
    match first_line_with(lines(manifest), "version = "@) {
        Some(line) => Some(unquoted(trimmed(value_in(line)))),
        None => None,
    }
}

fn index_of(chars: &Vec<char>, c: char, from: usize) -> (r: usize)
    requires
        from <= chars@.len(),
    ensures
        from <= r <= chars@.len(),
        r == from + first_index(chars@.skip(from as int), c),
{
    let mut i: usize = from;
    while i < chars.len()
        invariant
            from <= i <= chars@.len(),
            from + first_index(chars@.skip(from as int), c) == i + first_index(
                chars@.skip(i as int),
                c,
            ),
        decreases chars@.len() - i,
    {
        assert(chars@.skip(i as int).drop_first() =~= chars@.skip(i + 1));
        if chars[i] == c {
            return i;
        }
        i = i + 1;
    }
    i
}

fn read_value(line: &str) -> (r: String)
    requires
        first_index(line@, '=') < line@.len(),
    ensures
        r@ == value_in(line@),
{
    let chars = chars_of(line);
    assert(chars@.skip(0) =~= chars@);
    let first = index_of(&chars, '=', 0);
    assert(first < chars.len());
    let from: usize = first + 1;
    let to = index_of(&chars, '=', from);
    let r = string_of(&chars, from, to);
    proof {
        let rest = chars@.skip(from as int);
        lemma_first_index(rest, '=');
        assert(chars@.subrange(from as int, to as int) =~= rest.take(first_index(rest, '=') as int));
    }
    r
}

fn read_unquoted(text: &str) -> (r: String)
    ensures
        r@ == unquoted(text@),
{
    let chars = chars_of(text);
    let mut from: usize = 0;
    let mut to: usize = chars.len();
    assert(chars@.subrange(0, chars@.len() as int) =~= chars@);
    while from < to && chars[from] == '"'
        invariant
            from <= to <= chars@.len(),
            to == chars@.len(),
            unquoted(chars@) == unquoted(chars@.subrange(from as int, to as int)),
        decreases to - from,
    {
        assert(chars@.subrange(from as int, to as int).drop_first() =~= chars@.subrange(
            from + 1,
            to as int,
        ));
        from = from + 1;
    }
    while from < to && chars[to - 1] == '"'
        invariant
            from <= to <= chars@.len(),
            from < to ==> chars@[from as int] != '"',
            unquoted(chars@) == unquoted(chars@.subrange(from as int, to as int)),
        decreases to - from,
    {
        assert(chars@.subrange(from as int, to as int).drop_last() =~= chars@.subrange(
            from as int,
            to - 1,
        ));
        to = to - 1;
    }
    proof {
        let left = chars@.subrange(from as int, to as int);
        assert(from < to ==> left[0] == chars@[from as int]);
        assert(from < to ==> left.last() == chars@[to - 1]);
    }
    string_of(&chars, from, to)
}

proof fn lemma_version_line_has_equals(line: Seq<char>)
    requires
        begins_with(line, "version = "@),
    ensures
        first_index(line, '=') < line.len(),
{
    reveal_strlit("version = ");
    let start = line.take("version = "@.len() as int);
    assert(start == "version = "@);
    assert(line[8] == start[8]);
    assert("version = "@[8] == '=');
    lemma_index_before(line, '=', 8);
}

proof fn lemma_index_before(text: Seq<char>, c: char, i: int)
    requires
        0 <= i < text.len(),
        text[i] == c,
    ensures
        first_index(text, c) <= i,
    decreases text.len(),
{
    if text[0] != c {
        assert(text.drop_first()[i - 1] == c);
        lemma_index_before(text.drop_first(), c, i - 1);
    }
}

/// The version that a package manifest gives.
pub fn package_version(manifest: &str) -> (r: Option<String>)
    ensures
        r.deep_view() == version_in(manifest@),
{
    let chars = chars_of(manifest);
    let ghost start = "version = "@;
    let mut from: usize = 0;
    assert(chars@.skip(0) =~= chars@);
    while from < chars.len()
        invariant
            from <= chars@.len(),
            chars@ == manifest@,
            start == "version = "@,
            first_line_with(lines(chars@), start) == first_line_with(
                lines(chars@.skip(from as int)),
                start,
            ),
        decreases chars@.len() - from,
    {
        let ghost rest = chars@.skip(from as int);
        let end = index_of(&chars, '\n', from);
        let mut stop: usize = end;
        if end < chars.len() && end > from && chars[end - 1] == '\r' {
            stop = end - 1;
        }
        let line = string_of(&chars, from, stop);
        proof {
            lemma_first_index(rest, '\n');
            let n = end - from;
            assert(rest.take(n) =~= chars@.subrange(from as int, end as int));
            if end < chars@.len() {
                assert(end > from ==> rest.take(n).last() == chars@[end - 1]);
                assert(line@ =~= without_return(rest.take(n)));
                assert(rest.skip(n + 1) =~= chars@.skip(end + 1));
                assert(lines(rest) == seq![line@] + lines(chars@.skip(end + 1)));
                assert(lines(rest).drop_first() =~= lines(chars@.skip(end + 1)));
            } else {
                assert(line@ =~= rest);
                assert(lines(rest) == seq![line@]);
                assert(lines(rest).drop_first() =~= Seq::empty());
            }
        }
        if starts_with(line.as_str(), "version = ") {
            proof {
                lemma_version_line_has_equals(line@);
            }
            let value = read_value(line.as_str());
            let value = trim(value.as_str());
            return Some(read_unquoted(value.as_str()));
        }
        if end >= chars.len() {
            proof {
                reveal_with_fuel(first_line_with, 2);
            }
            return None;
        }
        from = end + 1;
    }
    assert(chars@.skip(chars@.len() as int) =~= Seq::empty());
    None
}

// ---------------------------------------------------------------------------
// What the texts hold

/// A literal tells its text: two texts have the same literal only where they are the same.
pub proof fn law_literal_tells_its_text(a: Seq<char>, b: Seq<char>)
    requires
        literal(a) == literal(b),
    ensures
        a == b,
{
    let (x, y) = (literal(a), literal(b));
    assert(x.subrange(1, x.len() - 1) =~= escaped(a));
    assert(y.subrange(1, y.len() - 1) =~= escaped(b));
    lemma_escaped_injective(a, b);
}

proof fn lemma_escaped_injective(a: Seq<char>, b: Seq<char>)
    requires
        escaped(a) == escaped(b),
    ensures
        a == b,
    decreases a.len(),
{
    if a.len() == 0 || b.len() == 0 {
        assert(escaped(a).len() == 0 <==> a.len() == 0);
        assert(escaped(b).len() == 0 <==> b.len() == 0);
        assert(a =~= b);
    } else {
        assert(escaped(a).last() == a.last());
        assert(escaped(b).last() == b.last());
        let c = a.last();
        let (x, y) = (escaped(a.drop_last()), escaped(b.drop_last()));
        if c == '"' || c == '\\' {
            assert(x.push('\\').push(c).drop_last().drop_last() =~= x);
            assert(y.push('\\').push(c).drop_last().drop_last() =~= y);
        } else {
            assert(x.push(c).drop_last() =~= x);
            assert(y.push(c).drop_last() =~= y);
        }
        lemma_escaped_injective(a.drop_last(), b.drop_last());
        assert(a =~= a.drop_last().push(c));
        assert(b =~= b.drop_last().push(c));
    }
}

/// Each quote and each backslash of a text stands in its literal behind a backslash, and every
/// other character as it is; the literal itself stands in quotes.
pub proof fn law_literal_escapes_quotes(text: Seq<char>, c: char)
    ensures
        literal(text)[0] == '"' && literal(text).last() == '"',
        c == '"' || c == '\\' ==> escaped(text.push(c)) == escaped(text) + seq!['\\', c],
        c != '"' && c != '\\' ==> escaped(text.push(c)) == escaped(text) + seq![c],
        escaped(Seq::empty()).len() == 0,
{
    assert(text.push(c).drop_last() =~= text);
    assert(escaped(text).push('\\').push(c) =~= escaped(text) + seq!['\\', c]);
    assert(escaped(text).push(c) =~= escaped(text) + seq![c]);
}

/// A path is written with slashes for backslashes, and is otherwise as it was.
pub proof fn law_no_backslash_is_left(text: Seq<char>, i: int)
    requires
        0 <= i < text.len(),
    ensures
        with_slashes(text).len() == text.len(),
        with_slashes(text)[i] != '\\',
        text[i] == '\\' ==> with_slashes(text)[i] == '/',
        text[i] != '\\' ==> with_slashes(text)[i] == text[i],
{
}

/// A file is found under its name, and read from its whole path: its arm begins with the
/// literal of the one, and holds the other.
pub proof fn law_arm_names_and_reads_the_file(
    file: (Seq<char>, Seq<char>),
    crate_path: Seq<char>,
)
    ensures
        begins_with(arm_text(file, crate_path), "            "@ + literal(file.0) + " => "@),
        occurs(arm_text(file, crate_path), "!(\""@ + with_slashes(file.1) + "\"))"@),
{
    let arm = arm_text(file, crate_path);
    let front = "            "@ + literal(file.0);
    let chosen = " => ::core::option::Option::Some("@;
    let open =
        "::EmbeddedFile {\n                data: ::std::borrow::Cow::Borrowed(include_bytes!(\""@;
    let close = "\")),\n                metadata: "@;
    let path = with_slashes(file.1);
    let named = front + " => "@;
    assert(named.len() <= arm.len() && arm.take(named.len() as int) =~= named) by {
        reveal_strlit(" => ");
        reveal_strlit(" => ::core::option::Option::Some(");
        assert(chosen.take(4) =~= " => "@);
    }
    let last =
        "::Metadata::__rust_embed_new([0u8; 32], ::core::option::Option::None, ::core::option::Option::None),\n            }),\n"@;
    let before = front + chosen + crate_path + open.take(open.len() - 3);
    let wanted = "!(\""@ + path + "\"))"@;
    let after = close.skip(3) + crate_path + last;
    assert(open =~= open.take(open.len() - 3) + "!(\""@) by {
        reveal_strlit("!(\"");
        reveal_strlit(
            "::EmbeddedFile {\n                data: ::std::borrow::Cow::Borrowed(include_bytes!(\"",
        );
    }
    assert(close =~= "\"))"@ + close.skip(3)) by {
        reveal_strlit("\"))");
        reveal_strlit("\")),\n                metadata: ");
    }
    assert(arm =~= before + wanted + after);
    lemma_occurs_between(arm, before, wanted, after);
}

/// The arms come one after the other, and so do the names.
pub proof fn law_files_come_one_after_the_other(
    files: Seq<(Seq<char>, Seq<char>)>,
    file: (Seq<char>, Seq<char>),
    crate_path: Seq<char>,
)
    ensures
        arms_text(Seq::empty(), crate_path).len() == 0,
        arms_text(files.push(file), crate_path) == arms_text(files, crate_path) + arm_text(
            file,
            crate_path,
        ),
        names_text(Seq::empty()).len() == 0,
        names_text(files.push(file)) == names_text(files) + literal(file.0) + ", "@,
{
    assert(files.push(file).drop_last() =~= files);
}

proof fn lemma_no_index(text: Seq<char>, c: char)
    requires
        !text.contains(c),
    ensures
        first_index(text, c) == text.len(),
    decreases text.len(),
{
    if text.len() > 0 {
        assert(text.contains(text[0]));
        let rest = text.drop_first();
        assert forall|i: int| 0 <= i < rest.len() implies rest[i] != c by {
            assert(rest[i] == text[i + 1]);
            assert(text.contains(text[i + 1]));
        }
        lemma_no_index(rest, c);
    }
}

proof fn lemma_index_at(front: Seq<char>, c: char, back: Seq<char>)
    requires
        !front.contains(c),
    ensures
        first_index(front + seq![c] + back, c) == front.len(),
    decreases front.len(),
{
    let text = front + seq![c] + back;
    if front.len() > 0 {
        assert(front.contains(front[0]));
        assert(text[0] == front[0]);
        let rest = front.drop_first();
        assert forall|i: int| 0 <= i < rest.len() implies rest[i] != c by {
            assert(rest[i] == front[i + 1]);
            assert(front.contains(front[i + 1]));
        }
        assert(text.drop_first() =~= rest + seq![c] + back);
        lemma_index_at(rest, c, back);
    } else {
        assert(text[0] == c);
    }
}

/// A line ends at the first line feed, and a carriage return before it does not belong to it;
/// what follows is lines again, and what no line feed ends is a line too.
pub proof fn law_lines_end_at_line_feeds(line: Seq<char>, rest: Seq<char>)
    requires
        !line.contains('\n'),
    ensures
        line.len() == 0 || line.last() != '\r' ==> lines(line + seq!['\n'] + rest) == seq![line]
            + lines(rest),
        line.len() > 0 && line.last() == '\r' ==> lines(line + seq!['\n'] + rest)
            == seq![line.drop_last()] + lines(rest),
        line.len() > 0 ==> lines(line) == seq![line],
        lines(Seq::empty()).len() == 0,
{
    let text = line + seq!['\n'] + rest;
    lemma_index_at(line, '\n', rest);
    lemma_no_index(line, '\n');
    assert(text.take(line.len() as int) =~= line);
    assert(text.skip(line.len() as int + 1) =~= rest);
}

/// The version that a line gives in quotes is the version without them.
pub proof fn law_version_is_read_without_quotes(version: Seq<char>, manifest: Seq<char>)
    requires
        !version.contains('='),
        !version.contains('"'),
        !version.contains('\n'),
        manifest == "version = "@ + seq!['"'] + version + seq!['"'],
    ensures
        version_in(manifest) == Some(version),
{
    reveal_strlit("version = ");
    let line = manifest;
    assert forall|i: int| 0 <= i < line.len() implies line[i] != '\n' by {
        if 11 <= i < 11 + version.len() {
            assert(line[i] == version[i - 11]);
            assert(version.contains(version[i - 11]));
        }
    }
    law_lines_end_at_line_feeds(line, Seq::empty());
    assert(line.take(10) =~= "version = "@);
    assert(lines(line)[0] == line);
    let name = "version "@;
    reveal_strlit("version ");
    let rest = seq![' ', '"'] + version + seq!['"'];
    assert(line =~= name + seq!['='] + rest);
    assert forall|i: int| 0 <= i < name.len() implies name[i] != '=' by {}
    lemma_index_at(name, '=', rest);
    assert(line.skip(9) =~= rest);
    assert forall|i: int| 0 <= i < rest.len() implies rest[i] != '=' by {
        if 2 <= i < 2 + version.len() {
            assert(rest[i] == version[i - 2]);
            assert(version.contains(version[i - 2]));
        }
    }
    lemma_no_index(rest, '=');
    assert(value_in(line) =~= rest);
    let quoted = seq!['"'] + version + seq!['"'];
    assert(rest[0] == ' ');
    assert(rest.drop_first() =~= quoted);
    assert(quoted[0] == '"');
    assert(leading_space(quoted) == 0);
    assert(leading_space(rest) == 1);
    assert(rest.skip(1) =~= quoted);
    assert(quoted.last() == '"');
    assert(trailing_space(quoted) == 0);
    assert(trimmed(rest) =~= quoted);
    let half = version + seq!['"'];
    assert(quoted.drop_first() =~= half);
    if version.len() > 0 {
        assert(version.contains(version[0]));
        assert(version.contains(version.last()));
        assert(half[0] == version[0]);
        assert(half.last() == '"');
        assert(half.drop_last() =~= version);
        assert(unquoted(version) == version);
        assert(unquoted(half) == version);
    } else {
        assert(half[0] == '"');
        assert(half.drop_first() =~= version);
        assert(unquoted(version) == version);
        assert(unquoted(half) == version);
    }
    assert(unquoted(quoted) == version);
}

/// The source text is an implementation for the struct of that name: it gets a file by the arms
/// of all files, walks over their names, and implements the trait of the crate at that path.
pub proof fn law_source_is_for_that_struct(
    name: Seq<char>,
    crate_path: Seq<char>,
    files: Seq<(Seq<char>, Seq<char>)>,
)
    ensures
        begins_with(impl_text(name, crate_path, files), "impl "@ + name + " {"@),
        occurs(
            impl_text(name, crate_path, files),
            "        match file_path {\n"@ + arms_text(files, crate_path) + "            _ => "@,
        ),
        occurs(impl_text(name, crate_path, files), "["@ + names_text(files) + "]"@),
        occurs(
            impl_text(name, crate_path, files),
            "impl "@ + crate_path + "::RustEmbed for "@ + name + " {"@,
        ),
{
    let parts = impl_parts(name, crate_path, files);
    lemma_impl_parts(name, crate_path, files);
    lemma_get_opens();
    lemma_get_of_trait_opens();
    lemma_match_is_last();
    lemma_other_arm_is_first();
    lemma_bracket_is_last();
    lemma_bracket_is_first();
    lemma_impl_is_last();
    lemma_begins_in_parts(parts, " {"@);
    lemma_occurs_across(parts, 4, "        match file_path {\n"@, "            _ => "@);
    lemma_occurs_across(parts, 6, "["@, "]"@);
    lemma_occurs_across_five(parts, 8, "impl "@, " {"@);
}

proof fn lemma_get_opens()
    ensures
        " {\n    pub fn get(file_path: &str) -> ::core::option::Option<"@ == " {"@ + " {\n    pub fn get(file_path: &str) -> ::core::option::Option<"@.skip(" {"@.len() as int),
{
    reveal_strlit(" {");
    reveal_strlit(
        " {\n    pub fn get(file_path: &str) -> ::core::option::Option<",
    );
}

proof fn lemma_get_of_trait_opens()
    ensures
        " {\n    fn get(file_path: &str) -> ::core::option::Option<"@ == " {"@ + " {\n    fn get(file_path: &str) -> ::core::option::Option<"@.skip(" {"@.len() as int),
{
    reveal_strlit(" {");
    reveal_strlit(
        " {\n    fn get(file_path: &str) -> ::core::option::Option<",
    );
}

proof fn lemma_match_is_last()
    ensures
        "::EmbeddedFile> {\n        match file_path {\n"@ == "::EmbeddedFile> {\n        match file_path {\n"@.take("::EmbeddedFile> {\n        match file_path {\n"@.len() - "        match file_path {\n"@.len()) + "        match file_path {\n"@,
{
    reveal_strlit("        match file_path {\n");
    reveal_strlit(
        "::EmbeddedFile> {\n        match file_path {\n",
    );
}

proof fn lemma_other_arm_is_first()
    ensures
        "            _ => ::core::option::Option::None,\n        }\n    }\n\n    pub fn iter() -> impl ::core::iter::Iterator<Item = ::std::borrow::Cow<'static, str>> + 'static {\n        ["@ == "            _ => "@ + "            _ => ::core::option::Option::None,\n        }\n    }\n\n    pub fn iter() -> impl ::core::iter::Iterator<Item = ::std::borrow::Cow<'static, str>> + 'static {\n        ["@.skip("            _ => "@.len() as int),
{
    reveal_strlit("            _ => ");
    reveal_strlit(
        "            _ => ::core::option::Option::None,\n        }\n    }\n\n    pub fn iter() -> impl ::core::iter::Iterator<Item = ::std::borrow::Cow<'static, str>> + 'static {\n        [",
    );
}

proof fn lemma_bracket_is_last()
    ensures
        "            _ => ::core::option::Option::None,\n        }\n    }\n\n    pub fn iter() -> impl ::core::iter::Iterator<Item = ::std::borrow::Cow<'static, str>> + 'static {\n        ["@ == "            _ => ::core::option::Option::None,\n        }\n    }\n\n    pub fn iter() -> impl ::core::iter::Iterator<Item = ::std::borrow::Cow<'static, str>> + 'static {\n        ["@.take("            _ => ::core::option::Option::None,\n        }\n    }\n\n    pub fn iter() -> impl ::core::iter::Iterator<Item = ::std::borrow::Cow<'static, str>> + 'static {\n        ["@.len() - "["@.len()) + "["@,
{
    reveal_strlit("[");
    reveal_strlit(
        "            _ => ::core::option::Option::None,\n        }\n    }\n\n    pub fn iter() -> impl ::core::iter::Iterator<Item = ::std::borrow::Cow<'static, str>> + 'static {\n        [",
    );
}

proof fn lemma_bracket_is_first()
    ensures
        "].into_iter().map(::std::borrow::Cow::Borrowed)\n    }\n}\n\nimpl "@ == "]"@ + "].into_iter().map(::std::borrow::Cow::Borrowed)\n    }\n}\n\nimpl "@.skip("]"@.len() as int),
{
    reveal_strlit("]");
    reveal_strlit(
        "].into_iter().map(::std::borrow::Cow::Borrowed)\n    }\n}\n\nimpl ",
    );
}

proof fn lemma_impl_is_last()
    ensures
        "].into_iter().map(::std::borrow::Cow::Borrowed)\n    }\n}\n\nimpl "@ == "].into_iter().map(::std::borrow::Cow::Borrowed)\n    }\n}\n\nimpl "@.take("].into_iter().map(::std::borrow::Cow::Borrowed)\n    }\n}\n\nimpl "@.len() - "impl "@.len()) + "impl "@,
{
    reveal_strlit("impl ");
    reveal_strlit(
        "].into_iter().map(::std::borrow::Cow::Borrowed)\n    }\n}\n\nimpl ",
    );
}

proof fn lemma_begins_in_parts(parts: Seq<Seq<char>>, start: Seq<char>)
    requires
        parts.len() >= 3,
        parts[2] == start + parts[2].skip(start.len() as int),
    ensures
        begins_with(concat(parts), parts[0] + parts[1] + start),
{
    let front = parts[0] + parts[1] + start;
    lemma_concat_splits(parts, 0, 3);
    lemma_three_parts(parts, 0);
    let first = concat(parts.subrange(0, 3));
    let rest = parts[2].skip(start.len() as int);
    assert(concat(parts.take(0)) =~= Seq::empty());
    assert(first =~= front + rest);
    assert(concat(parts) =~= front + (rest + concat(parts.skip(3))));
    assert(concat(parts).take(front.len() as int) =~= front);
}

proof fn lemma_occurs_across(parts: Seq<Seq<char>>, i: int, end: Seq<char>, start: Seq<char>)
    requires
        0 <= i,
        i + 3 <= parts.len(),
        parts[i] == parts[i].take(parts[i].len() - end.len()) + end,
        parts[i + 2] == start + parts[i + 2].skip(start.len() as int),
    ensures
        occurs(concat(parts), end + parts[i + 1] + start),
{
    let needle = end + parts[i + 1] + start;
    let front = parts[i].take(parts[i].len() - end.len());
    let back = parts[i + 2].skip(start.len() as int);
    lemma_three_parts(parts, i);
    assert(concat(parts.subrange(i, i + 3)) =~= front + needle + back);
    lemma_occurs_in_parts(parts, i, i + 3, front, needle, back);
}

proof fn lemma_occurs_across_five(parts: Seq<Seq<char>>, i: int, end: Seq<char>, start: Seq<char>)
    requires
        0 <= i,
        i + 5 <= parts.len(),
        parts[i] == parts[i].take(parts[i].len() - end.len()) + end,
        parts[i + 4] == start + parts[i + 4].skip(start.len() as int),
    ensures
        occurs(concat(parts), end + parts[i + 1] + parts[i + 2] + parts[i + 3] + start),
{
    let needle = end + parts[i + 1] + parts[i + 2] + parts[i + 3] + start;
    let front = parts[i].take(parts[i].len() - end.len());
    let back = parts[i + 4].skip(start.len() as int);
    let five = parts.subrange(i, i + 5);
    lemma_concat_next(five, 3);
    lemma_concat_next(five, 4);
    lemma_three_parts(five, 0);
    assert(five.subrange(0, 3) =~= five.take(3));
    assert(five.take(5) =~= five);
    assert(concat(five) =~= front + needle + back);
    lemma_occurs_in_parts(parts, i, i + 5, front, needle, back);
}

/// The texts one after the other.
spec fn concat(parts: Seq<Seq<char>>) -> Seq<char>
    decreases parts.len(),
{
    if parts.len() == 0 {
        Seq::empty()
    } else {
        concat(parts.drop_last()) + parts.last()
    }
}

proof fn lemma_concat_splits(parts: Seq<Seq<char>>, i: int, j: int)
    requires
        0 <= i <= j <= parts.len(),
    ensures
        concat(parts) == concat(parts.take(i)) + concat(parts.subrange(i, j)) + concat(
            parts.skip(j),
        ),
    decreases parts.len(),
{
    let rest = parts.drop_last();
    let (x, y, z) = (parts.take(i), parts.subrange(i, j), parts.skip(j));
    if j < parts.len() {
        lemma_concat_splits(rest, i, j);
        assert(rest.take(i) =~= x && rest.subrange(i, j) =~= y && rest.skip(j) =~= z.drop_last());
        assert(concat(z) == concat(z.drop_last()) + parts.last());
        assert((concat(x) + concat(y) + concat(z.drop_last())) + parts.last() =~= concat(x)
            + concat(y) + concat(z));
    } else if i < j {
        lemma_concat_splits(rest, i, j - 1);
        assert(rest.take(i) =~= x && rest.subrange(i, j - 1) =~= y.drop_last());
        assert(rest.skip(j - 1) =~= Seq::empty() && z =~= Seq::empty());
        assert(concat(y) == concat(y.drop_last()) + parts.last());
        assert(concat(parts) =~= concat(x) + concat(y) + concat(z));
    } else {
        assert(x =~= parts && y =~= Seq::empty() && z =~= Seq::empty());
        assert(concat(parts) =~= concat(x) + concat(y) + concat(z));
    }
}

proof fn lemma_three_parts(parts: Seq<Seq<char>>, i: int)
    requires
        0 <= i,
        i + 3 <= parts.len(),
    ensures
        concat(parts.subrange(i, i + 3)) == parts[i] + parts[i + 1] + parts[i + 2],
{
    let three = parts.subrange(i, i + 3);
    let two = three.drop_last();
    let one = two.drop_last();
    reveal_with_fuel(concat, 4);
    assert(one.drop_last() =~= Seq::empty());
    assert(concat(one) =~= parts[i]);
}

proof fn lemma_occurs_in_parts(
    parts: Seq<Seq<char>>,
    i: int,
    j: int,
    front: Seq<char>,
    needle: Seq<char>,
    back: Seq<char>,
)
    requires
        0 <= i <= j <= parts.len(),
        concat(parts.subrange(i, j)) =~= front + needle + back,
    ensures
        occurs(concat(parts), needle),
{
    lemma_concat_splits(parts, i, j);
    let before = concat(parts.take(i)) + front;
    let after = back + concat(parts.skip(j));
    assert(concat(parts) =~= before + needle + after);
    lemma_occurs_between(concat(parts), before, needle, after);
}

/// The pieces of the source text.
spec fn impl_parts(
    name: Seq<char>,
    crate_path: Seq<char>,
    files: Seq<(Seq<char>, Seq<char>)>,
) -> Seq<Seq<char>> {
    seq![
        "impl "@,
        name,
        " {\n    pub fn get(file_path: &str) -> ::core::option::Option<"@,
        crate_path,
        "::EmbeddedFile> {\n        match file_path {\n"@,
        arms_text(files, crate_path),
        "            _ => ::core::option::Option::None,\n        }\n    }\n\n    pub fn iter() -> impl ::core::iter::Iterator<Item = ::std::borrow::Cow<'static, str>> + 'static {\n        ["@,
        names_text(files),
        "].into_iter().map(::std::borrow::Cow::Borrowed)\n    }\n}\n\nimpl "@,
        crate_path,
        "::RustEmbed for "@,
        name,
        " {\n    fn get(file_path: &str) -> ::core::option::Option<"@,
        crate_path,
        "::EmbeddedFile> {\n        "@,
        name,
        "::get(file_path)\n    }\n\n    fn iter() -> impl ::core::iter::Iterator<Item = ::std::borrow::Cow<'static, str>> + 'static {\n        "@,
        name,
        "::iter()\n    }\n}\n"@,
    ]
}

proof fn lemma_impl_parts(
    name: Seq<char>,
    crate_path: Seq<char>,
    files: Seq<(Seq<char>, Seq<char>)>,
)
    ensures
        concat(impl_parts(name, crate_path, files)) == impl_text(name, crate_path, files),
{
    let parts = impl_parts(name, crate_path, files);
    assert(parts.len() == 19);
    assert(concat(parts.take(0)) =~= Seq::empty());
    lemma_concat_next(parts, 0);
    lemma_concat_next(parts, 1);
    lemma_concat_next(parts, 2);
    lemma_concat_next(parts, 3);
    lemma_concat_next(parts, 4);
    lemma_concat_next(parts, 5);
    lemma_concat_next(parts, 6);
    lemma_concat_next(parts, 7);
    lemma_concat_next(parts, 8);
    lemma_concat_next(parts, 9);
    lemma_concat_next(parts, 10);
    lemma_concat_next(parts, 11);
    lemma_concat_next(parts, 12);
    lemma_concat_next(parts, 13);
    lemma_concat_next(parts, 14);
    lemma_concat_next(parts, 15);
    lemma_concat_next(parts, 16);
    lemma_concat_next(parts, 17);
    lemma_concat_next(parts, 18);
    assert(concat(parts.take(1)) =~= "impl "@);
    assert(parts.take(19) =~= parts);
}

proof fn lemma_concat_next(parts: Seq<Seq<char>>, i: int)
    requires
        0 <= i < parts.len(),
    ensures
        concat(parts.take(i + 1)) == concat(parts.take(i)) + parts[i],
{
    assert(parts.take(i + 1).drop_last() =~= parts.take(i));
}

} // verus!
