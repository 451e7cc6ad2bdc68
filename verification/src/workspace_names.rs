//! The names that workspaces get from the folders in them.

use vstd::prelude::*;
use crate::text::{join, joined, occurs, texts};

verus! {

/// Whether every system takes the path apart at its slashes alone: it holds no backslash
/// and no colon, and does not begin with two slashes.
pub open spec fn plain_path(path: Seq<char>) -> bool {
    &&& !path.contains('\\')
    &&& !path.contains(':')
    &&& !(path.len() >= 2 && path[0] == '/' && path[1] == '/')
}

/// Where the text after the last slash begins.
pub open spec fn after_last_slash(path: Seq<char>) -> nat
    decreases path.len(),
{
    if path.len() == 0 || path.last() == '/' {
        path.len()
    } else {
        after_last_slash(path.drop_last())
    }
}

/// The text after the last slash is a part of the path.
pub proof fn lemma_after_last_slash(path: Seq<char>)
    ensures
        after_last_slash(path) <= path.len(),
    decreases path.len(),
{
    if path.len() > 0 && path.last() != '/' {
        lemma_after_last_slash(path.drop_last());
    }
}

/// The last of the pieces between slashes that is neither empty nor a single dot; empty
/// where there is none.
pub open spec fn last_piece(path: Seq<char>) -> Seq<char>
    decreases path.len(),
{
    let at = after_last_slash(path) as int;
    let piece = path.skip(at);
    if piece.len() > 0 && piece != seq!['.'] {
        piece
    } else if at == 0 {
        Seq::empty()
    } else {
        proof {
            lemma_after_last_slash(path);
        }
        last_piece(path.take(at - 1))
    }
}

/// The name at the end of a plain path; none where there is no piece, or where the last
/// one is two dots.
pub open spec fn last_name(path: Seq<char>) -> Option<Seq<char>> {
    let piece = last_piece(path);
    if piece.len() == 0 || piece == seq!['.', '.'] {
        None
    } else {
        Some(piece)
    }
}

/// `std::path::Path::file_name`: the last component of a path, none where the path ends
/// in two dots or has no name at all. Components stand between slashes; empty ones and
/// single dots do not count. Of a path in which a system may see other separators or a
/// prefix it is said only that the name is a part of the path's text and not empty.
#[verifier::external_body]
fn file_name(path: &str) -> (r: Option<String>)
    ensures
        plain_path(path@) ==> r.deep_view() == last_name(path@),
        r is Some ==> occurs(path@, r->0@) && r->0@.len() > 0,
{
    std::path::Path::new(path).file_name().map(|name| name.to_string_lossy().into_owned())
}

/// Whether this is the last component of the path.
pub open spec fn is_name(name: Option<Seq<char>>, path: Seq<char>) -> bool {
    &&& plain_path(path) ==> name == last_name(path)
    &&& name is Some ==> occurs(path, name->0) && name->0.len() > 0
}

/// Whether these are the last components of the paths.
pub open spec fn are_names(names: Seq<Option<Seq<char>>>, paths: Seq<Seq<char>>) -> bool {
    &&& names.len() == paths.len()
    &&& forall|i: int| 0 <= i < names.len() ==> is_name(#[trigger] names[i], paths[i])
}

/// Plain paths have one list of last components.
pub proof fn law_plain_paths_have_one_list_of_names(
    a: Seq<Option<Seq<char>>>,
    b: Seq<Option<Seq<char>>>,
    paths: Seq<Seq<char>>,
)
    requires
        forall|i: int| 0 <= i < paths.len() ==> plain_path(#[trigger] paths[i]),
        are_names(a, paths),
        are_names(b, paths),
    ensures
        a == b,
{
    assert forall|i: int| 0 <= i < a.len() implies a[i] == b[i] by {
        assert(plain_path(paths[i]));
        assert(is_name(a[i], paths[i]));
        assert(is_name(b[i], paths[i]));
    }
    assert(a =~= b);
}

/// The names, with the path itself where there is no name.
pub open spec fn names_or_paths(
    names: Seq<Option<Seq<char>>>,
    paths: Seq<Seq<char>>,
) -> Seq<Seq<char>> {
    Seq::new(
        paths.len(),
        |i: int|
            match names[i] {
                Some(name) => name,
                None => paths[i],
            },
    )
}

/// The names that there are.
pub open spec fn present(names: Seq<Option<Seq<char>>>) -> Seq<Seq<char>>
    decreases names.len(),
{
    if names.len() == 0 {
        Seq::empty()
    } else {
        match names.last() {
            Some(name) => present(names.drop_last()).push(name),
            None => present(names.drop_last()),
        }
    }
}

/// The last components of paths.
fn file_names(paths: &Vec<String>) -> (r: Vec<Option<String>>)
    ensures
        are_names(r.deep_view(), paths.deep_view()),
{
    let mut names: Vec<Option<String>> = Vec::new();
    let mut i: usize = 0;
    while i < paths.len()
        invariant
            i <= paths@.len(),
            names@.len() == i,
            forall|j: int|
                0 <= j < i ==> is_name(#[trigger] names.deep_view()[j], paths.deep_view()[j]),
        decreases paths@.len() - i,
    {
        let ghost before = names.deep_view();
        assert(paths.deep_view()[i as int] == paths@[i as int]@);
        let name = file_name(paths[i].as_str());
        names.push(name);
        assert(names.deep_view() =~= before.push(name.deep_view()));
        i = i + 1;
    }
    names
}

/// The name of a workspace of these paths, given their last components: those, or the
/// paths where there is none, with commas between.
pub fn name_from(names: &Vec<Option<String>>, paths: &Vec<String>) -> (r: String)
    requires
        names@.len() == paths@.len(),
    ensures
        r@ == joined(names_or_paths(names.deep_view(), paths.deep_view()), ", "@),
{
    let ghost wanted = names_or_paths(names.deep_view(), paths.deep_view());
    let mut parts: Vec<String> = Vec::new();
    let mut i: usize = 0;
    assert(parts.deep_view() =~= wanted.take(0));
    while i < paths.len()
        invariant
            i <= paths@.len(),
            names@.len() == paths@.len(),
            wanted == names_or_paths(names.deep_view(), paths.deep_view()),
            parts.deep_view() == wanted.take(i as int),
        decreases paths@.len() - i,
    {
        let ghost done = parts.deep_view();
        proof {
            assert(names.deep_view()[i as int] == names@[i as int].deep_view());
            assert(paths.deep_view()[i as int] == paths@[i as int]@);
        }
        let part = match &names[i] {
            Some(name) => name.clone(),
            None => paths[i].clone(),
        };
        parts.push(part);
        assert(parts.deep_view() =~= done.push(part@));
        i = i + 1;
        assert(parts.deep_view() =~= wanted.take(i as int));
    }
    proof {
        assert(wanted.take(wanted.len() as int) =~= wanted);
    }
    assert(texts(parts@) =~= parts.deep_view());
    join(&parts, ", ")
}

/// A name of the last components that there are, with commas between.
pub fn name_from_present(names: &Vec<Option<String>>) -> (r: String)
    ensures
        r@ == joined(present(names.deep_view()), ", "@),
{
    let ghost models = names.deep_view();
    let mut parts: Vec<String> = Vec::new();
    let mut i: usize = 0;
    proof {
        assert(models.take(0) =~= Seq::empty());
        assert(parts.deep_view() =~= Seq::empty());
    }
    while i < names.len()
        invariant
            i <= names@.len(),
            models == names.deep_view(),
            parts.deep_view() == present(models.take(i as int)),
        decreases names@.len() - i,
    {
        let ghost done = parts.deep_view();
        proof {
            let next = models.take(i + 1);
            assert(next.drop_last() =~= models.take(i as int));
            assert(next.last() == names@[i as int].deep_view());
        }
        if let Some(name) = &names[i] {
            parts.push(name.clone());
            assert(parts.deep_view() =~= done.push(name@));
        }
        i = i + 1;
    }
    assert(models.take(models.len() as int) =~= models);
    assert(texts(parts@) =~= parts.deep_view());
    join(&parts, ", ")
}

/// A first name for a workspace of these paths: their last components, or the paths
/// themselves where there is none, with commas between.
pub fn derive_workspace_name(paths: &Vec<String>) -> (r: String)
    ensures
        exists|names: Seq<Option<Seq<char>>>| #[trigger]
            are_names(names, paths.deep_view()) && r@ == joined(
                names_or_paths(names, paths.deep_view()),
                ", "@,
            ),
{
    let names = file_names(paths);
    assert(names.deep_view().len() == names@.len());
    assert(paths.deep_view().len() == paths@.len());
    name_from(&names, paths)
}

/// The default name of a workspace of these paths: the last components that there are,
/// with commas between.
pub fn default_name(project_paths: &Vec<String>) -> (r: String)
    ensures
        exists|names: Seq<Option<Seq<char>>>| #[trigger]
            are_names(names, project_paths.deep_view()) && r@ == joined(present(names), ", "@),
{
    let names = file_names(project_paths);
    name_from_present(&names)
}

/// A path goes by its name where it has one, and else by itself, one after the other; and where
/// only names count, those without one are left out.
pub proof fn law_paths_go_by_their_names(
    names: Seq<Option<Seq<char>>>,
    paths: Seq<Seq<char>>,
    name: Option<Seq<char>>,
    i: int,
)
    requires
        names.len() == paths.len(),
    ensures
        names_or_paths(names, paths).len() == paths.len(),
        0 <= i < paths.len() ==> (names[i] matches Some(name) ==> names_or_paths(names, paths)[i]
            == name),
        0 <= i < paths.len() && names[i] is None ==> names_or_paths(names, paths)[i] == paths[i],
        present(Seq::empty()).len() == 0,
        name matches Some(text) ==> present(names.push(name)) == present(names).push(text),
        name is None ==> present(names.push(name)) == present(names),
{
    assert(names.push(name).drop_last() =~= names);
}

} // verus!
