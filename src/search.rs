use vstd::prelude::*;

verus! {

/// A directory as the names of its components below the filesystem root.
pub open spec fn path_view(p: Seq<String>) -> Seq<Seq<char>> {
    p.map_values(|s: String| s@)
}

/// The repository root found from `dir`: the deepest of `dir` and its
/// ancestors that holds a `.git` entry, where `marked` tells which do.
pub open spec fn repo_root(
    dir: Seq<Seq<char>>,
    marked: spec_fn(Seq<Seq<char>>) -> bool,
) -> Option<Seq<Seq<char>>>
    decreases dir.len(),
{
    if marked(dir) {
        Some(dir)
    } else if dir.len() == 0 {
        None
    } else {
        repo_root(dir.drop_last(), marked)
    }
}

/// One move of the upward search.
pub enum SearchStep {
    /// The candidate holds `.git`: it is the repository root.
    Found(Vec<String>),
    /// Look next in this directory, the candidate's parent.
    Probe(Vec<String>),
    /// The candidate is the filesystem root: there is no repository.
    NotFound,
}

/// Decides the next move of the search from a candidate directory and whether
/// a `.git` entry exists directly inside it.
pub fn search_step(candidate: Vec<String>, has_git: bool) -> (r: SearchStep)
    ensures
        has_git ==> (r matches SearchStep::Found(d) && d@ == candidate@),
        !has_git && candidate@.len() == 0 ==> r matches SearchStep::NotFound,
        !has_git && candidate@.len() > 0 ==> (r matches SearchStep::Probe(d) && d@
            == candidate@.drop_last()),
{
    if has_git {
        SearchStep::Found(candidate)
    } else if candidate.len() == 0 {
        SearchStep::NotFound
    } else {
        let mut parent = candidate;
        parent.pop();
        SearchStep::Probe(parent)
    }
}

/// Each move of the search keeps the root that will be found: a candidate that
/// holds `.git` is the root, the filesystem root without one means none, and
/// otherwise the parent leads to the same root by a shorter path.
pub proof fn lemma_step_keeps_root(c: Seq<String>, marked: spec_fn(Seq<Seq<char>>) -> bool)
    ensures
        marked(path_view(c)) ==> repo_root(path_view(c), marked) == Some(path_view(c)),
        !marked(path_view(c)) && c.len() == 0 ==> repo_root(path_view(c), marked) is None,
        !marked(path_view(c)) && c.len() > 0 ==> repo_root(path_view(c), marked) == repo_root(
            path_view(c.drop_last()),
            marked,
        ),
{
    if c.len() > 0 {
        assert(path_view(c).drop_last() =~= path_view(c.drop_last()));
    }
}

/// In a tree where exactly one of the working directory's ancestors (itself
/// included), the one `d` levels below the filesystem root, holds `.git`,
/// the search finds that directory.
pub proof fn lemma_unique_repo_found(
    cwd: Seq<Seq<char>>,
    marked: spec_fn(Seq<Seq<char>>) -> bool,
    d: nat,
)
    requires
        d <= cwd.len(),
        marked(cwd.take(d as int)),
        forall|k: nat| k <= cwd.len() && k != d ==> !marked(#[trigger] cwd.take(k as int)),
    ensures
        repo_root(cwd, marked) == Some(cwd.take(d as int)),
    decreases cwd.len(),
{
    assert(cwd.take(cwd.len() as int) =~= cwd);
    if cwd.len() != d {
        let up = cwd.drop_last();
        assert forall|k: nat| k <= up.len() && k != d implies !marked(#[trigger] up.take(k as int)) by {
            assert(up.take(k as int) =~= cwd.take(k as int));
        }
        assert(up.take(d as int) =~= cwd.take(d as int));
        lemma_unique_repo_found(up, marked, d);
    }
}

/// Where none of the working directory's ancestors holds `.git`, the search
/// ends with no repository, however deep the working directory lies.
pub proof fn lemma_no_repo_found(cwd: Seq<Seq<char>>, marked: spec_fn(Seq<Seq<char>>) -> bool)
    requires
        forall|k: nat| k <= cwd.len() ==> !marked(#[trigger] cwd.take(k as int)),
    ensures
        repo_root(cwd, marked) is None,
    decreases cwd.len(),
{
    assert(cwd.take(cwd.len() as int) =~= cwd);
    if cwd.len() > 0 {
        let up = cwd.drop_last();
        assert forall|k: nat| k <= up.len() implies !marked(#[trigger] up.take(k as int)) by {
            assert(up.take(k as int) =~= cwd.take(k as int));
        }
        lemma_no_repo_found(up, marked);
    }
}

} // verus!
