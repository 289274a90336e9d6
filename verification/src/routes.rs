//! Route derivation: a content file's path, relative to the content root,
//! becomes a canonical URL path. `a/b.md` becomes `/a/b/`; an `index.*`
//! file collapses to its directory's route; the content root's own index
//! maps to `/`. A path outside the content root is a route error.

use vstd::prelude::*;
use vstd::string::StrSliceExecFns;
use vstd::string::StringExecFns;

use crate::textops::{
    build_route, components_of, route_body, split_components, str_starts_with, views_of,
};
use crate::BuildError;

verus! {

/// The index of the last `.` in `name`, if any.
pub open spec fn last_dot(name: Seq<char>) -> Option<int>
    decreases name.len(),
{
    if name.len() == 0 {
        None
    } else if name.last() == '.' {
        Some(name.len() - 1)
    } else {
        last_dot(name.drop_last())
    }
}

proof fn lemma_last_dot(name: Seq<char>)
    ensures
        match last_dot(name) {
            Some(i) => 0 <= i < name.len() && name[i] == '.' && (forall|k: int|
                i < k < name.len() ==> name[k] != '.'),
            None => forall|k: int| 0 <= k < name.len() ==> name[k] != '.',
        },
    decreases name.len(),
{
    if name.len() > 0 && name.last() != '.' {
        lemma_last_dot(name.drop_last());
        assert forall|k: int| 0 <= k < name.len() - 1 implies name.drop_last()[k] == name[k] by {}
    }
}

/// The file stem: what stands before the last dot, unless the dot leads.
pub open spec fn spec_stem(name: Seq<char>) -> Seq<char> {
    match last_dot(name) {
        Some(i) => if i > 0 {
            name.take(i)
        } else {
            name
        },
        None => name,
    }
}

/// The components that make up the route: an `index` stem drops its whole
/// component; any other final component is replaced by its stem.
pub open spec fn kept_parts(parts: Seq<Seq<char>>) -> Seq<Seq<char>> {
    if parts.len() == 0 {
        parts
    } else if spec_stem(parts.last()) == "index"@ {
        parts.drop_last()
    } else {
        parts.drop_last().push(spec_stem(parts.last()))
    }
}

/// The route derived from a component list: `/` then each kept part with a
/// trailing `/`.
pub open spec fn route_of_parts(parts: Seq<Seq<char>>) -> Seq<char> {
    seq!['/'] + route_body(kept_parts(parts))
}

/// The part of `path` below `root`, when `path` lies under `root` at a
/// component boundary.
pub open spec fn rel_path_of(root: Seq<char>, path: Seq<char>) -> Option<Seq<char>> {
    if path == root {
        Some(Seq::empty())
    } else if path.len() > root.len() && path.take(root.len() as int) == root {
        if path[root.len() as int] == '/' {
            Some(path.skip(root.len() as int + 1))
        } else if root.len() > 0 && root.last() == '/' {
            Some(path.skip(root.len() as int))
        } else {
            None
        }
    } else {
        None
    }
}

/// The route of `path` under `root`, when `path` lies under `root`.
pub open spec fn spec_route(root: Seq<char>, path: Seq<char>) -> Option<Seq<char>> {
    match rel_path_of(root, path) {
        Some(rel) => Some(route_of_parts(components_of(rel))),
        None => None,
    }
}

/// The stem of a file name: the text before its last dot, except that a
/// lone leading dot stays.
pub fn file_stem(name: &str) -> (r: String)
    ensures
        r@ == spec_stem(name@),
{
    let n = name.unicode_len();
    let mut j: usize = n;
    let mut found: Option<usize> = None;
    while j > 0
        invariant
            j <= n,
            n == name@.len(),
            match found {
                Some(i) => j <= i < n && name@[i as int] == '.' && (forall|k: int|
                    i < k < n ==> name@[k] != '.'),
                None => forall|k: int| j <= k < n ==> name@[k] != '.',
            },
        decreases j,
    {
        if found.is_none() {
            if name.get_char(j - 1) == '.' {
                found = Some(j - 1);
            }
        }
        j -= 1;
    }
    proof {
        lemma_last_dot(name@);
        match found {
            Some(i) => {
                assert(last_dot(name@) is Some);
                let s = last_dot(name@)->0;
                assert(name@[s] == '.');
                assert(s <= i);
                assert(i <= s);
            },
            None => {
                assert(last_dot(name@) is None);
            },
        }
    }
    match found {
        Some(i) => {
            if i > 0 {
                String::from_str(name.substring_char(0, i))
            } else {
                String::from_str(name)
            }
        },
        None => String::from_str(name),
    }
}

/// Derive the canonical route of `path` under the content root
/// `content_dir`. A path outside the content root is rejected with a
/// `RouteError` rather than aborting the build.
pub fn route_from_path(content_dir: &str, path: &str) -> (r: Result<String, BuildError>)
    ensures
        r is Ok <==> rel_path_of(content_dir@, path@) is Some,
        r matches Ok(s) ==> Some(s@) == spec_route(content_dir@, path@),
        r matches Err(e) ==> e is RouteError,
{
    let rl = content_dir.unicode_len();
    let n = path.unicode_len();
    if !str_starts_with(path, content_dir) {
        proof {
            if path@ == content_dir@ {
                assert(path@.take(rl as int) =~= content_dir@);
            }
        }
        return Err(BuildError::RouteError(String::from_str("path is not under the content root")));
    }
    proof {
        assert(path@.take(rl as int) == content_dir@);
        if n == rl {
            assert(path@ =~= content_dir@);
        }
    }
    let rel: &str = if n == rl {
        ""
    } else if path.get_char(rl) == '/' {
        path.substring_char(rl + 1, n)
    } else if rl > 0 && content_dir.get_char(rl - 1) == '/' {
        path.substring_char(rl, n)
    } else {
        return Err(BuildError::RouteError(String::from_str("path is not under the content root")));
    };
    proof {
        reveal_strlit("");
        if n == rl {
            assert(rel@ =~= rel_path_of(content_dir@, path@)->0);
        } else {
            assert(path@ != content_dir@);
            assert(rel@ =~= rel_path_of(content_dir@, path@)->0);
        }
    }
    let mut parts = split_components(rel);
    let ghost comps = components_of(rel@);
    if parts.len() > 0 {
        let last = parts.pop().unwrap();
        let stem = file_stem(last.as_str());
        proof {
            reveal_strlit("index");
        }
        let is_index = crate::textops::str_eq(stem.as_str(), "index");
        if !is_index {
            parts.push(stem);
        }
        proof {
            assert(views_of(parts@) =~= kept_parts(comps));
        }
    } else {
        proof {
            assert(views_of(parts@) =~= kept_parts(comps));
        }
    }
    Ok(build_route(&parts))
}

/// Every derived route begins with `/`, and ends with `/` (the bare root
/// route is `/` itself).
pub proof fn lemma_route_shape(parts: Seq<Seq<char>>)
    ensures
        route_of_parts(parts).len() >= 1,
        route_of_parts(parts)[0] == '/',
        route_of_parts(parts).last() == '/',
{
    lemma_route_body_last(kept_parts(parts));
}

/// For every path under the content root, the derived route begins with
/// `/` and ends with `/` (the root's own route being `/` itself).
pub proof fn lemma_spec_route_shape(root: Seq<char>, path: Seq<char>)
    requires
        spec_route(root, path) is Some,
    ensures
        spec_route(root, path)->0.len() >= 1,
        spec_route(root, path)->0[0] == '/',
        spec_route(root, path)->0.last() == '/',
{
    let rel = rel_path_of(root, path)->0;
    lemma_route_shape(components_of(rel));
}

proof fn lemma_route_body_last(parts: Seq<Seq<char>>)
    ensures
        parts.len() > 0 ==> route_body(parts).len() > 0 && route_body(parts).last() == '/',
    decreases parts.len(),
{
    if parts.len() > 0 {
        lemma_route_body_last(parts.drop_first());
        if parts.len() == 1 {
            assert(route_body(parts.drop_first()) == Seq::<char>::empty());
            assert(route_body(parts) =~= parts[0] + seq!['/']);
        }
    }
}

/// A directory and its `index.md` file share a route: appending an
/// `index.md` component leaves the derived route unchanged, provided the
/// path's own final component is extension-free and not itself `index`.
/// (For a path ending in `index` the two differ: the index file collapses
/// while the directory does not.)
pub proof fn lemma_index_file_route(parts: Seq<Seq<char>>)
    requires
        parts.len() == 0 || (spec_stem(parts.last()) == parts.last() && parts.last() != "index"@),
    ensures
        route_of_parts(parts.push("index.md"@)) == route_of_parts(parts),
{
    reveal_strlit("index.md");
    reveal_strlit("index");
    let im = "index.md"@;
    lemma_last_dot(im);
    assert(im[5] == '.');
    match last_dot(im) {
        Some(i) => {
            assert(i >= 5);
            assert(im[6] != '.' && im[7] != '.');
            assert(i == 5);
            assert(spec_stem(im) =~= "index"@);
        },
        None => {
            assert(false);
        },
    }
    let p1 = parts.push(im);
    assert(p1.last() == im);
    assert(kept_parts(p1) =~= parts);
    if parts.len() > 0 {
        assert(kept_parts(parts) =~= parts.drop_last().push(parts.last()));
        assert(parts.drop_last().push(parts.last()) =~= parts);
    }
}

} // verus!
