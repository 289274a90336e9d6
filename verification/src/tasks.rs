//! The whole-site side-effect tasks: sitemap and feed targets, the
//! public and well-known directory copies, and the sweep that clears
//! stale files out of the build directory. Each task's decisions are
//! here; the copying and deleting themselves are outside work.

use vstd::prelude::*;
use vstd::string::StrSliceExecFns;
use vstd::string::StringExecFns;

use crate::textops::{
    concat2, concat3, has_suffix, is_under_dir, str_ends_with, str_eq, under_dir,
};

verus! {

/// The index of the last `/` in `s`, if any.
pub open spec fn last_slash(s: Seq<char>) -> Option<int>
    decreases s.len(),
{
    if s.len() == 0 {
        None
    } else if s.last() == '/' {
        Some(s.len() - 1)
    } else {
        last_slash(s.drop_last())
    }
}

proof fn lemma_last_slash(s: Seq<char>)
    ensures
        match last_slash(s) {
            Some(i) => 0 <= i < s.len() && s[i] == '/' && (forall|k: int|
                i < k < s.len() ==> s[k] != '/'),
            None => forall|k: int| 0 <= k < s.len() ==> s[k] != '/',
        },
    decreases s.len(),
{
    if s.len() > 0 && s.last() != '/' {
        lemma_last_slash(s.drop_last());
        assert forall|k: int| 0 <= k < s.len() - 1 implies s.drop_last()[k] == s[k] by {}
    }
}

/// What stands after the last `/`: the final path segment, or the whole
/// text when it has no slash.
pub open spec fn after_last_slash(s: Seq<char>) -> Seq<char> {
    match last_slash(s) {
        Some(i) => s.skip(i + 1),
        None => s,
    }
}

/// The final path segment of `s`.
fn final_segment(s: &str) -> (r: String)
    ensures
        r@ == after_last_slash(s@),
{
    let n = s.unicode_len();
    let mut j: usize = n;
    let mut found: Option<usize> = None;
    while j > 0
        invariant
            j <= n,
            n == s@.len(),
            match found {
                Some(i) => j <= i < n && s@[i as int] == '/' && (forall|k: int|
                    i < k < n ==> s@[k] != '/'),
                None => forall|k: int| j <= k < n ==> s@[k] != '/',
            },
        decreases j,
    {
        if found.is_none() {
            if s.get_char(j - 1) == '/' {
                found = Some(j - 1);
            }
        }
        j -= 1;
    }
    proof {
        lemma_last_slash(s@);
        match found {
            Some(i) => {
                assert(last_slash(s@) is Some);
                let x = last_slash(s@)->0;
                assert(s@[x] == '/');
                assert(x <= i);
                assert(i <= x);
            },
            None => {
                assert(last_slash(s@) is None);
            },
        }
    }
    match found {
        Some(i) => String::from_str(s.substring_char(i + 1, n)),
        None => String::from_str(s),
    }
}

/// Copies the public asset directory into the build output, under the
/// directory's own name. A missing source directory is a no-op, not an
/// error.
pub struct PublicCopyTask;

impl PublicCopyTask {
    /// The copy to perform: from the public directory to
    /// `{build_dir}/{its final segment}`, or nothing when the source
    /// directory does not exist.
    pub fn plan(public_dir: &str, build_dir: &str, source_exists: bool) -> (r: Option<
        (String, String),
    >)
        ensures
            r is Some <==> source_exists,
            r matches Some(p) ==> p.0@ == public_dir@ && p.1@ == build_dir@ + "/"@
                + after_last_slash(public_dir@),
    {
        if !source_exists {
            return None;
        }
        let folder = final_segment(public_dir);
        let target = concat3(build_dir, "/", folder.as_str());
        Some((String::from_str(public_dir), target))
    }
}

/// Copies the site's `.well-known` directory into the build output. A
/// missing source directory is a no-op, not an error.
pub struct WellKnownCopyTask;

impl WellKnownCopyTask {
    /// The copy to perform: from `{base_dir}/.well-known` to
    /// `{build_dir}/.well-known`, or nothing when the source directory
    /// does not exist.
    pub fn plan(base_dir: &str, build_dir: &str, source_exists: bool) -> (r: Option<
        (String, String),
    >)
        ensures
            r is Some <==> source_exists,
            r matches Some(p) ==> p.0@ == base_dir@ + "/.well-known"@ && p.1@ == build_dir@
                + "/.well-known"@,
    {
        if !source_exists {
            return None;
        }
        Some((concat2(base_dir, "/.well-known"), concat2(build_dir, "/.well-known")))
    }
}

/// Emits the sitemap of every route, rendered outside from the content
/// snapshot.
pub struct SiteMapTask;

impl SiteMapTask {
    /// Where the sitemap is written.
    pub fn output_path(build_dir: &str) -> (r: String)
        ensures
            r@ == build_dir@ + "/sitemap.xml"@,
    {
        concat2(build_dir, "/sitemap.xml")
    }
}

/// Emits the feed of recent content, rendered outside from the content
/// snapshot.
pub struct AtomFeedTask;

impl AtomFeedTask {
    /// Where the feed is written.
    pub fn output_path(build_dir: &str) -> (r: String)
        ensures
            r@ == build_dir@ + "/atom.xml"@,
    {
        concat2(build_dir, "/atom.xml")
    }
}

/// The comparison key a build-directory entry is looked up under among
/// the current routes: `/{path}/` for a directory, `/{path}` for a file.
pub open spec fn comparitor_of(path: Seq<char>, is_dir: bool) -> Seq<char> {
    if is_dir {
        seq!['/'] + path + seq!['/']
    } else {
        seq!['/'] + path
    }
}

/// Whether some current route equals the comparison key.
pub open spec fn route_listed(routes: Seq<String>, c: Seq<char>) -> bool {
    exists|j: int| 0 <= j < routes.len() && (#[trigger] routes[j])@ == c
}

/// Entries the sweep leaves alone: anything under the public directory's
/// name, and the sitemap and feed outputs of the build's own tasks.
pub open spec fn sweep_protected(path: Seq<char>, public_name: Seq<char>) -> bool {
    under_dir(path, public_name) || path == "sitemap.xml"@ || has_suffix(path, "/sitemap.xml"@)
        || path == "atom.xml"@ || has_suffix(path, "/atom.xml"@)
}

/// Whether a build-directory entry is stale: unprotected, and no current
/// route claims it.
pub open spec fn sweep_deletable(
    path: Seq<char>,
    is_dir: bool,
    routes: Seq<String>,
    public_name: Seq<char>,
) -> bool {
    !sweep_protected(path, public_name) && !route_listed(routes, comparitor_of(path, is_dir))
}

/// The stale entries among the first `n`, in scan order.
pub open spec fn deletions_upto(
    entries: Seq<(String, bool)>,
    routes: Seq<String>,
    public_name: Seq<char>,
    n: int,
) -> Seq<(String, bool)>
    decreases n,
{
    if n <= 0 {
        Seq::empty()
    } else {
        deletions_upto(entries, routes, public_name, n - 1) + (if sweep_deletable(
            entries[n - 1].0@,
            entries[n - 1].1,
            routes,
            public_name,
        ) {
            seq![entries[n - 1]]
        } else {
            Seq::empty()
        })
    }
}

/// Clears stale files out of the build directory: whatever no current
/// route accounts for, except protected entries.
pub struct CleanBuildDirTask;

impl CleanBuildDirTask {
    /// The entries to delete, among the build directory's contents.
    /// `entries` hold paths relative to the build directory with a
    /// directory flag; `routes` are the current build's routes;
    /// `public_dir_name` is the public directory's final segment.
    #[verifier::loop_isolation(false)]
    pub fn plan(
        entries: Vec<(String, bool)>,
        routes: &Vec<String>,
        public_dir_name: &str,
    ) -> (r: Vec<(String, bool)>)
        ensures
            r@ == deletions_upto(entries@, routes@, public_dir_name@, entries@.len() as int),
    {
        let ghost orig = entries@;
        let mut rest = entries;
        let mut out: Vec<(String, bool)> = Vec::new();
        let ghost done: int = 0;
        while rest.len() > 0
            invariant
                0 <= done <= orig.len(),
                rest@ =~= orig.skip(done),
                out@ == deletions_upto(orig, routes@, public_dir_name@, done),
            decreases rest@.len(),
        {
            let entry = rest.remove(0);
            proof {
                assert(entry == orig[done]);
                assert(rest@ =~= orig.skip(done + 1));
            }
            let path = entry.0.as_str();
            let is_dir = entry.1;
            let mut protected = is_under_dir(path, public_dir_name);
            if str_eq(path, "sitemap.xml") || str_ends_with(path, "/sitemap.xml") {
                protected = true;
            }
            if str_eq(path, "atom.xml") || str_ends_with(path, "/atom.xml") {
                protected = true;
            }
            proof {
                assert(protected == sweep_protected(orig[done].0@, public_dir_name@));
            }
            if !protected {
                let comparitor = if is_dir {
                    concat3("/", path, "/")
                } else {
                    concat2("/", path)
                };
                proof {
                    reveal_strlit("/");
                    assert("/"@ =~= seq!['/']);
                    assert(comparitor@ == comparitor_of(orig[done].0@, orig[done].1));
                }
                let mut listed = false;
                let mut j: usize = 0;
                while j < routes.len()
                    invariant
                        0 <= j <= routes@.len(),
                        listed ==> route_listed(routes@, comparitor@),
                        !listed ==> forall|k: int| 0 <= k < j ==> (#[trigger] routes@[k])@
                            != comparitor@,
                    decreases routes@.len() - j,
                {
                    if str_eq(routes[j].as_str(), comparitor.as_str()) {
                        listed = true;
                    }
                    j += 1;
                }
                if !listed {
                    out.push(entry);
                }
            }
            proof {
                done = done + 1;
            }
        }
        proof {
            assert(done == orig.len());
        }
        out
    }
}

} // verus!
