//! The preview server's routing decisions: traversal-safe path
//! sanitizing, the pretty-URL fallback onto `index.html`, and the
//! injection point of the live-reload client script. The server itself
//! (sockets, files) lives outside; it hands in what it observed.

use vstd::prelude::*;
use vstd::string::StrSliceExecFns;
use vstd::string::StringExecFns;

use crate::textops::{
    build_joined, components_of, concat2, joined, replaced, replace_all, split_components,
    str_starts_with, views_of,
};

verus! {

/// Drop every traversal and root marker from a request path, keeping only
/// its normal components, joined with `/` (and a leading `/` on demand).
pub fn sanitize_path(req_path: &str, with_root: bool) -> (r: String)
    ensures
        with_root ==> r@ == seq!['/'] + joined(components_of(req_path@)),
        !with_root ==> r@ == joined(components_of(req_path@)),
{
    let parts = split_components(req_path);
    let j = build_joined(&parts);
    if with_root {
        let r = concat2("/", j.as_str());
        proof {
            reveal_strlit("/");
            assert("/"@ =~= seq!['/']);
        }
        r
    } else {
        j
    }
}

/// The file the preview server serves for a request: the request path
/// sanitized under the build directory; a path that ends in `/`, or whose
/// file is missing or a directory, falls back to `index.html` below it —
/// unless the path addresses the public passthrough root, which is served
/// as named.
pub open spec fn resolved_request_path(
    build_dir: Seq<char>,
    public_root: Seq<char>,
    req: Seq<char>,
    file_exists: bool,
    is_dir: bool,
) -> Seq<char> {
    let fp = seq!['/'] + joined(components_of(build_dir) + components_of(req));
    if req.len() > 0 && req.last() == '/' {
        fp + "/index.html"@
    } else if req.len() >= public_root.len() && req.take(public_root.len() as int) == public_root {
        fp
    } else if !file_exists || is_dir {
        fp + "/index.html"@
    } else {
        fp
    }
}

/// Map a request path onto the build directory, with the pretty-URL
/// fallback. `file_exists` and `is_dir` report what the filesystem says
/// of the mapped path.
pub fn resolve_request_path(
    build_dir: &str,
    public_root: &str,
    req_path: &str,
    file_exists: bool,
    is_dir: bool,
) -> (r: String)
    ensures
        r@ == resolved_request_path(build_dir@, public_root@, req_path@, file_exists, is_dir),
{
    let mut parts = split_components(build_dir);
    let mut rparts = split_components(req_path);
    proof {
        assert(views_of(parts@ + rparts@) =~= views_of(parts@) + views_of(rparts@));
    }
    parts.append(&mut rparts);
    let joined_str = build_joined(&parts);
    let fp = concat2("/", joined_str.as_str());
    proof {
        reveal_strlit("/");
        assert("/"@ =~= seq!['/']);
    }
    let n = req_path.unicode_len();
    if n > 0 && req_path.get_char(n - 1) == '/' {
        return concat2(fp.as_str(), "/index.html");
    }
    if str_starts_with(req_path, public_root) {
        return fp;
    }
    if !file_exists || is_dir {
        return concat2(fp.as_str(), "/index.html");
    }
    fp
}

/// Inject the live-reload client script immediately before each closing
/// body tag.
pub fn inject_reload_script(content: &str, script_tag: &str) -> (r: String)
    ensures
        r@ == replaced(content@, "</body>"@, script_tag@ + "</body>"@),
{
    let replacement = concat2(script_tag, "</body>");
    replace_all(content, "</body>", replacement.as_str())
}

} // verus!
