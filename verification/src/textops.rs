//! String primitives shared across the crate: path-component splitting,
//! joining, prefix/suffix tests, and substring replacement, each proved
//! against a direct mathematical definition.

use vstd::prelude::*;
use vstd::string::StrSliceExecFns;
use vstd::string::StringExecFns;

verus! {

/// The views of a vector of strings.
pub open spec fn views_of(parts: Seq<String>) -> Seq<Seq<char>> {
    parts.map_values(|p: String| p@)
}

/// A path component worth keeping: non-empty and not a relative marker.
pub open spec fn keep_component(p: Seq<char>) -> bool {
    p.len() > 0 && p != seq!['.'] && p != seq!['.', '.']
}

/// Scan-style definition of splitting on `/` and dropping empty and
/// relative components: `cur` is the piece read so far.
pub open spec fn components_acc(s: Seq<char>, cur: Seq<char>) -> Seq<Seq<char>>
    decreases s.len(),
{
    if s.len() == 0 {
        if keep_component(cur) {
            seq![cur]
        } else {
            Seq::empty()
        }
    } else if s[0] == '/' {
        (if keep_component(cur) {
            seq![cur]
        } else {
            Seq::empty()
        }) + components_acc(s.drop_first(), Seq::empty())
    } else {
        components_acc(s.drop_first(), cur.push(s[0]))
    }
}

/// The normal components of a `/`-separated path.
pub open spec fn components_of(s: Seq<char>) -> Seq<Seq<char>> {
    components_acc(s, Seq::empty())
}

/// Append one component of `s` (the range `start..end`) to `parts` when it
/// is worth keeping.
fn maybe_push_component(parts: &mut Vec<String>, s: &str, start: usize, end: usize)
    requires
        start <= end <= s@.len(),
    ensures
        views_of(final(parts)@) == views_of(old(parts)@) + (if keep_component(
            s@.subrange(start as int, end as int),
        ) {
            seq![s@.subrange(start as int, end as int)]
        } else {
            Seq::<Seq<char>>::empty()
        }),
{
    let ghost piece = s@.subrange(start as int, end as int);
    let mut kept = end > start;
    if end - start == 1 && s.get_char(start) == '.' {
        kept = false;
        proof {
            assert(piece =~= seq!['.']);
        }
    }
    if end - start == 2 && s.get_char(start) == '.' && s.get_char(start + 1) == '.' {
        kept = false;
        proof {
            assert(piece =~= seq!['.', '.']);
        }
    }
    proof {
        if end > start {
            if piece.len() == 1 {
                assert(piece =~= seq![piece[0]]);
                assert(piece[0] == s@[start as int]);
            }
            if piece.len() == 2 {
                assert(piece =~= seq![piece[0], piece[1]]);
                assert(piece[0] == s@[start as int]);
                assert(piece[1] == s@[start as int + 1]);
            }
        }
        assert(kept == keep_component(piece));
    }
    if kept {
        let piece_str = s.substring_char(start, end);
        parts.push(String::from_str(piece_str));
        proof {
            assert(views_of(parts@) =~= views_of(old(parts)@) + seq![piece]);
        }
    } else {
        proof {
            assert(views_of(parts@) =~= views_of(old(parts)@) + Seq::<Seq<char>>::empty());
        }
    }
}

/// Split `s` on `/`, dropping empty, `.` and `..` components.
pub fn split_components(s: &str) -> (parts: Vec<String>)
    ensures
        views_of(parts@) == components_of(s@),
{
    let n = s.unicode_len();
    let mut parts: Vec<String> = Vec::new();
    let mut start: usize = 0;
    let mut i: usize = 0;
    proof {
        assert(s@.skip(0) =~= s@);
        assert(s@.subrange(0, 0) =~= Seq::<char>::empty());
    }
    while i < n
        invariant
            start <= i <= n,
            n == s@.len(),
            views_of(parts@) + components_acc(s@.skip(i as int), s@.subrange(start as int, i as int))
                =~= components_of(s@),
        decreases n - i,
    {
        let ghost cur = s@.subrange(start as int, i as int);
        let ghost rest = s@.skip(i as int);
        proof {
            assert(rest.len() == n - i);
            assert(rest[0] == s@[i as int]);
            assert(rest.drop_first() =~= s@.skip(i as int + 1));
        }
        let c = s.get_char(i);
        if c == '/' {
            maybe_push_component(&mut parts, s, start, i);
            start = i + 1;
            proof {
                assert(s@.subrange(start as int, start as int) =~= Seq::<char>::empty());
            }
        } else {
            proof {
                assert(cur.push(s@[i as int]) =~= s@.subrange(start as int, i as int + 1));
            }
        }
        i += 1;
    }
    proof {
        assert(s@.skip(n as int) =~= Seq::<char>::empty());
    }
    maybe_push_component(&mut parts, s, start, n);
    parts
}

/// Each part followed by `/`: the body of a route after its leading slash.
pub open spec fn route_body(parts: Seq<Seq<char>>) -> Seq<char>
    decreases parts.len(),
{
    if parts.len() == 0 {
        Seq::empty()
    } else {
        parts[0] + seq!['/'] + route_body(parts.drop_first())
    }
}

proof fn lemma_route_body_push(parts: Seq<Seq<char>>, x: Seq<char>)
    ensures
        route_body(parts.push(x)) == route_body(parts) + x + seq!['/'],
    decreases parts.len(),
{
    let p1 = parts.push(x);
    if parts.len() == 0 {
        assert(p1.drop_first() =~= Seq::<Seq<char>>::empty());
        assert(route_body(p1.drop_first()) == Seq::<char>::empty());
        assert(p1[0] == x);
        assert(route_body(p1) == x + seq!['/'] + route_body(p1.drop_first()));
        assert(route_body(p1) =~= route_body(parts) + x + seq!['/']);
    } else {
        assert(p1.drop_first() =~= parts.drop_first().push(x));
        lemma_route_body_push(parts.drop_first(), x);
        assert(route_body(p1) == p1[0] + seq!['/'] + route_body(p1.drop_first()));
        assert(p1[0] == parts[0]);
        assert(route_body(p1.drop_first()) == route_body(parts.drop_first()) + x + seq!['/']);
        assert(route_body(parts) == parts[0] + seq!['/'] + route_body(parts.drop_first()));
        assert(route_body(p1) =~= route_body(parts) + x + seq!['/']);
    }
}

/// Parts joined with `/`, no leading or trailing separator.
pub open spec fn joined(parts: Seq<Seq<char>>) -> Seq<char>
    decreases parts.len(),
{
    if parts.len() == 0 {
        Seq::empty()
    } else if parts.len() == 1 {
        parts[0]
    } else {
        parts[0] + seq!['/'] + joined(parts.drop_first())
    }
}

proof fn lemma_joined_push(parts: Seq<Seq<char>>, x: Seq<char>)
    requires
        parts.len() > 0,
    ensures
        joined(parts.push(x)) == joined(parts) + seq!['/'] + x,
    decreases parts.len(),
{
    let p1 = parts.push(x);
    if parts.len() == 1 {
        assert(p1.drop_first() =~= seq![x]);
        assert(joined(p1.drop_first()) == x);
        assert(p1[0] == parts[0]);
        assert(joined(p1) == p1[0] + seq!['/'] + joined(p1.drop_first()));
        assert(joined(p1) =~= joined(parts) + seq!['/'] + x);
    } else {
        assert(p1.drop_first() =~= parts.drop_first().push(x));
        lemma_joined_push(parts.drop_first(), x);
        assert(joined(p1) == p1[0] + seq!['/'] + joined(p1.drop_first()));
        assert(p1[0] == parts[0]);
        assert(joined(p1.drop_first()) == joined(parts.drop_first()) + seq!['/'] + x);
        assert(joined(parts) == parts[0] + seq!['/'] + joined(parts.drop_first()));
        assert(joined(p1) =~= joined(parts) + seq!['/'] + x);
    }
}

/// `"/"` followed by each part with a trailing `/`.
pub fn build_route(parts: &Vec<String>) -> (r: String)
    ensures
        r@ == seq!['/'] + route_body(views_of(parts@)),
{
    let mut r = String::from_str("/");
    proof {
        reveal_strlit("/");
        assert(r@ =~= seq!['/']);
        assert(views_of(parts@).take(0) =~= Seq::<Seq<char>>::empty());
    }
    let mut i: usize = 0;
    while i < parts.len()
        invariant
            i <= parts@.len(),
            r@ == seq!['/'] + route_body(views_of(parts@).take(i as int)),
        decreases parts@.len() - i,
    {
        r.append(parts[i].as_str());
        r.append("/");
        proof {
            reveal_strlit("/");
            assert("/"@ =~= seq!['/']);
            lemma_route_body_push(views_of(parts@).take(i as int), parts@[i as int]@);
            assert(views_of(parts@).take(i as int).push(parts@[i as int]@) =~= views_of(
                parts@,
            ).take(i as int + 1));
        }
        i += 1;
    }
    proof {
        assert(views_of(parts@).take(parts@.len() as int) =~= views_of(parts@));
    }
    r
}

/// Parts joined with `/`, no leading or trailing separator.
pub fn build_joined(parts: &Vec<String>) -> (r: String)
    ensures
        r@ == joined(views_of(parts@)),
{
    let mut r = String::new();
    let mut i: usize = 0;
    proof {
        assert(views_of(parts@).take(0) =~= Seq::<Seq<char>>::empty());
    }
    while i < parts.len()
        invariant
            i <= parts@.len(),
            r@ == joined(views_of(parts@).take(i as int)),
        decreases parts@.len() - i,
    {
        if i > 0 {
            r.append("/");
        }
        r.append(parts[i].as_str());
        proof {
            reveal_strlit("/");
            assert("/"@ =~= seq!['/']);
            let prefix = views_of(parts@).take(i as int);
            if i > 0 {
                lemma_joined_push(prefix, parts@[i as int]@);
            } else {
                assert(prefix.push(parts@[i as int]@) =~= seq![parts@[i as int]@]);
            }
            assert(prefix.push(parts@[i as int]@) =~= views_of(parts@).take(i as int + 1));
        }
        i += 1;
    }
    proof {
        assert(views_of(parts@).take(parts@.len() as int) =~= views_of(parts@));
    }
    r
}

/// Whether `s` starts with `prefix`, by character comparison.
pub fn str_starts_with(s: &str, prefix: &str) -> (r: bool)
    ensures
        r == (s@.len() >= prefix@.len() && s@.take(prefix@.len() as int) == prefix@),
{
    let n = s.unicode_len();
    let m = prefix.unicode_len();
    if m > n {
        return false;
    }
    let mut i: usize = 0;
    while i < m
        invariant
            i <= m,
            m == prefix@.len(),
            n == s@.len(),
            m <= n,
            forall|k: int| 0 <= k < i ==> s@[k] == prefix@[k],
        decreases m - i,
    {
        if s.get_char(i) != prefix.get_char(i) {
            proof {
                assert(s@.take(m as int)[i as int] != prefix@[i as int]);
            }
            return false;
        }
        i += 1;
    }
    proof {
        assert(s@.take(m as int) =~= prefix@);
    }
    true
}

/// Whether `s` ends with `suffix`.
pub open spec fn has_suffix(s: Seq<char>, suffix: Seq<char>) -> bool {
    s.len() >= suffix.len() && s.skip(s.len() - suffix.len()) == suffix
}

/// Whether `path` lies at or under the directory `dir`: `dir` itself, or
/// `dir` followed by a separator.
pub open spec fn under_dir(path: Seq<char>, dir: Seq<char>) -> bool {
    path.len() >= dir.len() && path.take(dir.len() as int) == dir && (path.len() == dir.len()
        || path[dir.len() as int] == '/')
}

/// Whether `path` lies at or under the directory `dir`.
pub fn is_under_dir(path: &str, dir: &str) -> (r: bool)
    ensures
        r == under_dir(path@, dir@),
{
    if !str_starts_with(path, dir) {
        return false;
    }
    let n = path.unicode_len();
    let m = dir.unicode_len();
    n == m || path.get_char(m) == '/'
}

/// Whether `s` ends with `suffix`, by character comparison.
pub fn str_ends_with(s: &str, suffix: &str) -> (r: bool)
    ensures
        r == has_suffix(s@, suffix@),
{
    let n = s.unicode_len();
    let m = suffix.unicode_len();
    if m > n {
        return false;
    }
    let off = n - m;
    let mut i: usize = 0;
    while i < m
        invariant
            i <= m,
            m == suffix@.len(),
            n == s@.len(),
            off == n - m,
            forall|k: int| 0 <= k < i ==> s@[off + k] == suffix@[k],
        decreases m - i,
    {
        if s.get_char(off + i) != suffix.get_char(i) {
            proof {
                assert(s@.skip(off as int)[i as int] != suffix@[i as int]);
            }
            return false;
        }
        i += 1;
    }
    proof {
        assert(s@.skip(off as int) =~= suffix@);
    }
    true
}

/// Whether the two strings hold the same characters.
pub fn str_eq(a: &str, b: &str) -> (r: bool)
    ensures
        r == (a@ == b@),
{
    let n = a.unicode_len();
    let m = b.unicode_len();
    if n != m {
        return false;
    }
    let mut i: usize = 0;
    while i < n
        invariant
            i <= n,
            n == a@.len(),
            n == b@.len(),
            forall|k: int| 0 <= k < i ==> a@[k] == b@[k],
        decreases n - i,
    {
        if a.get_char(i) != b.get_char(i) {
            return false;
        }
        i += 1;
    }
    proof {
        assert(a@ =~= b@);
    }
    true
}

/// Leftmost-first, non-overlapping replacement of `from` by `to` in `s`.
pub open spec fn replaced(s: Seq<char>, from: Seq<char>, to: Seq<char>) -> Seq<char>
    decreases s.len(),
{
    if from.len() == 0 || s.len() < from.len() {
        s
    } else if s.take(from.len() as int) == from {
        to + replaced(s.skip(from.len() as int), from, to)
    } else {
        seq![s[0]] + replaced(s.drop_first(), from, to)
    }
}

/// Whether `s` matches `from` at position `i`.
fn matches_at(s: &str, n: usize, from: &str, m: usize, i: usize) -> (r: bool)
    requires
        n == s@.len(),
        m == from@.len(),
        i <= n,
    ensures
        r == (i + m <= s@.len() && s@.subrange(i as int, i as int + m as int) == from@),
{
    if m > n - i {
        return false;
    }
    let mut k: usize = 0;
    while k < m
        invariant
            k <= m,
            i + m <= n,
            n == s@.len(),
            m == from@.len(),
            forall|j: int| 0 <= j < k ==> s@[i + j] == from@[j],
        decreases m - k,
    {
        if s.get_char(i + k) != from.get_char(k) {
            proof {
                assert(s@.subrange(i as int, i as int + m as int)[k as int] != from@[k as int]);
            }
            return false;
        }
        k += 1;
    }
    proof {
        assert(s@.subrange(i as int, i as int + m as int) =~= from@);
    }
    true
}

/// Replace every occurrence of `from` in `s` by `to`, leftmost first,
/// without rescanning replaced text.
pub fn replace_all(s: &str, from: &str, to: &str) -> (r: String)
    ensures
        r@ == replaced(s@, from@, to@),
{
    let n = s.unicode_len();
    let m = from.unicode_len();
    let mut r = String::new();
    if m == 0 {
        r.append(s);
        return r;
    }
    let mut i: usize = 0;
    proof {
        assert(s@.skip(0) =~= s@);
    }
    while i < n
        invariant
            i <= n,
            n == s@.len(),
            m == from@.len(),
            m > 0,
            r@ + replaced(s@.skip(i as int), from@, to@) =~= replaced(s@, from@, to@),
        decreases n - i,
    {
        let ghost rest = s@.skip(i as int);
        if matches_at(s, n, from, m, i) {
            proof {
                assert(rest.take(m as int) =~= s@.subrange(i as int, i as int + m as int));
                assert(rest.skip(m as int) =~= s@.skip(i as int + m as int));
            }
            r.append(to);
            i += m;
        } else {
            proof {
                if rest.len() >= m {
                    assert(rest.take(m as int) =~= s@.subrange(i as int, i as int + m as int));
                }
                assert(rest.drop_first() =~= s@.skip(i as int + 1));
                assert(rest[0] == s@[i as int]);
            }
            let piece = s.substring_char(i, i + 1);
            r.append(piece);
            proof {
                assert(piece@ =~= seq![s@[i as int]]);
            }
            i += 1;
        }
    }
    proof {
        assert(s@.skip(n as int) =~= Seq::<char>::empty());
    }
    r
}

/// Concatenation of two strings.
pub fn concat2(a: &str, b: &str) -> (r: String)
    ensures
        r@ == a@ + b@,
{
    let mut r = String::from_str(a);
    r.append(b);
    r
}

/// Concatenation of three strings.
pub fn concat3(a: &str, b: &str, c: &str) -> (r: String)
    ensures
        r@ == a@ + b@ + c@,
{
    let mut r = String::from_str(a);
    r.append(b);
    r.append(c);
    r
}

} // verus!
