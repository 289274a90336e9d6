//! The content graph: for a page being rendered, every other page grouped
//! into section buckets keyed by the first route segment, each bucket
//! sorted by publish timestamp, most recent first. The current page never
//! appears in any bucket, and a section's own list page never appears
//! inside its own listing.

use vstd::prelude::*;
use vstd::string::StrSliceExecFns;
use vstd::string::StringExecFns;

use crate::config::WeaverConfig;
use crate::document::{BaseMetaData, Heading};
use crate::textops::str_eq;

verus! {

/// A page's public projection: what other pages' render contexts see.
/// `published_ts` is the machine-readable publish timestamp that ordering
/// works on; the display text stays in `meta.published`.
#[derive(Debug, Clone)]
pub struct LiquidGlobalsPage {
    pub route: String,
    pub title: String,
    pub body: String,
    pub meta: BaseMetaData,
    pub toc: Vec<Heading>,
    pub published_ts: Option<i64>,
}

/// One section bucket: the pages whose routes begin with `key`.
#[derive(Debug, Clone)]
pub struct Bucket {
    pub key: String,
    pub pages: Vec<LiquidGlobalsPage>,
}

/// The full render context of one page.
#[derive(Debug, Clone)]
pub struct LiquidGlobals {
    pub page: LiquidGlobalsPage,
    pub content: Vec<Bucket>,
    pub extra_css: String,
    pub site_config: WeaverConfig,
}

/// Descending order on publish timestamps: a page with a timestamp sorts
/// before one without; among timestamps the larger sorts first.
pub open spec fn ge_key(a: Option<i64>, b: Option<i64>) -> bool {
    match (a, b) {
        (Some(x), Some(y)) => x >= y,
        (Some(_), None) => true,
        (None, Some(_)) => false,
        (None, None) => true,
    }
}

/// Whether `s` is sorted by publish timestamp, descending.
pub open spec fn sorted_desc(s: Seq<LiquidGlobalsPage>) -> bool {
    forall|i: int, j: int|
        0 <= i < j < s.len() ==> ge_key(s[i].published_ts, s[j].published_ts)
}

/// Stable insertion from the right: `x` lands after every element that
/// sorts at or before it, so equal keys keep their arrival order.
pub open spec fn insert_desc(s: Seq<LiquidGlobalsPage>, x: LiquidGlobalsPage) -> Seq<
    LiquidGlobalsPage,
>
    decreases s.len(),
{
    if s.len() == 0 {
        seq![x]
    } else if ge_key(s.last().published_ts, x.published_ts) {
        s.push(x)
    } else {
        insert_desc(s.drop_last(), x).push(s.last())
    }
}

/// Stable insertion sort by publish timestamp, descending.
pub open spec fn sort_desc(s: Seq<LiquidGlobalsPage>) -> Seq<LiquidGlobalsPage>
    decreases s.len(),
{
    if s.len() == 0 {
        Seq::empty()
    } else {
        insert_desc(sort_desc(s.drop_last()), s.last())
    }
}

proof fn lemma_ge_key_total(a: Option<i64>, b: Option<i64>)
    ensures
        ge_key(a, b) || ge_key(b, a),
{
}

proof fn lemma_insert_desc_elts(s: Seq<LiquidGlobalsPage>, x: LiquidGlobalsPage)
    ensures
        insert_desc(s, x).len() == s.len() + 1,
        forall|i: int|
            0 <= i < insert_desc(s, x).len() ==> (insert_desc(s, x)[i] == x || s.contains(
                insert_desc(s, x)[i],
            )),
    decreases s.len(),
{
    if s.len() == 0 {
    } else if ge_key(s.last().published_ts, x.published_ts) {
    } else {
        lemma_insert_desc_elts(s.drop_last(), x);
        let r = insert_desc(s, x);
        let inner = insert_desc(s.drop_last(), x);
        assert forall|i: int| 0 <= i < r.len() implies (r[i] == x || s.contains(r[i])) by {
            if i < inner.len() {
                assert(r[i] == inner[i]);
                if inner[i] != x {
                    let k = choose|k: int|
                        0 <= k < s.drop_last().len() && s.drop_last()[k] == inner[i];
                    assert(s[k] == inner[i]);
                }
            } else {
                assert(r[i] == s.last());
                assert(s[s.len() - 1] == s.last());
            }
        }
    }
}

proof fn lemma_insert_desc_sorted(s: Seq<LiquidGlobalsPage>, x: LiquidGlobalsPage)
    requires
        sorted_desc(s),
    ensures
        sorted_desc(insert_desc(s, x)),
    decreases s.len(),
{
    if s.len() == 0 {
    } else if ge_key(s.last().published_ts, x.published_ts) {
        let r = s.push(x);
        assert forall|i: int, j: int|
            0 <= i < j < r.len() implies ge_key(r[i].published_ts, r[j].published_ts) by {
            if j < s.len() {
            } else {
                assert(r[j] == x);
                if i < s.len() - 1 {
                    assert(ge_key(s[i].published_ts, s[s.len() - 1].published_ts));
                }
            }
        }
    } else {
        assert(sorted_desc(s.drop_last()));
        lemma_insert_desc_sorted(s.drop_last(), x);
        lemma_insert_desc_elts(s.drop_last(), x);
        let inner = insert_desc(s.drop_last(), x);
        let r = inner.push(s.last());
        lemma_ge_key_total(s.last().published_ts, x.published_ts);
        assert forall|i: int, j: int|
            0 <= i < j < r.len() implies ge_key(r[i].published_ts, r[j].published_ts) by {
            if j < inner.len() {
            } else {
                assert(r[j] == s.last());
                if inner[i] == x {
                    assert(ge_key(x.published_ts, s.last().published_ts));
                } else {
                    let k = choose|k: int|
                        0 <= k < s.drop_last().len() && s.drop_last()[k] == inner[i];
                    assert(s[k] == inner[i]);
                    assert(ge_key(s[k].published_ts, s[s.len() - 1].published_ts));
                }
            }
        }
    }
}

/// The result of the sort is sorted.
pub proof fn lemma_sort_desc_sorted(s: Seq<LiquidGlobalsPage>)
    ensures
        sorted_desc(sort_desc(s)),
    decreases s.len(),
{
    if s.len() > 0 {
        lemma_sort_desc_sorted(s.drop_last());
        lemma_insert_desc_sorted(sort_desc(s.drop_last()), s.last());
    }
}

/// The sort neither loses nor invents pages.
pub proof fn lemma_sort_desc_elts(s: Seq<LiquidGlobalsPage>)
    ensures
        sort_desc(s).len() == s.len(),
        forall|i: int| 0 <= i < sort_desc(s).len() ==> s.contains(#[trigger] sort_desc(s)[i]),
        sort_desc(s).to_multiset() == s.to_multiset(),
    decreases s.len(),
{
    broadcast use vstd::seq_lib::group_to_multiset_ensures;

    if s.len() == 0 {
        assert(sort_desc(s).to_multiset() =~= s.to_multiset());
    } else {
        lemma_sort_desc_elts(s.drop_last());
        let inner = sort_desc(s.drop_last());
        lemma_insert_desc_elts(inner, s.last());
        lemma_insert_desc_multiset(inner, s.last());
        assert(s =~= s.drop_last().push(s.last()));
        assert(s.drop_last().push(s.last()).to_multiset() == s.drop_last().to_multiset().insert(
            s.last(),
        ));
        assert forall|i: int| 0 <= i < sort_desc(s).len() implies s.contains(
            #[trigger] sort_desc(s)[i],
        ) by {
            let p = sort_desc(s)[i];
            if p == s.last() {
                assert(s[s.len() - 1] == p);
            } else {
                assert(inner.contains(p));
                let k = choose|k: int| 0 <= k < inner.len() && inner[k] == p;
                assert(s.drop_last().contains(p));
                let m = choose|m: int| 0 <= m < s.drop_last().len() && s.drop_last()[m] == p;
                assert(s[m] == p);
            }
        }
    }
}

proof fn lemma_insert_desc_multiset(s: Seq<LiquidGlobalsPage>, x: LiquidGlobalsPage)
    ensures
        insert_desc(s, x).to_multiset() == s.to_multiset().insert(x),
    decreases s.len(),
{
    broadcast use vstd::seq_lib::group_to_multiset_ensures;

    if s.len() == 0 {
        assert(insert_desc(s, x) =~= Seq::<LiquidGlobalsPage>::empty().push(x));
        assert(Seq::<LiquidGlobalsPage>::empty().push(x).to_multiset() =~= s.to_multiset().insert(
            x,
        ));
    } else if ge_key(s.last().published_ts, x.published_ts) {
    } else {
        lemma_insert_desc_multiset(s.drop_last(), x);
        assert(s =~= s.drop_last().push(s.last()));
        assert(insert_desc(s, x).to_multiset() == insert_desc(s.drop_last(), x).to_multiset()
            .insert(s.last()));
        assert(s.drop_last().to_multiset().insert(x).insert(s.last()) =~= s.drop_last()
            .to_multiset().insert(s.last()).insert(x));
    }
}

/// The length of the longest slash-free prefix.
pub open spec fn prefix_len_no_slash(s: Seq<char>) -> int
    decreases s.len(),
{
    if s.len() == 0 {
        0
    } else if s[0] == '/' {
        0
    } else {
        1 + prefix_len_no_slash(s.drop_first())
    }
}

proof fn lemma_prefix_len_no_slash(s: Seq<char>)
    ensures
        0 <= prefix_len_no_slash(s) <= s.len(),
        forall|k: int| 0 <= k < prefix_len_no_slash(s) ==> s[k] != '/',
        prefix_len_no_slash(s) < s.len() ==> s[prefix_len_no_slash(s)] == '/',
    decreases s.len(),
{
    if s.len() > 0 && s[0] != '/' {
        lemma_prefix_len_no_slash(s.drop_first());
        assert forall|k: int| 0 <= k < prefix_len_no_slash(s) implies s[k] != '/' by {
            if k > 0 {
                assert(s.drop_first()[k - 1] == s[k]);
            }
        }
    }
}

/// The first route segment below the root: for `/posts/a` it is `posts`.
/// A relative marker in that position stands in for the synthetic `root`
/// section; a route without a first segment has none.
pub open spec fn first_segment_of(route: Seq<char>) -> Option<Seq<char>> {
    if route.len() > 0 && route[0] == '/' {
        let rest = route.skip(1);
        let seg = rest.take(prefix_len_no_slash(rest));
        if seg.len() == 0 {
            None
        } else if seg == seq!['.'] || seg == seq!['.', '.'] {
            Some("root"@)
        } else {
            Some(seg)
        }
    } else {
        None
    }
}

/// The bucket a route files under: its first segment, or the route itself
/// where it has none.
pub open spec fn bucket_key_of(route: Seq<char>) -> Seq<char> {
    match first_segment_of(route) {
        Some(seg) => seg,
        None => route,
    }
}

/// Whether `route` is its own section's list page (`/{segment}/`).
pub open spec fn is_list_page(route: Seq<char>) -> bool {
    match first_segment_of(route) {
        Some(seg) => route == seq!['/'] + seg + seq!['/'],
        None => false,
    }
}

/// Whether a page belongs in the content graph built for `current`: every
/// page but the current one and section list pages, whatever its emit flag.
pub open spec fn in_graph(p: LiquidGlobalsPage, current: Seq<char>) -> bool {
    p.route@ != current && !is_list_page(p.route@)
}

/// The members of the bucket `key` among the first `n` pages, in arrival
/// order.
pub open spec fn bucket_members_upto(
    pages: Seq<LiquidGlobalsPage>,
    current: Seq<char>,
    key: Seq<char>,
    n: int,
) -> Seq<LiquidGlobalsPage>
    decreases n,
{
    if n <= 0 {
        Seq::empty()
    } else {
        bucket_members_upto(pages, current, key, n - 1) + (if in_graph(pages[n - 1], current)
            && bucket_key_of(pages[n - 1].route@) == key {
            seq![pages[n - 1]]
        } else {
            Seq::empty()
        })
    }
}

/// The members of the bucket `key`, in arrival order, before sorting.
pub open spec fn bucket_members(
    pages: Seq<LiquidGlobalsPage>,
    current: Seq<char>,
    key: Seq<char>,
) -> Seq<LiquidGlobalsPage> {
    bucket_members_upto(pages, current, key, pages.len() as int)
}

proof fn lemma_members_are_members(
    pages: Seq<LiquidGlobalsPage>,
    current: Seq<char>,
    key: Seq<char>,
    n: int,
)
    requires
        n <= pages.len(),
    ensures
        forall|i: int|
            0 <= i < bucket_members_upto(pages, current, key, n).len() ==> {
                let p = #[trigger] bucket_members_upto(pages, current, key, n)[i];
                in_graph(p, current) && bucket_key_of(p.route@) == key && pages.contains(p)
            },
    decreases n,
{
    if n > 0 {
        lemma_members_are_members(pages, current, key, n - 1);
        assert forall|i: int|
            0 <= i < bucket_members_upto(pages, current, key, n).len() implies {
            let p = #[trigger] bucket_members_upto(pages, current, key, n)[i];
            in_graph(p, current) && bucket_key_of(p.route@) == key && pages.contains(p)
        } by {
            let prev = bucket_members_upto(pages, current, key, n - 1);
            if i >= prev.len() {
                assert(bucket_members_upto(pages, current, key, n)[i] == pages[n - 1]);
            }
        }
    }
}

proof fn lemma_members_nonempty_source(
    pages: Seq<LiquidGlobalsPage>,
    current: Seq<char>,
    key: Seq<char>,
    n: int,
)
    requires
        n <= pages.len(),
        bucket_members_upto(pages, current, key, n).len() > 0,
    ensures
        exists|j: int|
            0 <= j < n && in_graph(#[trigger] pages[j], current) && bucket_key_of(pages[j].route@)
                == key,
    decreases n,
{
    if n > 0 {
        if in_graph(pages[n - 1], current) && bucket_key_of(pages[n - 1].route@) == key {
        } else {
            lemma_members_nonempty_source(pages, current, key, n - 1);
        }
    }
}

/// Each in-graph page with the bucket's key is among its members.
proof fn lemma_members_complete(
    pages: Seq<LiquidGlobalsPage>,
    current: Seq<char>,
    key: Seq<char>,
    n: int,
    j: int,
)
    requires
        0 <= j < n <= pages.len(),
        in_graph(pages[j], current),
        bucket_key_of(pages[j].route@) == key,
    ensures
        bucket_members_upto(pages, current, key, n).contains(pages[j]),
    decreases n,
{
    if j == n - 1 {
        let m = bucket_members_upto(pages, current, key, n);
        assert(m[m.len() - 1] == pages[j]);
    } else {
        lemma_members_complete(pages, current, key, n - 1, j);
        let prev = bucket_members_upto(pages, current, key, n - 1);
        let k = choose|k: int| 0 <= k < prev.len() && prev[k] == pages[j];
        assert(bucket_members_upto(pages, current, key, n)[k] == pages[j]);
    }
}

/// A well-formed content graph for `pages` seen from `current`: bucket
/// keys are distinct; a bucket holds exactly its members, sorted by
/// publish timestamp descending with ties kept stable; every in-graph page
/// has its bucket; and no bucket is empty.
pub open spec fn graph_wf(
    g: Seq<Bucket>,
    pages: Seq<LiquidGlobalsPage>,
    current: Seq<char>,
) -> bool {
    &&& forall|i: int, j: int| 0 <= i < j < g.len() ==> g[i].key@ != g[j].key@
    &&& forall|i: int|
        0 <= i < g.len() ==> (#[trigger] g[i]).pages@ == sort_desc(
            bucket_members(pages, current, g[i].key@),
        )
    &&& forall|k: int|
        0 <= k < pages.len() && in_graph(#[trigger] pages[k], current) ==> exists|i: int|
            0 <= i < g.len() && (#[trigger] g[i]).key@ == bucket_key_of(pages[k].route@)
    &&& forall|i: int|
        0 <= i < g.len() ==> bucket_members(pages, current, (#[trigger] g[i]).key@).len() > 0
}

/// The bucket key of a route, and whether the route is its own section's
/// list page.
pub fn page_bucket_key(route: &str) -> (r: (String, bool))
    ensures
        r.0@ == bucket_key_of(route@),
        r.1 == is_list_page(route@),
{
    let n = route.unicode_len();
    if n == 0 || route.get_char(0) != '/' {
        return (String::from_str(route), false);
    }
    let ghost rest = route@.skip(1);
    let mut i: usize = 1;
    while i < n && route.get_char(i) != '/'
        invariant
            1 <= i <= n,
            n == route@.len(),
            forall|k: int| 1 <= k < i ==> route@[k] != '/',
        decreases n - i,
    {
        i += 1;
    }
    let seglen = i - 1;
    proof {
        lemma_prefix_len_no_slash(rest);
        assert forall|k: int| 0 <= k < seglen implies rest[k] != '/' by {
            assert(rest[k] == route@[k + 1]);
        }
        if (seglen as int) < rest.len() {
            assert(rest[seglen as int] == route@[i as int]);
        }
        assert(prefix_len_no_slash(rest) == seglen as int) by {
            let p = prefix_len_no_slash(rest);
            if p < seglen as int {
                assert(rest[p] == '/');
            }
            if p > seglen as int {
                assert(rest[seglen as int] != '/');
            }
        }
    }
    let ghost seg = rest.take(seglen as int);
    proof {
        assert forall|k: int| 0 <= k < seglen implies seg[k] == route@[k + 1] by {}
    }
    if seglen == 0 {
        return (String::from_str(route), false);
    }
    // A relative marker files under the synthetic root section; such a
    // route cannot spell `/root/`, so it is no list page.
    if seglen == 1 && route.get_char(1) == '.' {
        proof {
            assert(seg =~= seq!['.']);
            reveal_strlit("root");
            assert(first_segment_of(route@) == Some("root"@));
            assert((seq!['/'] + "root"@ + seq!['/'])[1] == 'r');
            assert(route@ != seq!['/'] + "root"@ + seq!['/']);
        }
        return (String::from_str("root"), false);
    }
    if seglen == 2 && route.get_char(1) == '.' && route.get_char(2) == '.' {
        proof {
            assert(seg =~= seq!['.', '.']);
            reveal_strlit("root");
            assert(first_segment_of(route@) == Some("root"@));
            assert((seq!['/'] + "root"@ + seq!['/'])[1] == 'r');
            assert(route@ != seq!['/'] + "root"@ + seq!['/']);
        }
        return (String::from_str("root"), false);
    }
    proof {
        if seg.len() == 1 {
            assert(seg =~= seq![seg[0]]);
            assert(seg[0] == route@[1]);
        }
        if seg.len() == 2 {
            assert(seg =~= seq![seg[0], seg[1]]);
            assert(seg[0] == route@[1]);
            assert(seg[1] == route@[2]);
        }
        assert(first_segment_of(route@) == Some(seg));
    }
    let key = String::from_str(route.substring_char(1, i));
    let is_list = n - seglen == 2 && route.get_char(n - 1) == '/';
    proof {
        let listform = seq!['/'] + seg + seq!['/'];
        if n - seglen == 2 && route@[n - 1] == '/' {
            assert(route@ =~= listform);
        } else {
            if route@.len() == listform.len() {
                assert(listform[n - 1] == '/');
            }
            assert(route@ != listform);
        }
    }
    (key, is_list)
}

/// Whether `a` sorts at or before `b`, descending by publish timestamp.
pub fn ge_key_exec(a: &Option<i64>, b: &Option<i64>) -> (r: bool)
    ensures
        r == ge_key(*a, *b),
{
    match (a, b) {
        (Some(x), Some(y)) => *x >= *y,
        (Some(_), None) => true,
        (None, Some(_)) => false,
        (None, None) => true,
    }
}

proof fn lemma_insert_desc_at(s: Seq<LiquidGlobalsPage>, x: LiquidGlobalsPage, p: int)
    requires
        0 <= p <= s.len(),
        forall|k: int| p <= k < s.len() ==> !ge_key(s[k].published_ts, x.published_ts),
        p > 0 ==> ge_key(s[p - 1].published_ts, x.published_ts),
    ensures
        insert_desc(s, x) == s.take(p) + seq![x] + s.skip(p),
    decreases s.len(),
{
    if s.len() == 0 {
        assert(insert_desc(s, x) =~= s.take(p) + seq![x] + s.skip(p));
    } else if p == s.len() {
        assert(ge_key(s[p - 1].published_ts, x.published_ts));
        assert(s[s.len() - 1] == s.last());
        assert(insert_desc(s, x) == s.push(x));
        assert(s.push(x) =~= s.take(p) + seq![x] + s.skip(p));
    } else {
        assert(!ge_key(s[s.len() - 1].published_ts, x.published_ts));
        assert(s.last() == s[s.len() - 1]);
        assert forall|k: int|
            p <= k < s.drop_last().len() implies !ge_key(
            s.drop_last()[k].published_ts,
            x.published_ts,
        ) by {
            assert(s.drop_last()[k] == s[k]);
        }
        if p > 0 {
            assert(s.drop_last()[p - 1] == s[p - 1]);
        }
        lemma_insert_desc_at(s.drop_last(), x, p);
        assert(insert_desc(s, x) == insert_desc(s.drop_last(), x).push(s.last()));
        assert((s.drop_last().take(p) + seq![x] + s.drop_last().skip(p)).push(s.last()) =~= s.take(
            p,
        ) + seq![x] + s.skip(p));
    }
}

/// Insert one page into a sorted vector, keeping it sorted and placing the
/// new page after any page that sorts at or before it.
fn insert_page_desc(v: &mut Vec<LiquidGlobalsPage>, x: LiquidGlobalsPage)
    ensures
        final(v)@ == insert_desc(old(v)@, x),
{
    let mut pos: usize = v.len();
    while pos > 0 && !ge_key_exec(&v[pos - 1].published_ts, &x.published_ts)
        invariant
            0 <= pos <= v@.len(),
            v@ == old(v)@,
            forall|k: int| pos <= k < v@.len() ==> !ge_key(v@[k].published_ts, x.published_ts),
        decreases pos,
    {
        pos -= 1;
    }
    proof {
        lemma_insert_desc_at(v@, x, pos as int);
    }
    v.insert(pos, x);
    proof {
        assert(v@ =~= old(v)@.take(pos as int) + seq![x] + old(v)@.skip(pos as int));
    }
}

/// Sort pages by publish timestamp, descending, stably.
fn sort_pages_desc(pages: Vec<LiquidGlobalsPage>) -> (r: Vec<LiquidGlobalsPage>)
    ensures
        r@ == sort_desc(pages@),
{
    let ghost orig = pages@;
    let mut rest = pages;
    let mut out: Vec<LiquidGlobalsPage> = Vec::new();
    proof {
        assert(orig.take(0) =~= Seq::<LiquidGlobalsPage>::empty());
        assert(out@ =~= sort_desc(orig.take(0)));
    }
    let ghost done: int = 0;
    while rest.len() > 0
        invariant
            0 <= done <= orig.len(),
            rest@ =~= orig.skip(done),
            out@ == sort_desc(orig.take(done)),
        decreases rest@.len(),
    {
        let x = rest.remove(0);
        proof {
            assert(x == orig[done]);
            assert(rest@ =~= orig.skip(done + 1));
            assert(orig.take(done + 1).drop_last() =~= orig.take(done));
            assert(orig.take(done + 1).last() == orig[done]);
        }
        insert_page_desc(&mut out, x);
        proof {
            assert(out@ == sort_desc(orig.take(done + 1)));
        }
        proof {
            done = done + 1;
        }
    }
    proof {
        assert(orig.take(orig.len() as int) =~= orig);
    }
    out
}

impl LiquidGlobals {
    /// Build the render context of `page`: `page` itself, plus every other
    /// page bucketed by first route segment and sorted by recency. The
    /// extra CSS starts empty; the caller fills it once per build.
    pub fn new(
        page: LiquidGlobalsPage,
        all_pages: Vec<LiquidGlobalsPage>,
        site_config: WeaverConfig,
    ) -> (g: LiquidGlobals)
        ensures
            g.page == page,
            graph_wf(g.content@, all_pages@, page.route@),
            g.extra_css@ == Seq::<char>::empty(),
            g.site_config == site_config,
    {
        let content = build_content_graph(page.route.as_str(), all_pages);
        LiquidGlobals { page, content, extra_css: String::new(), site_config }
    }
}

/// Group every page other than the current one into section buckets and
/// sort each bucket by publish timestamp, descending.
#[verifier::loop_isolation(false)]
pub fn build_content_graph(current_route: &str, pages: Vec<LiquidGlobalsPage>) -> (g: Vec<Bucket>)
    ensures
        graph_wf(g@, pages@, current_route@),
{
    let ghost orig = pages@;
    let ghost current = current_route@;
    let mut rest = pages;
    let mut buckets: Vec<Bucket> = Vec::new();
    let ghost done: int = 0;
    while rest.len() > 0
        invariant
            0 <= done <= orig.len(),
            rest@ =~= orig.skip(done),
            forall|i: int, j: int| 0 <= i < j < buckets@.len() ==> buckets@[i].key@ != buckets@[j].key@,
            forall|i: int|
                0 <= i < buckets@.len() ==> (#[trigger] buckets@[i]).pages@ == bucket_members_upto(
                    orig,
                    current,
                    buckets@[i].key@,
                    done,
                ),
            forall|k: int|
                0 <= k < done && in_graph(#[trigger] orig[k], current) ==> exists|i: int|
                    0 <= i < buckets@.len() && (#[trigger] buckets@[i]).key@ == bucket_key_of(
                        orig[k].route@,
                    ),
            forall|i: int|
                0 <= i < buckets@.len() ==> bucket_members_upto(
                    orig,
                    current,
                    (#[trigger] buckets@[i]).key@,
                    done,
                ).len() > 0,
        decreases rest@.len(),
    {
        let p = rest.remove(0);
        proof {
            assert(p == orig[done]);
            assert(rest@ =~= orig.skip(done + 1));
        }
        let skip_page = str_eq(p.route.as_str(), current_route);
        let (key, is_list) = page_bucket_key(p.route.as_str());
        if !skip_page && !is_list {
            proof {
                assert(in_graph(orig[done], current));
            }
            let mut found: Option<usize> = None;
            let mut bi: usize = 0;
            while bi < buckets.len()
                invariant
                    0 <= bi <= buckets@.len(),
                    key@ == bucket_key_of(orig[done].route@),
                    match found {
                        Some(fi) => fi < buckets@.len() && buckets@[fi as int].key@ == key@,
                        None => forall|i: int| 0 <= i < bi ==> buckets@[i].key@ != key@,
                    },
                decreases buckets@.len() - bi,
            {
                if found.is_none() && str_eq(buckets[bi].key.as_str(), key.as_str()) {
                    found = Some(bi);
                }
                bi += 1;
            }
            match found {
                Some(fi) => {
                    let ghost b0 = buckets@;
                    let mut b = buckets.swap_remove(fi);
                    b.pages.push(p);
                    buckets.push(b);
                    proof {
                        assert(buckets@.len() == b0.len());
                        assert forall|k: int|
                            0 <= k < done + 1 && in_graph(#[trigger] orig[k], current)
                            implies exists|i: int|
                            0 <= i < buckets@.len() && (#[trigger] buckets@[i]).key@
                                == bucket_key_of(orig[k].route@) by {
                            if k < done {
                                let i = choose|i: int|
                                    0 <= i < b0.len() && (#[trigger] b0[i]).key@ == bucket_key_of(
                                        orig[k].route@,
                                    );
                                if i == fi {
                                    assert(buckets@[buckets@.len() - 1].key@ == b0[fi as int].key@);
                                } else if i == b0.len() - 1 {
                                    assert(buckets@[fi as int] == b0[b0.len() - 1]);
                                } else {
                                    assert(buckets@[i] == b0[i]);
                                }
                            } else {
                                assert(buckets@[buckets@.len() - 1].key@ == key@);
                            }
                        }
                    }
                },
                None => {
                    proof {
                        if bucket_members_upto(orig, current, key@, done).len() > 0 {
                            lemma_members_nonempty_source(orig, current, key@, done);
                            let j = choose|j: int|
                                0 <= j < done && in_graph(#[trigger] orig[j], current)
                                    && bucket_key_of(orig[j].route@) == key@;
                            assert(exists|i: int|
                                0 <= i < buckets@.len() && (#[trigger] buckets@[i]).key@
                                    == bucket_key_of(orig[j].route@));
                            assert(false);
                        }
                        assert(bucket_members_upto(orig, current, key@, done)
                            =~= Seq::<LiquidGlobalsPage>::empty());
                    }
                    let ghost b0 = buckets@;
                    let mut pages_vec: Vec<LiquidGlobalsPage> = Vec::new();
                    pages_vec.push(p);
                    buckets.push(Bucket { key, pages: pages_vec });
                    proof {
                        assert forall|k: int|
                            0 <= k < done + 1 && in_graph(#[trigger] orig[k], current)
                            implies exists|i: int|
                            0 <= i < buckets@.len() && (#[trigger] buckets@[i]).key@
                                == bucket_key_of(orig[k].route@) by {
                            if k < done {
                                let i = choose|i: int|
                                    0 <= i < b0.len() && (#[trigger] b0[i]).key@ == bucket_key_of(
                                        orig[k].route@,
                                    );
                                assert(buckets@[i] == b0[i]);
                            } else {
                                assert(buckets@[buckets@.len() - 1].key@ == bucket_key_of(
                                    orig[k].route@,
                                ));
                            }
                        }
                    }
                },
            }
        } else {
            proof {
                assert(!in_graph(orig[done], current));
            }
        }
        proof {
            done = done + 1;
        }
    }
    proof {
        assert(done == orig.len());
    }
    // Sort each bucket, most recent first.
    let mut out: Vec<Bucket> = Vec::new();
    let ghost unsorted = buckets@;
    let ghost taken: int = 0;
    let mut remaining = buckets;
    while remaining.len() > 0
        invariant
            0 <= taken <= unsorted.len(),
            remaining@ =~= unsorted.skip(taken),
            out@.len() == taken,
            forall|i: int, j: int| 0 <= i < j < unsorted.len() ==> unsorted[i].key@ != unsorted[j].key@,
            forall|i: int| 0 <= i < taken ==> (#[trigger] out@[i]).key == unsorted[i].key,
            forall|i: int|
                0 <= i < taken ==> (#[trigger] out@[i]).pages@ == sort_desc(
                    bucket_members(orig, current, unsorted[i].key@),
                ),
            forall|i: int|
                0 <= i < unsorted.len() ==> (#[trigger] unsorted[i]).pages@ == bucket_members(
                    orig,
                    current,
                    unsorted[i].key@,
                ),
            forall|i: int|
                0 <= i < unsorted.len() ==> bucket_members(
                    orig,
                    current,
                    (#[trigger] unsorted[i]).key@,
                ).len() > 0,
            forall|k: int|
                0 <= k < orig.len() && in_graph(#[trigger] orig[k], current) ==> exists|i: int|
                    0 <= i < unsorted.len() && (#[trigger] unsorted[i]).key@ == bucket_key_of(
                        orig[k].route@,
                    ),
        decreases remaining@.len(),
    {
        let b = remaining.remove(0);
        proof {
            assert(b == unsorted[taken]);
            assert(remaining@ =~= unsorted.skip(taken + 1));
        }
        let sorted_pages = sort_pages_desc(b.pages);
        out.push(Bucket { key: b.key, pages: sorted_pages });
        proof {
            taken = taken + 1;
        }
    }
    proof {
        assert forall|k: int|
            0 <= k < orig.len() && in_graph(#[trigger] orig[k], current) implies exists|i: int|
            0 <= i < out@.len() && (#[trigger] out@[i]).key@ == bucket_key_of(orig[k].route@) by {
            let i = choose|i: int|
                0 <= i < unsorted.len() && (#[trigger] unsorted[i]).key@ == bucket_key_of(
                    orig[k].route@,
                );
            assert(out@[i].key@ == bucket_key_of(orig[k].route@));
        }
    }
    out
}

/// The current page's route never appears inside any bucket: a page is
/// grouped only when its route differs from the one being rendered.
pub proof fn lemma_current_page_excluded(
    g: Seq<Bucket>,
    pages: Seq<LiquidGlobalsPage>,
    current: Seq<char>,
)
    requires
        graph_wf(g, pages, current),
    ensures
        forall|i: int, j: int|
            0 <= i < g.len() && 0 <= j < g[i].pages@.len() ==> (#[trigger] g[i].pages@[j]).route@
                != current,
{
    assert forall|i: int, j: int|
        0 <= i < g.len() && 0 <= j < g[i].pages@.len() implies (#[trigger] g[i].pages@[j]).route@
        != current by {
        let members = bucket_members(pages, current, g[i].key@);
        lemma_sort_desc_elts(members);
        assert(g[i].pages@ == sort_desc(members));
        assert(members.contains(g[i].pages@[j]));
        let k = choose|k: int| 0 <= k < members.len() && members[k] == g[i].pages@[j];
        lemma_members_are_members(pages, current, g[i].key@, pages.len() as int);
        assert(in_graph(members[k], current));
    }
}

/// A section's own list page never appears inside its own bucket.
pub proof fn lemma_list_page_excluded(
    g: Seq<Bucket>,
    pages: Seq<LiquidGlobalsPage>,
    current: Seq<char>,
)
    requires
        graph_wf(g, pages, current),
    ensures
        forall|i: int, j: int|
            0 <= i < g.len() && 0 <= j < g[i].pages@.len() ==> !is_list_page(
                (#[trigger] g[i].pages@[j]).route@,
            ),
{
    assert forall|i: int, j: int|
        0 <= i < g.len() && 0 <= j < g[i].pages@.len() implies !is_list_page(
        (#[trigger] g[i].pages@[j]).route@,
    ) by {
        let members = bucket_members(pages, current, g[i].key@);
        lemma_sort_desc_elts(members);
        assert(members.contains(g[i].pages@[j]));
        let k = choose|k: int| 0 <= k < members.len() && members[k] == g[i].pages@[j];
        lemma_members_are_members(pages, current, g[i].key@, pages.len() as int);
        assert(in_graph(members[k], current));
    }
}

/// Every bucket is sorted by publish timestamp, descending: for each
/// adjacent pair, the earlier page's timestamp is at or above the later's.
pub proof fn lemma_buckets_sorted(
    g: Seq<Bucket>,
    pages: Seq<LiquidGlobalsPage>,
    current: Seq<char>,
)
    requires
        graph_wf(g, pages, current),
    ensures
        forall|i: int| 0 <= i < g.len() ==> sorted_desc((#[trigger] g[i]).pages@),
{
    assert forall|i: int| 0 <= i < g.len() implies sorted_desc((#[trigger] g[i]).pages@) by {
        lemma_sort_desc_sorted(bucket_members(pages, current, g[i].key@));
    }
}

/// An unemitted page is still a link target: membership in the graph does
/// not look at the emit flag, so a page with `emit == false` stands in its
/// bucket like any other.
pub proof fn lemma_unemitted_page_visible(
    g: Seq<Bucket>,
    pages: Seq<LiquidGlobalsPage>,
    current: Seq<char>,
    k: int,
)
    requires
        graph_wf(g, pages, current),
        0 <= k < pages.len(),
        in_graph(pages[k], current),
    ensures
        exists|i: int|
            0 <= i < g.len() && (#[trigger] g[i]).pages@.contains(pages[k]),
{
    broadcast use vstd::seq_lib::group_to_multiset_ensures;

    let i = choose|i: int|
        0 <= i < g.len() && (#[trigger] g[i]).key@ == bucket_key_of(pages[k].route@);
    let members = bucket_members(pages, current, g[i].key@);
    lemma_members_complete(pages, current, g[i].key@, pages.len() as int, k);
    lemma_sort_desc_elts(members);
    assert(members.to_multiset().contains(pages[k]));
    assert(sort_desc(members).to_multiset().contains(pages[k]));
    assert(sort_desc(members).contains(pages[k]));
    assert(g[i].pages@.contains(pages[k]));
}

} // verus!
