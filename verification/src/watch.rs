//! The dev-watch loop's decisions: which filesystem events are ignored
//! (excluded paths, the build output's own directory), and when a
//! qualifying event actually triggers a rebuild rather than being
//! coalesced into the debounce window.

use vstd::prelude::*;

use crate::textops::{is_under_dir, under_dir};

verus! {

/// What the regex engine answers for a pattern and a text: a function of
/// the two alone.
pub uninterp spec fn regex_match_of(pattern: Seq<char>, text: Seq<char>) -> bool;

/// Relies on regex::Regex::new and Regex::is_match: whether the pattern
/// matches anywhere in the text. A pattern that does not compile matches
/// nothing, as the watcher drops invalid exclusion patterns.
#[verifier::external_body]
fn regex_is_match(pattern: &str, text: &str) -> (r: bool)
    ensures
        r == regex_match_of(pattern@, text@),
{
    match regex::Regex::new(pattern) {
        Ok(re) => re.is_match(text),
        Err(_) => false,
    }
}

/// Whether a changed path is ignored for rebuild purposes: it sits under
/// the build-output directory, or matches one of the exclusion patterns.
pub open spec fn skip_path_spec(
    rel: Seq<char>,
    build_subdir: Seq<char>,
    excludes: Seq<String>,
) -> bool {
    under_dir(rel, build_subdir) || exists|i: int|
        0 <= i < excludes.len() && regex_match_of((#[trigger] excludes[i])@, rel)
}

/// Whether a changed path (relative to the watched root) is ignored.
pub fn should_skip_path(rel_path: &str, build_subdir: &str, excludes: &Vec<String>) -> (r: bool)
    ensures
        r == skip_path_spec(rel_path@, build_subdir@, excludes@),
{
    if is_under_dir(rel_path, build_subdir) {
        return true;
    }
    let mut i: usize = 0;
    while i < excludes.len()
        invariant
            0 <= i <= excludes@.len(),
            forall|k: int| 0 <= k < i ==> !regex_match_of((#[trigger] excludes@[k])@, rel_path@),
            !under_dir(rel_path@, build_subdir@),
        decreases excludes@.len() - i,
    {
        if regex_is_match(excludes[i].as_str(), rel_path) {
            return true;
        }
        i += 1;
    }
    false
}

/// Whether any of an event's paths is not ignored, so the event counts.
pub open spec fn exists_relevant(
    rel_paths: Seq<String>,
    build_subdir: Seq<char>,
    excludes: Seq<String>,
) -> bool {
    exists|i: int|
        0 <= i < rel_paths.len() && !skip_path_spec(
            (#[trigger] rel_paths[i])@,
            build_subdir,
            excludes,
        )
}

/// Whether any of an event's paths is not ignored.
pub fn any_relevant_path(rel_paths: &Vec<String>, build_subdir: &str, excludes: &Vec<String>) -> (r:
    bool)
    ensures
        r == exists_relevant(rel_paths@, build_subdir@, excludes@),
{
    let mut i: usize = 0;
    while i < rel_paths.len()
        invariant
            0 <= i <= rel_paths@.len(),
            forall|k: int|
                0 <= k < i ==> skip_path_spec(
                    (#[trigger] rel_paths@[k])@,
                    build_subdir@,
                    excludes@,
                ),
        decreases rel_paths@.len() - i,
    {
        if !should_skip_path(rel_paths[i].as_str(), build_subdir, excludes) {
            return true;
        }
        i += 1;
    }
    false
}

/// The watch loop's debounce state: when the last rebuild started, and
/// whether one has started at all.
#[derive(Debug, Clone, PartialEq, Eq, Structural)]
pub struct WatchState {
    pub last_build_ms: u64,
    pub has_built: bool,
}

/// What the watch loop does with one event.
#[derive(Debug, Clone, PartialEq, Eq, Structural)]
pub enum WatchAction {
    Ignore,
    Rebuild,
}

/// Milliseconds since the last rebuild began; a clock that stands still or
/// runs backwards counts as no time passed.
pub open spec fn elapsed_ms(s: WatchState, now_ms: u64) -> u64 {
    if now_ms >= s.last_build_ms {
        (now_ms - s.last_build_ms) as u64
    } else {
        0
    }
}

/// The debounce transition: an event with no relevant path is ignored; a
/// relevant event inside the debounce window is coalesced; otherwise a
/// rebuild starts and the window restarts at `now_ms`.
pub open spec fn watch_transition(
    s: WatchState,
    now_ms: u64,
    any_relevant: bool,
    debounce_ms: u64,
) -> (WatchState, WatchAction) {
    if !any_relevant {
        (s, WatchAction::Ignore)
    } else if s.has_built && elapsed_ms(s, now_ms) < debounce_ms {
        (s, WatchAction::Ignore)
    } else {
        (WatchState { last_build_ms: now_ms, has_built: true }, WatchAction::Rebuild)
    }
}

/// Advance the watch loop's state for one event.
pub fn watch_step(state: &mut WatchState, now_ms: u64, any_relevant: bool, debounce_ms: u64) -> (a:
    WatchAction)
    ensures
        (*final(state), a) == watch_transition(*old(state), now_ms, any_relevant, debounce_ms),
{
    if !any_relevant {
        return WatchAction::Ignore;
    }
    if state.has_built {
        let elapsed = if now_ms >= state.last_build_ms {
            now_ms - state.last_build_ms
        } else {
            0
        };
        if elapsed < debounce_ms {
            return WatchAction::Ignore;
        }
    }
    state.last_build_ms = now_ms;
    state.has_built = true;
    WatchAction::Rebuild
}

/// An event whose every path is excluded, or sits under the build-output
/// directory, never triggers a rebuild and leaves the state unchanged.
pub proof fn lemma_excluded_events_ignored(
    s: WatchState,
    now_ms: u64,
    debounce_ms: u64,
    rel_paths: Seq<String>,
    build_subdir: Seq<char>,
    excludes: Seq<String>,
)
    requires
        forall|i: int|
            0 <= i < rel_paths.len() ==> skip_path_spec(
                (#[trigger] rel_paths[i])@,
                build_subdir,
                excludes,
            ),
    ensures
        watch_transition(s, now_ms, exists_relevant(rel_paths, build_subdir, excludes), debounce_ms)
            == (s, WatchAction::Ignore),
{
    assert(!exists_relevant(rel_paths, build_subdir, excludes));
}

/// Two qualifying events inside one debounce window trigger exactly one
/// rebuild: when the first rebuilds, the second is coalesced.
pub proof fn lemma_debounce_coalesces(s0: WatchState, t1: u64, t2: u64, debounce_ms: u64)
    requires
        t1 <= t2,
        t2 - t1 < debounce_ms,
    ensures
        ({
            let (s1, a1) = watch_transition(s0, t1, true, debounce_ms);
            a1 is Rebuild ==> watch_transition(s1, t2, true, debounce_ms) == (
                s1,
                WatchAction::Ignore,
            )
        }),
{
}

} // verus!
