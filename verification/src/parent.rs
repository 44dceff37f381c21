//! Resolving the parent snapshot a forked child rollout subtracts: which
//! indexed parent file may serve, whether its snapshots cover the fork, the
//! key that pins the dependency, and the walk that rejects cyclic lineage.
use vstd::prelude::*;

use crate::files::ROLLOUT_PARSER_VERSION;
use crate::fingerprint::{dependency_bytes, fingerprint_of, private_dependency_key};
use crate::index_store::{decimal_string, decimal_string_u64, decimal_text};
use crate::text::str_eq;
use crate::tokens::{valid_usage, TokenUsage};

verus! {

/// The stored summary of the one indexed file whose leaf session is the
/// child's parent.
#[derive(Debug)]
pub struct ParentCandidate {
    pub path: String,
    pub identity: String,
    pub size: i64,
    pub modified_ns: i64,
    pub parsed_offset: i64,
    pub parsed_prefix_anchor: Option<String>,
    pub completion_state: String,
    pub parser_version: i64,
    pub schema_supported: bool,
    pub lineage_invalid: bool,
    pub parser_error_seen: bool,
    pub snapshot_timestamp_regressed: bool,
}

/// The parent snapshot a child subtracts, and the key that changes
/// whenever the parent's evidence does.
#[derive(Debug)]
pub struct ResolvedParentSnapshot {
    pub baseline: TokenUsage,
    pub dependency_key: String,
}

/// The parent was read to its end and completed.
pub open spec fn spec_source_is_complete(c: ParentCandidate) -> bool {
    c.parsed_offset == c.size && c.completion_state@ == "complete"@
}

/// The parent is partially read and still indexing or deferred, without
/// an error.
pub open spec fn spec_source_is_stable_partial(c: ParentCandidate) -> bool {
    &&& 0 <= c.parsed_offset < c.size
    &&& (c.completion_state@ == "indexing"@ || c.completion_state@ == "deferred"@)
}

/// A parent file may serve when its summary is complete or a stable
/// partial, written by this parser, of a supported schema, and free of
/// lineage, parser and clock errors.
pub open spec fn spec_candidate_is_usable(c: ParentCandidate) -> bool {
    &&& c.size >= 0
    &&& (spec_source_is_complete(c) || spec_source_is_stable_partial(c))
    &&& c.parser_version == ROLLOUT_PARSER_VERSION
    &&& c.schema_supported
    &&& !c.lineage_invalid
    &&& !c.parser_error_seen
    &&& !c.snapshot_timestamp_regressed
}

pub fn source_is_complete(c: &ParentCandidate) -> (r: bool)
    ensures
        r == spec_source_is_complete(*c),
{
    c.parsed_offset == c.size && str_eq(c.completion_state.as_str(), "complete")
}

pub fn candidate_is_usable(c: &ParentCandidate) -> (r: bool)
    ensures
        r == spec_candidate_is_usable(*c),
{
    let stable_partial = c.parsed_offset >= 0 && c.parsed_offset < c.size && (str_eq(
        c.completion_state.as_str(),
        "indexing",
    ) || str_eq(c.completion_state.as_str(), "deferred"));
    c.size >= 0 && (source_is_complete(c) || stable_partial) && c.parser_version
        == ROLLOUT_PARSER_VERSION && c.schema_supported && !c.lineage_invalid
        && !c.parser_error_seen && !c.snapshot_timestamp_regressed
}

/// The parent's snapshots cover the fork: the first one is not after it,
/// and a partial parent has already reached it.
pub open spec fn spec_fork_is_covered(first: i64, last: i64, fork: i64, complete: bool) -> bool {
    first <= fork && (complete || last >= fork)
}

pub fn fork_is_covered(first: i64, last: i64, fork: i64, complete: bool) -> (r: bool)
    ensures
        r == spec_fork_is_covered(first, last, fork, complete),
{
    first <= fork && (complete || last >= fork)
}

/// A parent serves only when its evidence is settled and clean: written by
/// this parser with a supported schema and no lineage, parser or clock
/// error, and either read to its end and complete, or partially read while
/// still indexing or deferred. A parent that ended in error never serves.
/// A parent's snapshots cover a fork only from a first snapshot at or
/// before it, and a partial parent only once it reached the fork.
pub proof fn law_only_settled_clean_parents_serve(c: ParentCandidate, first: i64, last: i64, fork: i64, complete: bool)
    ensures
        spec_candidate_is_usable(c) ==> {
            &&& c.parser_version == ROLLOUT_PARSER_VERSION
            &&& c.schema_supported && !c.lineage_invalid && !c.parser_error_seen
                && !c.snapshot_timestamp_regressed
            &&& (c.parsed_offset == c.size && c.completion_state@ == "complete"@) || (0
                <= c.parsed_offset < c.size && (c.completion_state@ == "indexing"@
                || c.completion_state@ == "deferred"@))
        },
        c.completion_state@ == "error"@ ==> !spec_candidate_is_usable(c),
        spec_fork_is_covered(first, last, fork, complete) ==> first <= fork,
        spec_fork_is_covered(first, last, fork, complete) && !complete ==> last >= fork,
        complete && first <= fork ==> spec_fork_is_covered(first, last, fork, complete),
        first <= fork && fork <= last ==> spec_fork_is_covered(first, last, fork, complete),
{
    reveal_strlit("error");
    reveal_strlit("complete");
    reveal_strlit("indexing");
    reveal_strlit("deferred");
    assert("error"@[0] != "complete"@[0]);
    assert("error"@[0] != "indexing"@[0]);
    assert("error"@[0] != "deferred"@[0]);
}

/// The parts the dependency key is made of: the parent's summary, the
/// snapshot's ordinal and the snapshot's counters.
pub open spec fn dependency_parts(c: ParentCandidate, record_ordinal: i64, b: TokenUsage) -> Seq<
    Seq<char>,
> {
    seq![
        c.path@,
        c.identity@,
        decimal_text(c.size as int),
        decimal_text(c.modified_ns as int),
        decimal_text(c.parsed_offset as int),
        match c.parsed_prefix_anchor {
            Some(a) => a@,
            None => Seq::empty(),
        },
        c.completion_state@,
        decimal_text(record_ordinal as int),
        decimal_text(b.input as int),
        decimal_text(b.cached_input as int),
        decimal_text(b.cache_write_input as int),
        decimal_text(b.output as int),
        decimal_text(b.reasoning_output as int),
        decimal_text(b.total as int),
    ]
}

/// The snapshot a child resolves to: the parent's last snapshot at or
/// before the fork, which must be a consistent counter.
pub fn resolved_parent_snapshot(c: &ParentCandidate, record_ordinal: i64, baseline: TokenUsage) -> (r:
    Result<ResolvedParentSnapshot, ()>)
    ensures
        r is Ok <==> valid_usage(baseline),
        r matches Ok(s) ==> s.baseline == baseline && s.dependency_key@ == fingerprint_of(
            dependency_bytes(dependency_parts(*c, record_ordinal, baseline)),
        ),
{
    baseline.validate()?;
    let size = decimal_string(c.size);
    let modified = decimal_string(c.modified_ns);
    let offset = decimal_string(c.parsed_offset);
    let ordinal = decimal_string(record_ordinal);
    let input = decimal_string_u64(baseline.input);
    let cached = decimal_string_u64(baseline.cached_input);
    let cache_write = decimal_string_u64(baseline.cache_write_input);
    let output = decimal_string_u64(baseline.output);
    let reasoning = decimal_string_u64(baseline.reasoning_output);
    let total = decimal_string_u64(baseline.total);
    let anchor: &str = match &c.parsed_prefix_anchor {
        Some(a) => a.as_str(),
        None => "",
    };
    proof {
        reveal_strlit("");
        assert(""@.len() == 0);
        assert(anchor@ =~= match c.parsed_prefix_anchor {
            Some(a) => a@,
            None => Seq::<char>::empty(),
        });
    }
    let parts = [
        c.path.as_str(),
        c.identity.as_str(),
        size.as_str(),
        modified.as_str(),
        offset.as_str(),
        anchor,
        c.completion_state.as_str(),
        ordinal.as_str(),
        input.as_str(),
        cached.as_str(),
        cache_write.as_str(),
        output.as_str(),
        reasoning.as_str(),
        total.as_str(),
    ];
    let dependency_key = private_dependency_key(&parts);
    proof {
        assert(parts@.len() == 14);
        assert(crate::fingerprint::part_chars(parts@) =~= dependency_parts(
            *c,
            record_ordinal,
            baseline,
        ));
    }
    Ok(ResolvedParentSnapshot { baseline, dependency_key })
}

/// The most parent links the lineage walk follows.
pub const MAX_LINEAGE_STEPS: u32 = 64;

/// A walk up a child's parent chain that fails as soon as it meets a file
/// twice, meets the child's own session, or follows too many links.
#[derive(Debug)]
pub struct LineageWalk {
    pub child_session_id: Option<String>,
    pub visited: Vec<String>,
    pub current_path: String,
    pub steps: u32,
}

/// What the walk needs looked up next, or its answer.
#[derive(Debug)]
pub enum LineageQuery {
    /// The parent session recorded for this file.
    ParentOf(String),
    /// The files (at most two) whose leaf session is this one.
    PathsOf(String),
    /// Whether the lineage is free of cycles.
    Acyclic(bool),
}

pub struct LineageWalkView {
    pub child_session_id: Option<Seq<char>>,
    pub visited: Seq<Seq<char>>,
    pub current_path: Seq<char>,
    pub steps: u32,
}

impl View for LineageWalk {
    type V = LineageWalkView;

    open spec fn view(&self) -> LineageWalkView {
        LineageWalkView {
            child_session_id: crate::cli::string_opt_view(self.child_session_id),
            visited: self.visited@.map_values(|p: String| p@),
            current_path: self.current_path@,
            steps: self.steps,
        }
    }
}

pub open spec fn query_view(q: LineageQuery) -> (int, Seq<char>, bool) {
    match q {
        LineageQuery::ParentOf(p) => (0, p@, false),
        LineageQuery::PathsOf(s) => (1, s@, false),
        LineageQuery::Acyclic(b) => (2, Seq::empty(), b),
    }
}

/// A walk never holds a file twice and never exceeds its step bound.
pub open spec fn walk_well_formed(w: LineageWalkView) -> bool {
    &&& w.steps <= MAX_LINEAGE_STEPS
    &&& w.visited.no_duplicates()
}

/// The next lookup of a walk: none after the step bound, and none for a
/// file already visited; otherwise the file is visited and its parent
/// session looked up.
pub open spec fn spec_walk_next(w: LineageWalkView) -> (LineageWalkView, (int, Seq<char>, bool)) {
    if w.steps >= MAX_LINEAGE_STEPS || w.visited.contains(w.current_path) {
        (w, (2, Seq::empty(), false))
    } else {
        (LineageWalkView { visited: w.visited.push(w.current_path), ..w }, (0, w.current_path, false))
    }
}

/// After the parent session of the current file: a root ends the walk as
/// acyclic; the child's own session is a cycle; any other session is looked
/// up by its files.
pub open spec fn spec_on_parent_session(w: LineageWalkView, next: Option<Seq<char>>) -> (
    int,
    Seq<char>,
    bool,
) {
    match next {
        None => (2, Seq::empty(), true),
        Some(id) => if w.child_session_id == Some(id) {
            (2, Seq::empty(), false)
        } else {
            (1, id, false)
        },
    }
}

impl LineageWalk {
    /// Starts at the parent of `child_path`.
    pub fn new(child_path: &str, parent_path: &str, child_session_id: Option<String>) -> (r: Self)
        ensures
            r@.child_session_id == crate::cli::string_opt_view(child_session_id),
            r@.visited == seq![child_path@],
            r@.current_path == parent_path@,
            r@.steps == 0,
            walk_well_formed(r@),
    {
        let mut visited = Vec::new();
        visited.push(child_path.to_owned());
        let r = LineageWalk {
            child_session_id,
            visited,
            current_path: parent_path.to_owned(),
            steps: 0,
        };
        assert(r@.visited =~= seq![child_path@]);
        r
    }

    fn has_visited(&self, path: &str) -> (r: bool)
        ensures
            r == self@.visited.contains(path@),
    {
        let ghost all = self@.visited;
        let mut i: usize = 0;
        while i < self.visited.len()
            invariant
                all == self@.visited,
                i <= self.visited@.len(),
                forall|k: int| 0 <= k < i ==> all[k] != path@,
            decreases self.visited@.len() - i,
        {
            if str_eq(self.visited[i].as_str(), path) {
                assert(all[i as int] == path@);
                return true;
            }
            i = i + 1;
        }
        false
    }

    /// The next lookup, or the answer.
    pub fn next(&mut self) -> (r: LineageQuery)
        requires
            walk_well_formed(old(self)@),
        ensures
            (final(self)@, query_view(r)) == spec_walk_next(old(self)@),
            walk_well_formed(final(self)@),
    {
        if self.steps >= MAX_LINEAGE_STEPS {
            return LineageQuery::Acyclic(false);
        }
        let current = self.current_path.clone();
        if self.has_visited(current.as_str()) {
            return LineageQuery::Acyclic(false);
        }
        let ghost before = self@.visited;
        self.visited.push(current.clone());
        assert(self@.visited =~= before.push(current@));
        proof {
            assert forall|a: int, b: int|
                0 <= a < b < self@.visited.len() implies self@.visited[a] != self@.visited[b] by {
                if b == before.len() {
                    assert(before[a] == self@.visited[a]);
                }
            }
        }
        LineageQuery::ParentOf(current)
    }

    /// Takes the parent session recorded for the current file.
    pub fn on_parent_session(&self, next: Option<String>) -> (r: LineageQuery)
        ensures
            query_view(r) == spec_on_parent_session(self@, crate::cli::string_opt_view(next)),
    {
        match next {
            None => LineageQuery::Acyclic(true),
            Some(id) => {
                let is_child = match &self.child_session_id {
                    Some(child) => str_eq(child.as_str(), id.as_str()),
                    None => false,
                };
                if is_child {
                    LineageQuery::Acyclic(false)
                } else {
                    LineageQuery::PathsOf(id)
                }
            },
        }
    }

    /// Takes the files whose leaf session is the parent session: exactly one
    /// is followed; none ends the walk as acyclic; several are ambiguous.
    pub fn on_paths(&mut self, paths: Vec<String>) -> (r: LineageQuery)
        requires
            walk_well_formed(old(self)@),
            old(self)@.steps < MAX_LINEAGE_STEPS,
        ensures
            walk_well_formed(final(self)@),
            paths@.len() == 1 ==> ({
                let moved = LineageWalkView {
                    current_path: paths@[0]@,
                    steps: (old(self)@.steps + 1) as u32,
                    ..old(self)@
                };
                (final(self)@, query_view(r)) == spec_walk_next(moved)
            }),
            paths@.len() != 1 ==> final(self)@ == old(self)@ && query_view(r) == (
                2int,
                Seq::<char>::empty(),
                paths@.len() == 0,
            ),
    {
        if paths.len() != 1 {
            return LineageQuery::Acyclic(paths.len() == 0);
        }
        self.current_path = paths[0].clone();
        self.steps = self.steps + 1;
        self.next()
    }
}

} // verus!
