//! The per-rollout parser state: which lineage a rollout has, which record
//! ordinals it owns, and when its counters may be counted.
use vstd::prelude::*;
use vstd::string::StringSliceAdditionalSpecFns;
use vstd::utf8::encode_utf8;

use crate::cli::{
    cli_minor, cli_minor_version, is_supported_cli_version, normalized_session_id,
    spec_is_supported_cli_version, spec_normalized_session_id, string_opt_view,
    MAX_REVIEWED_PROVIDER_ORDINAL_MINOR, MIN_REVIEWED_PROVIDER_ORDINAL_MINOR,
};
use crate::clock::{spec_timestamp_ns, timestamp_ns};
use crate::text::str_eq;
use crate::tokens::TokenUsage;

verus! {

broadcast use vstd::string::group_string_axioms;

/// How a rollout's counters relate to those of the thread it was forked
/// from.
#[derive(Clone, Copy, Debug, PartialEq, Eq, Structural)]
pub enum LineageMode {
    Unknown,
    Root,
    Discovering,
    ExplicitBoundary,
    Independent,
    ParentResolved,
    Unresolved,
}

/// Whether record ordinals come from the provider or are counted locally.
#[derive(Clone, Copy, Debug, PartialEq, Eq, Structural)]
pub enum ProviderOrdinalMode {
    Unknown,
    Legacy,
    Provider,
}

/// A field that may be absent but, when present, must decode.
#[derive(Clone, Copy, Debug, PartialEq, Eq)]
pub enum RequiredWhenPresent<T> {
    Missing,
    Present(T),
}

impl<T> RequiredWhenPresent<T> {
    pub fn as_ref(&self) -> (r: Option<&T>)
        ensures
            match *self {
                RequiredWhenPresent::Missing => r is None,
                RequiredWhenPresent::Present(v) => r == Some(&v),
            },
    {
        match self {
            RequiredWhenPresent::Missing => None,
            RequiredWhenPresent::Present(value) => Some(value),
        }
    }
}

pub open spec fn lineage_as_stored(mode: LineageMode) -> Seq<char> {
    match mode {
        LineageMode::Unknown => "unknown"@,
        LineageMode::Root => "root"@,
        LineageMode::Discovering => "discovering"@,
        LineageMode::ExplicitBoundary => "explicit-boundary"@,
        LineageMode::Independent => "independent"@,
        LineageMode::ParentResolved => "parent-resolved"@,
        LineageMode::Unresolved => "unresolved"@,
    }
}

pub open spec fn lineage_from_stored(value: Seq<char>) -> LineageMode {
    if value == "root"@ {
        LineageMode::Root
    } else if value == "discovering"@ {
        LineageMode::Discovering
    } else if value == "explicit-boundary"@ {
        LineageMode::ExplicitBoundary
    } else if value == "independent"@ {
        LineageMode::Independent
    } else if value == "parent-resolved"@ {
        LineageMode::ParentResolved
    } else if value == "unresolved"@ {
        LineageMode::Unresolved
    } else {
        LineageMode::Unknown
    }
}

impl LineageMode {
    pub fn as_stored(self) -> (r: &'static str)
        ensures
            r@ == lineage_as_stored(self),
    {
        match self {
            LineageMode::Unknown => "unknown",
            LineageMode::Root => "root",
            LineageMode::Discovering => "discovering",
            LineageMode::ExplicitBoundary => "explicit-boundary",
            LineageMode::Independent => "independent",
            LineageMode::ParentResolved => "parent-resolved",
            LineageMode::Unresolved => "unresolved",
        }
    }

    /// Reads a stored lineage; anything unrecognised is `Unknown`.
    pub fn from_stored(value: &str) -> (r: Self)
        ensures
            r == lineage_from_stored(value@),
    {
        if str_eq(value, "root") {
            LineageMode::Root
        } else if str_eq(value, "discovering") {
            LineageMode::Discovering
        } else if str_eq(value, "explicit-boundary") {
            LineageMode::ExplicitBoundary
        } else if str_eq(value, "independent") {
            LineageMode::Independent
        } else if str_eq(value, "parent-resolved") {
            LineageMode::ParentResolved
        } else if str_eq(value, "unresolved") {
            LineageMode::Unresolved
        } else {
            LineageMode::Unknown
        }
    }

    /// Lineages whose accounting rests on another rollout.
    pub fn needs_dependency_check(self) -> (r: bool)
        ensures
            r == (self == LineageMode::ParentResolved || self == LineageMode::Unresolved),
    {
        match self {
            LineageMode::ParentResolved | LineageMode::Unresolved => true,
            _ => false,
        }
    }
}

pub open spec fn ordinal_mode_as_stored(mode: ProviderOrdinalMode) -> Seq<char> {
    match mode {
        ProviderOrdinalMode::Unknown => "unknown"@,
        ProviderOrdinalMode::Legacy => "legacy"@,
        ProviderOrdinalMode::Provider => "provider"@,
    }
}

pub open spec fn ordinal_mode_from_stored(value: Seq<char>) -> Result<ProviderOrdinalMode, ()> {
    if value == "unknown"@ {
        Ok(ProviderOrdinalMode::Unknown)
    } else if value == "legacy"@ {
        Ok(ProviderOrdinalMode::Legacy)
    } else if value == "provider"@ {
        Ok(ProviderOrdinalMode::Provider)
    } else {
        Err(())
    }
}

impl ProviderOrdinalMode {
    pub fn as_stored(self) -> (r: &'static str)
        ensures
            r@ == ordinal_mode_as_stored(self),
    {
        match self {
            ProviderOrdinalMode::Unknown => "unknown",
            ProviderOrdinalMode::Legacy => "legacy",
            ProviderOrdinalMode::Provider => "provider",
        }
    }

    /// Reads a stored ordinal mode; anything unrecognised is rejected.
    pub fn from_stored(value: &str) -> (r: Result<Self, ()>)
        ensures
            r == ordinal_mode_from_stored(value@),
    {
        if str_eq(value, "unknown") {
            Ok(ProviderOrdinalMode::Unknown)
        } else if str_eq(value, "legacy") {
            Ok(ProviderOrdinalMode::Legacy)
        } else if str_eq(value, "provider") {
            Ok(ProviderOrdinalMode::Provider)
        } else {
            Err(())
        }
    }
}

/// Every lineage survives a round trip through its stored form.
pub proof fn law_lineage_stored_round_trip(mode: LineageMode)
    ensures
        lineage_from_stored(lineage_as_stored(mode)) == mode,
{
    reveal_strlit("unknown");
    reveal_strlit("root");
    reveal_strlit("discovering");
    reveal_strlit("explicit-boundary");
    reveal_strlit("independent");
    reveal_strlit("parent-resolved");
    reveal_strlit("unresolved");
    assert("unknown"@.len() == 7);
    assert("root"@.len() == 4);
    assert("discovering"@.len() == 11);
    assert("explicit-boundary"@.len() == 17);
    assert("independent"@.len() == 11);
    assert("parent-resolved"@.len() == 15);
    assert("unresolved"@.len() == 10);
    assert("discovering"@[0] != "independent"@[0]);
}

/// Every ordinal mode survives a round trip through its stored form.
pub proof fn law_ordinal_mode_stored_round_trip(mode: ProviderOrdinalMode)
    ensures
        ordinal_mode_from_stored(ordinal_mode_as_stored(mode)) == Ok::<ProviderOrdinalMode, ()>(
            mode,
        ),
{
    reveal_strlit("unknown");
    reveal_strlit("legacy");
    reveal_strlit("provider");
    assert("unknown"@.len() == 7);
    assert("legacy"@.len() == 6);
    assert("provider"@.len() == 8);
}

/// Where a session says it came from.
#[derive(Clone, Debug)]
pub enum ThreadSource {
    Name(String),
    /// A structured source; `subagent` records whether it names a subagent.
    Details { subagent: bool },
    Other,
}

pub open spec fn thread_source_is_subagent(source: ThreadSource) -> bool {
    match source {
        ThreadSource::Name(name) => name@ == "subagent"@,
        ThreadSource::Details { subagent } => subagent,
        ThreadSource::Other => false,
    }
}

impl ThreadSource {
    pub fn is_subagent(&self) -> (r: bool)
        ensures
            r == thread_source_is_subagent(*self),
    {
        match self {
            ThreadSource::Name(name) => str_eq(name.as_str(), "subagent"),
            ThreadSource::Details { subagent } => *subagent,
            ThreadSource::Other => false,
        }
    }
}

/// The paginated history a session continues.
#[derive(Clone, Copy, Debug, PartialEq, Eq, Structural)]
pub struct HistoryBase {
    pub end_ordinal_exclusive: u64,
}

/// The decoded payload of a `session_meta` record.
#[derive(Clone, Debug)]
pub struct SessionMeta {
    pub cli_version: String,
    pub history_mode: Option<String>,
    pub history_base: RequiredWhenPresent<HistoryBase>,
    pub id: Option<String>,
    pub timestamp: Option<String>,
    pub forked_from_id: Option<String>,
    pub thread_source: Option<ThreadSource>,
    pub source: Option<ThreadSource>,
    pub subagent_history_start_ordinal: Option<u64>,
}

pub open spec fn opt_source_is_subagent(source: Option<ThreadSource>) -> bool {
    match source {
        Some(s) => thread_source_is_subagent(s),
        None => false,
    }
}

/// Either the thread source or the source names a subagent.
pub open spec fn meta_is_subagent(m: SessionMeta) -> bool {
    opt_source_is_subagent(m.thread_source) || opt_source_is_subagent(m.source)
}

fn opt_source_is_subagent_exec(source: &Option<ThreadSource>) -> (r: bool)
    ensures
        r == opt_source_is_subagent(*source),
{
    match source {
        Some(s) => s.is_subagent(),
        None => false,
    }
}

/// The parser state carried from one rollout record to the next.
#[derive(Clone, Debug)]
pub struct RolloutScanState {
    pub active_model: Option<String>,
    pub active_turn_id: Option<String>,
    pub baseline_is_inherited: Option<bool>,
    pub history_start_ordinal: Option<u64>,
    pub record_ordinal: u64,
    pub provider_ordinal_mode: ProviderOrdinalMode,
    pub exclude_usage: bool,
    pub previous: Option<TokenUsage>,
    pub schema_supported: bool,
    pub lineage_mode: LineageMode,
    pub leaf_session_id: Option<String>,
    pub parent_session_id: Option<String>,
    pub parent_identity_explicit: bool,
    pub fork_timestamp_ns: Option<i64>,
    pub embedded_ancestor_seen: bool,
    pub lineage_invalid: bool,
    pub parent_dependency_key: Option<String>,
    pub parent_baseline: Option<TokenUsage>,
    pub last_turn_context_is_first: bool,
    pub last_turn_context_ordinal: Option<u64>,
    pub marker_based_boundary: bool,
    pub marker_candidate_invalidated: bool,
    pub marker_local_confirmation: Option<bool>,
    pub parser_error_seen: bool,
    pub snapshot_last_timestamp_ns: Option<i64>,
    pub snapshot_timestamp_regressed: bool,
    pub task_counter_reset_pending: bool,
}

/// The parser state with its identifiers read as character sequences.
pub struct ScanStateView {
    pub active_model: Option<Seq<char>>,
    pub active_turn_id: Option<Seq<char>>,
    pub baseline_is_inherited: Option<bool>,
    pub history_start_ordinal: Option<u64>,
    pub record_ordinal: u64,
    pub provider_ordinal_mode: ProviderOrdinalMode,
    pub exclude_usage: bool,
    pub previous: Option<TokenUsage>,
    pub schema_supported: bool,
    pub lineage_mode: LineageMode,
    pub leaf_session_id: Option<Seq<char>>,
    pub parent_session_id: Option<Seq<char>>,
    pub parent_identity_explicit: bool,
    pub fork_timestamp_ns: Option<i64>,
    pub embedded_ancestor_seen: bool,
    pub lineage_invalid: bool,
    pub parent_dependency_key: Option<Seq<char>>,
    pub parent_baseline: Option<TokenUsage>,
    pub last_turn_context_is_first: bool,
    pub last_turn_context_ordinal: Option<u64>,
    pub marker_based_boundary: bool,
    pub marker_candidate_invalidated: bool,
    pub marker_local_confirmation: Option<bool>,
    pub parser_error_seen: bool,
    pub snapshot_last_timestamp_ns: Option<i64>,
    pub snapshot_timestamp_regressed: bool,
    pub task_counter_reset_pending: bool,
}

impl View for RolloutScanState {
    type V = ScanStateView;

    open spec fn view(&self) -> ScanStateView {
        ScanStateView {
            active_model: string_opt_view(self.active_model),
            active_turn_id: string_opt_view(self.active_turn_id),
            baseline_is_inherited: self.baseline_is_inherited,
            history_start_ordinal: self.history_start_ordinal,
            record_ordinal: self.record_ordinal,
            provider_ordinal_mode: self.provider_ordinal_mode,
            exclude_usage: self.exclude_usage,
            previous: self.previous,
            schema_supported: self.schema_supported,
            lineage_mode: self.lineage_mode,
            leaf_session_id: string_opt_view(self.leaf_session_id),
            parent_session_id: string_opt_view(self.parent_session_id),
            parent_identity_explicit: self.parent_identity_explicit,
            fork_timestamp_ns: self.fork_timestamp_ns,
            embedded_ancestor_seen: self.embedded_ancestor_seen,
            lineage_invalid: self.lineage_invalid,
            parent_dependency_key: string_opt_view(self.parent_dependency_key),
            parent_baseline: self.parent_baseline,
            last_turn_context_is_first: self.last_turn_context_is_first,
            last_turn_context_ordinal: self.last_turn_context_ordinal,
            marker_based_boundary: self.marker_based_boundary,
            marker_candidate_invalidated: self.marker_candidate_invalidated,
            marker_local_confirmation: self.marker_local_confirmation,
            parser_error_seen: self.parser_error_seen,
            snapshot_last_timestamp_ns: self.snapshot_last_timestamp_ns,
            snapshot_timestamp_regressed: self.snapshot_timestamp_regressed,
            task_counter_reset_pending: self.task_counter_reset_pending,
        }
    }
}

/// The state before the first record of a rollout.
pub open spec fn initial_scan_state() -> ScanStateView {
    ScanStateView {
        active_model: None,
        active_turn_id: None,
        baseline_is_inherited: None,
        history_start_ordinal: None,
        record_ordinal: 0,
        provider_ordinal_mode: ProviderOrdinalMode::Unknown,
        exclude_usage: false,
        previous: None,
        schema_supported: false,
        lineage_mode: LineageMode::Unknown,
        leaf_session_id: None,
        parent_session_id: None,
        parent_identity_explicit: false,
        fork_timestamp_ns: None,
        embedded_ancestor_seen: false,
        lineage_invalid: false,
        parent_dependency_key: None,
        parent_baseline: None,
        last_turn_context_is_first: false,
        last_turn_context_ordinal: None,
        marker_based_boundary: false,
        marker_candidate_invalidated: false,
        marker_local_confirmation: None,
        parser_error_seen: false,
        snapshot_last_timestamp_ns: None,
        snapshot_timestamp_regressed: false,
        task_counter_reset_pending: false,
    }
}

impl RolloutScanState {
    pub fn new() -> (r: Self)
        ensures
            r@ == initial_scan_state(),
    {
        RolloutScanState {
            active_model: None,
            active_turn_id: None,
            baseline_is_inherited: None,
            history_start_ordinal: None,
            record_ordinal: 0,
            provider_ordinal_mode: ProviderOrdinalMode::Unknown,
            exclude_usage: false,
            previous: None,
            schema_supported: false,
            lineage_mode: LineageMode::Unknown,
            leaf_session_id: None,
            parent_session_id: None,
            parent_identity_explicit: false,
            fork_timestamp_ns: None,
            embedded_ancestor_seen: false,
            lineage_invalid: false,
            parent_dependency_key: None,
            parent_baseline: None,
            last_turn_context_is_first: false,
            last_turn_context_ordinal: None,
            marker_based_boundary: false,
            marker_candidate_invalidated: false,
            marker_local_confirmation: None,
            parser_error_seen: false,
            snapshot_last_timestamp_ns: None,
            snapshot_timestamp_regressed: false,
            task_counter_reset_pending: false,
        }
    }
}

/// Equality of two optional strings by their characters.
pub fn opt_str_eq(a: &Option<String>, b: &Option<String>) -> (r: bool)
    ensures
        r == (string_opt_view(*a) == string_opt_view(*b)),
{
    match (a, b) {
        (Some(x), Some(y)) => str_eq(x.as_str(), y.as_str()),
        (None, None) => true,
        _ => false,
    }
}

/// A copy of an optional string.
pub fn clone_opt_string(a: &Option<String>) -> (r: Option<String>)
    ensures
        string_opt_view(r) == string_opt_view(*a),
{
    match a {
        Some(x) => Some(x.clone()),
        None => None,
    }
}

/// `parent` is present and differs from `observed`.
pub open spec fn known_and_differs(parent: Option<Seq<char>>, observed: Seq<char>) -> bool {
    parent matches Some(p) && p != observed
}

fn known_and_differs_exec(parent: &Option<String>, observed: &String) -> (r: bool)
    ensures
        r == known_and_differs(string_opt_view(*parent), observed@),
{
    match parent {
        Some(p) => !str_eq(p.as_str(), observed.as_str()),
        None => false,
    }
}

/// The Unix nanoseconds of an optional timestamp, or of the record's own
/// timestamp when the metadata carries none.
pub open spec fn fork_timestamp_of(meta_timestamp: Option<Seq<char>>, line_timestamp: Seq<char>) -> Option<i64> {
    let source = match meta_timestamp {
        Some(t) => t,
        None => line_timestamp,
    };
    match spec_timestamp_ns(source) {
        Ok(n) => Some(n),
        Err(_) => None,
    }
}

/// Adopts an ancestor identity seen inside a rollout as its inferred
/// parent, unless an explicit or different parent is already known.
pub open spec fn adopt_inferred_parent(s: ScanStateView, observed: Option<Seq<char>>) -> ScanStateView {
    match observed {
        Some(obs) => if !s.parent_identity_explicit {
            if known_and_differs(s.parent_session_id, obs) {
                ScanStateView { lineage_invalid: true, ..s }
            } else {
                ScanStateView { parent_session_id: Some(obs), ..s }
            }
        } else {
            s
        },
        None => ScanStateView { lineage_invalid: true, ..s },
    }
}

/// What one `session_meta` record says, read once.
pub struct MetaFacts {
    pub supported: bool,
    pub observed_id: Option<Seq<char>>,
    pub observed_parent_id: Option<Seq<char>>,
    pub malformed_parent_id: bool,
    pub observed_fork: Option<i64>,
    pub timestamp_invalid: bool,
    pub is_subagent: bool,
}

#[verifier::opaque]
pub open spec fn meta_facts(m: SessionMeta, line_timestamp: Seq<char>) -> MetaFacts {
    let observed_parent_id = spec_normalized_session_id(string_opt_view(m.forked_from_id));
    MetaFacts {
        supported: spec_is_supported_cli_version(encode_utf8(m.cli_version@)),
        observed_id: spec_normalized_session_id(string_opt_view(m.id)),
        observed_parent_id,
        malformed_parent_id: m.forked_from_id is Some && observed_parent_id is None,
        observed_fork: fork_timestamp_of(string_opt_view(m.timestamp), line_timestamp),
        timestamp_invalid: m.timestamp matches Some(t) && spec_timestamp_ns(t@) is Err,
        is_subagent: meta_is_subagent(m),
    }
}

/// The first metadata of a rollout classifies it: a root, a child with an
/// explicit history boundary, or a child whose boundary is still unknown.
#[verifier::opaque]
pub open spec fn spec_first_metadata(s: ScanStateView, m: SessionMeta, f: MetaFacts) -> ScanStateView {
    let is_inherited = m.forked_from_id is Some || f.is_subagent;
    let start = m.subagent_history_start_ordinal;
    let mode = if !is_inherited {
        LineageMode::Root
    } else if start is Some {
        LineageMode::ExplicitBoundary
    } else {
        LineageMode::Discovering
    };
    let s1 = ScanStateView {
        schema_supported: f.supported,
        baseline_is_inherited: Some(is_inherited),
        history_start_ordinal: start,
        exclude_usage: is_inherited && start is None,
        leaf_session_id: f.observed_id,
        lineage_mode: mode,
        ..s
    };
    if mode == LineageMode::Discovering {
        ScanStateView {
            parent_session_id: f.observed_parent_id,
            parent_identity_explicit: f.observed_parent_id is Some,
            fork_timestamp_ns: f.observed_fork,
            lineage_invalid: f.observed_id is None || f.observed_fork is None
                || f.malformed_parent_id || (f.observed_parent_id is Some && f.observed_parent_id
                == f.observed_id) || f.timestamp_invalid,
            ..s1
        }
    } else {
        s1
    }
}

/// Later metadata of a rollout whose boundary is still being discovered.
#[verifier::opaque]
pub open spec fn spec_discovering_metadata(s1: ScanStateView, f: MetaFacts) -> ScanStateView {
    match (s1.leaf_session_id, f.observed_id) {
        (Some(leaf), Some(obs)) => if leaf == obs {
            if f.malformed_parent_id {
                ScanStateView { lineage_invalid: true, ..s1 }
            } else {
                match f.observed_parent_id {
                    Some(op) => if s1.parent_identity_explicit && known_and_differs(
                        s1.parent_session_id,
                        op,
                    ) {
                        ScanStateView { lineage_invalid: true, ..s1 }
                    } else {
                        ScanStateView {
                            parent_session_id: Some(op),
                            parent_identity_explicit: true,
                            fork_timestamp_ns: f.observed_fork,
                            lineage_invalid: s1.lineage_invalid || f.observed_fork is None,
                            ..s1
                        }
                    },
                    None => s1,
                }
            }
        } else {
            let s2 = ScanStateView { embedded_ancestor_seen: true, ..s1 };
            let s3 = if s2.marker_based_boundary {
                ScanStateView {
                    marker_candidate_invalidated: true,
                    history_start_ordinal: None,
                    parent_baseline: None,
                    marker_local_confirmation: None,
                    ..s2
                }
            } else {
                s2
            };
            adopt_inferred_parent(s3, Some(obs))
        },
        _ => ScanStateView { lineage_invalid: true, ..s1 },
    }
}

/// Later metadata of a rollout whose boundary came from a marker: another
/// identity reopens discovery.
#[verifier::opaque]
pub open spec fn spec_marker_boundary_metadata(s1: ScanStateView, f: MetaFacts) -> ScanStateView {
    if f.observed_id != s1.leaf_session_id {
        adopt_inferred_parent(
            ScanStateView {
                lineage_mode: LineageMode::Discovering,
                embedded_ancestor_seen: true,
                marker_candidate_invalidated: true,
                history_start_ordinal: None,
                parent_baseline: None,
                marker_local_confirmation: None,
                exclude_usage: true,
                ..s1
            },
            f.observed_id,
        )
    } else {
        s1
    }
}

/// Later metadata of a rollout counted as an independent counter.
#[verifier::opaque]
pub open spec fn spec_independent_metadata(s1: ScanStateView, m: SessionMeta, f: MetaFacts) -> ScanStateView {
    if f.observed_id != s1.leaf_session_id {
        adopt_inferred_parent(
            ScanStateView {
                lineage_mode: LineageMode::Discovering,
                embedded_ancestor_seen: true,
                marker_candidate_invalidated: true,
                exclude_usage: true,
                ..s1
            },
            f.observed_id,
        )
    } else if f.malformed_parent_id {
        ScanStateView {
            lineage_mode: LineageMode::Discovering,
            marker_candidate_invalidated: true,
            exclude_usage: true,
            lineage_invalid: true,
            parent_dependency_key: None,
            parent_baseline: None,
            ..s1
        }
    } else if m.subagent_history_start_ordinal is Some {
        ScanStateView {
            lineage_mode: LineageMode::Discovering,
            history_start_ordinal: m.subagent_history_start_ordinal,
            marker_based_boundary: false,
            marker_candidate_invalidated: true,
            exclude_usage: true,
            ..s1
        }
    } else if f.observed_parent_id is Some && (f.observed_parent_id != s1.parent_session_id
        || f.observed_fork != s1.fork_timestamp_ns) {
        ScanStateView {
            lineage_mode: LineageMode::Discovering,
            marker_candidate_invalidated: true,
            exclude_usage: true,
            parent_session_id: f.observed_parent_id,
            parent_identity_explicit: true,
            fork_timestamp_ns: f.observed_fork,
            parent_dependency_key: None,
            parent_baseline: None,
            lineage_invalid: s1.lineage_invalid || f.observed_fork is None || f.observed_parent_id
                == s1.leaf_session_id,
            ..s1
        }
    } else {
        s1
    }
}

/// Later metadata of a rollout resolved against its parent's snapshot: an
/// unknown identity, a different parent or a moved fork reopens discovery.
#[verifier::opaque]
pub open spec fn spec_parent_resolved_metadata(s1: ScanStateView, f: MetaFacts) -> ScanStateView {
    let same_leaf = f.observed_id == s1.leaf_session_id;
    let known_identity = same_leaf || f.observed_id == s1.parent_session_id || (
    s1.parent_identity_explicit && f.observed_id is Some);
    let parent_conflicts = same_leaf && f.observed_parent_id is Some && f.observed_parent_id
        != s1.parent_session_id;
    let fork_changed = same_leaf && f.observed_parent_id == s1.parent_session_id
        && f.observed_parent_id is Some && f.observed_fork != s1.fork_timestamp_ns;
    let s2 = if same_leaf && f.observed_parent_id == s1.parent_session_id
        && f.observed_parent_id is Some {
        ScanStateView { parent_identity_explicit: true, ..s1 }
    } else {
        s1
    };
    if !known_identity || parent_conflicts || (same_leaf && f.malformed_parent_id) {
        ScanStateView {
            lineage_mode: LineageMode::Discovering,
            marker_candidate_invalidated: true,
            exclude_usage: true,
            lineage_invalid: true,
            parent_dependency_key: None,
            parent_baseline: None,
            ..s2
        }
    } else if fork_changed {
        ScanStateView {
            lineage_mode: LineageMode::Discovering,
            marker_candidate_invalidated: true,
            exclude_usage: true,
            fork_timestamp_ns: f.observed_fork,
            parent_dependency_key: None,
            parent_baseline: None,
            ..s2
        }
    } else {
        s2
    }
}

/// The state after one `session_meta` record, and whether the record is
/// acceptable: the first metadata classifies the rollout; later metadata
/// can only narrow it, moving it back to discovery and excluding its usage
/// when identities disagree.
pub open spec fn spec_apply_session_metadata(
    s: ScanStateView,
    m: SessionMeta,
    line_timestamp: Seq<char>,
) -> (ScanStateView, bool) {
    let f = meta_facts(m, line_timestamp);
    let next = if s.baseline_is_inherited is None {
        spec_first_metadata(s, m, f)
    } else {
        let s1 = if f.observed_id == s.leaf_session_id {
            ScanStateView { schema_supported: s.schema_supported && f.supported, ..s }
        } else {
            s
        };
        if s1.lineage_mode == LineageMode::Discovering {
            spec_discovering_metadata(s1, f)
        } else if s1.lineage_mode == LineageMode::ExplicitBoundary && s1.marker_based_boundary {
            spec_marker_boundary_metadata(s1, f)
        } else if s1.lineage_mode == LineageMode::Independent {
            spec_independent_metadata(s1, m, f)
        } else if s1.lineage_mode == LineageMode::ParentResolved {
            spec_parent_resolved_metadata(s1, f)
        } else {
            s1
        }
    };
    (next, next.schema_supported || next.exclude_usage)
}

fn adopt_inferred_parent_exec(state: &mut RolloutScanState, observed: Option<String>)
    ensures
        final(state)@ == adopt_inferred_parent(old(state)@, string_opt_view(observed)),
{
    match observed {
        Some(obs) => {
            if !state.parent_identity_explicit {
                if known_and_differs_exec(&state.parent_session_id, &obs) {
                    state.lineage_invalid = true;
                } else {
                    state.parent_session_id = Some(obs);
                }
            }
        },
        None => {
            state.lineage_invalid = true;
        },
    }
}

/// Exec values of the facts of one metadata record.
struct MetaValues {
    supported: bool,
    observed_id: Option<String>,
    observed_parent_id: Option<String>,
    malformed_parent_id: bool,
    observed_fork: Option<i64>,
    timestamp_invalid: bool,
    is_subagent: bool,
}

spec fn values_match(v: MetaValues, f: MetaFacts) -> bool {
    &&& v.supported == f.supported
    &&& string_opt_view(v.observed_id) == f.observed_id
    &&& string_opt_view(v.observed_parent_id) == f.observed_parent_id
    &&& v.malformed_parent_id == f.malformed_parent_id
    &&& v.observed_fork == f.observed_fork
    &&& v.timestamp_invalid == f.timestamp_invalid
    &&& v.is_subagent == f.is_subagent
}

fn read_meta_values(metadata: &SessionMeta, line_timestamp: &str) -> (v: MetaValues)
    ensures
        values_match(v, meta_facts(*metadata, line_timestamp@)),
{
    reveal(meta_facts);
    let supported = is_supported_cli_version(metadata.cli_version.as_str());
    let observed_id = normalized_session_id(clone_opt_string(&metadata.id));
    let observed_parent_id = normalized_session_id(clone_opt_string(&metadata.forked_from_id));
    let malformed_parent_id = metadata.forked_from_id.is_some() && observed_parent_id.is_none();
    let fork_source = match &metadata.timestamp {
        Some(t) => t.as_str(),
        None => line_timestamp,
    };
    let observed_fork = match timestamp_ns(fork_source) {
        Ok(n) => Some(n),
        Err(()) => None,
    };
    let timestamp_invalid = match &metadata.timestamp {
        Some(t) => timestamp_ns(t.as_str()).is_err(),
        None => false,
    };
    let is_subagent = opt_source_is_subagent_exec(&metadata.thread_source)
        || opt_source_is_subagent_exec(&metadata.source);
    MetaValues {
        supported,
        observed_id,
        observed_parent_id,
        malformed_parent_id,
        observed_fork,
        timestamp_invalid,
        is_subagent,
    }
}

#[verifier::rlimit(50)]
fn apply_first_metadata(
    state: &mut RolloutScanState,
    metadata: &SessionMeta,
    v: MetaValues,
    Ghost(f): Ghost<MetaFacts>,
)
    requires
        values_match(v, f),
    ensures
        final(state)@ == spec_first_metadata(old(state)@, *metadata, f),
{
    reveal(spec_first_metadata);
    state.schema_supported = v.supported;
    let is_inherited = metadata.forked_from_id.is_some() || v.is_subagent;
    state.baseline_is_inherited = Some(is_inherited);
    state.history_start_ordinal = metadata.subagent_history_start_ordinal;
    state.exclude_usage = is_inherited && state.history_start_ordinal.is_none();
    state.leaf_session_id = clone_opt_string(&v.observed_id);
    state.lineage_mode = if !is_inherited {
        LineageMode::Root
    } else if state.history_start_ordinal.is_some() {
        LineageMode::ExplicitBoundary
    } else {
        LineageMode::Discovering
    };
    if state.lineage_mode == LineageMode::Discovering {
        let self_parent = v.observed_parent_id.is_some() && opt_str_eq(
            &v.observed_parent_id,
            &v.observed_id,
        );
        state.parent_identity_explicit = v.observed_parent_id.is_some();
        state.parent_session_id = v.observed_parent_id;
        state.fork_timestamp_ns = v.observed_fork;
        state.lineage_invalid = v.observed_id.is_none() || v.observed_fork.is_none()
            || v.malformed_parent_id || self_parent || v.timestamp_invalid;
    }
}

#[verifier::rlimit(50)]
fn apply_discovering_metadata(state: &mut RolloutScanState, v: MetaValues, Ghost(f): Ghost<MetaFacts>)
    requires
        values_match(v, f),
    ensures
        final(state)@ == spec_discovering_metadata(old(state)@, f),
{
    reveal(spec_discovering_metadata);
    let same = match (&state.leaf_session_id, &v.observed_id) {
        (Some(leaf), Some(obs)) => Some(str_eq(leaf.as_str(), obs.as_str())),
        _ => None,
    };
    match same {
        Some(true) => {
            if v.malformed_parent_id {
                state.lineage_invalid = true;
            } else {
                match v.observed_parent_id {
                    Some(op) => {
                        if state.parent_identity_explicit && known_and_differs_exec(
                            &state.parent_session_id,
                            &op,
                        ) {
                            state.lineage_invalid = true;
                        } else {
                            state.parent_session_id = Some(op);
                            state.parent_identity_explicit = true;
                            state.fork_timestamp_ns = v.observed_fork;
                            state.lineage_invalid = state.lineage_invalid
                                || v.observed_fork.is_none();
                        }
                    },
                    None => {},
                }
            }
        },
        Some(false) => {
            state.embedded_ancestor_seen = true;
            if state.marker_based_boundary {
                state.marker_candidate_invalidated = true;
                state.history_start_ordinal = None;
                state.parent_baseline = None;
                state.marker_local_confirmation = None;
            }
            adopt_inferred_parent_exec(state, v.observed_id);
        },
        None => {
            state.lineage_invalid = true;
        },
    }
}

#[verifier::rlimit(50)]
fn apply_marker_boundary_metadata(
    state: &mut RolloutScanState,
    v: MetaValues,
    Ghost(f): Ghost<MetaFacts>,
)
    requires
        values_match(v, f),
    ensures
        final(state)@ == spec_marker_boundary_metadata(old(state)@, f),
{
    reveal(spec_marker_boundary_metadata);
    if !opt_str_eq(&v.observed_id, &state.leaf_session_id) {
        state.lineage_mode = LineageMode::Discovering;
        state.embedded_ancestor_seen = true;
        state.marker_candidate_invalidated = true;
        state.history_start_ordinal = None;
        state.parent_baseline = None;
        state.marker_local_confirmation = None;
        state.exclude_usage = true;
        adopt_inferred_parent_exec(state, v.observed_id);
    }
}

#[verifier::rlimit(50)]
fn apply_independent_metadata(
    state: &mut RolloutScanState,
    metadata: &SessionMeta,
    v: MetaValues,
    Ghost(f): Ghost<MetaFacts>,
)
    requires
        values_match(v, f),
    ensures
        final(state)@ == spec_independent_metadata(old(state)@, *metadata, f),
{
    reveal(spec_independent_metadata);
    if !opt_str_eq(&v.observed_id, &state.leaf_session_id) {
        state.lineage_mode = LineageMode::Discovering;
        state.embedded_ancestor_seen = true;
        state.marker_candidate_invalidated = true;
        state.exclude_usage = true;
        adopt_inferred_parent_exec(state, v.observed_id);
    } else if v.malformed_parent_id {
        state.lineage_mode = LineageMode::Discovering;
        state.marker_candidate_invalidated = true;
        state.exclude_usage = true;
        state.lineage_invalid = true;
        state.parent_dependency_key = None;
        state.parent_baseline = None;
    } else if metadata.subagent_history_start_ordinal.is_some() {
        state.lineage_mode = LineageMode::Discovering;
        state.history_start_ordinal = metadata.subagent_history_start_ordinal;
        state.marker_based_boundary = false;
        state.marker_candidate_invalidated = true;
        state.exclude_usage = true;
    } else if v.observed_parent_id.is_some() && (!opt_str_eq(
        &v.observed_parent_id,
        &state.parent_session_id,
    ) || v.observed_fork != state.fork_timestamp_ns) {
        let parent_is_leaf = opt_str_eq(&v.observed_parent_id, &state.leaf_session_id);
        state.lineage_mode = LineageMode::Discovering;
        state.marker_candidate_invalidated = true;
        state.exclude_usage = true;
        state.parent_session_id = v.observed_parent_id;
        state.parent_identity_explicit = true;
        state.fork_timestamp_ns = v.observed_fork;
        state.parent_dependency_key = None;
        state.parent_baseline = None;
        state.lineage_invalid = state.lineage_invalid || v.observed_fork.is_none()
            || parent_is_leaf;
    }
}

#[verifier::rlimit(100)]
#[verifier::spinoff_prover]
fn apply_parent_resolved_metadata(
    state: &mut RolloutScanState,
    v: MetaValues,
    Ghost(f): Ghost<MetaFacts>,
)
    requires
        values_match(v, f),
    ensures
        final(state)@ == spec_parent_resolved_metadata(old(state)@, f),
{
    reveal(spec_parent_resolved_metadata);
    let same_leaf = opt_str_eq(&v.observed_id, &state.leaf_session_id);
    let same_parent = opt_str_eq(&v.observed_parent_id, &state.parent_session_id);
    let known_identity = same_leaf || opt_str_eq(&v.observed_id, &state.parent_session_id) || (
    state.parent_identity_explicit && v.observed_id.is_some());
    let parent_conflicts = same_leaf && v.observed_parent_id.is_some() && !same_parent;
    let fork_changed = same_leaf && same_parent && v.observed_parent_id.is_some()
        && v.observed_fork != state.fork_timestamp_ns;
    if same_leaf && same_parent && v.observed_parent_id.is_some() {
        state.parent_identity_explicit = true;
    }
    if !known_identity || parent_conflicts || (same_leaf && v.malformed_parent_id) {
        state.lineage_mode = LineageMode::Discovering;
        state.marker_candidate_invalidated = true;
        state.exclude_usage = true;
        state.lineage_invalid = true;
        state.parent_dependency_key = None;
        state.parent_baseline = None;
    } else if fork_changed {
        state.lineage_mode = LineageMode::Discovering;
        state.marker_candidate_invalidated = true;
        state.exclude_usage = true;
        state.fork_timestamp_ns = v.observed_fork;
        state.parent_dependency_key = None;
        state.parent_baseline = None;
    }
}

/// Applies one `session_meta` record to the rollout state. An unsupported
/// inherited rollout can fast-forward safely; a supported inherited rollout
/// stays excluded while the index looks for a boundary.
#[verifier::rlimit(100)]
#[verifier::spinoff_prover]
pub fn apply_session_metadata(
    state: &mut RolloutScanState,
    metadata: SessionMeta,
    line_timestamp: &str,
) -> (r: Result<(), ()>)
    ensures
        final(state)@ == spec_apply_session_metadata(old(state)@, metadata, line_timestamp@).0,
        r is Ok <==> spec_apply_session_metadata(old(state)@, metadata, line_timestamp@).1,
{
    let ghost f = meta_facts(metadata, line_timestamp@);
    let v = read_meta_values(&metadata, line_timestamp);
    let ghost s0 = state@;
    if state.baseline_is_inherited.is_none() {
        apply_first_metadata(state, &metadata, v, Ghost(f));
    } else {
        if opt_str_eq(&v.observed_id, &state.leaf_session_id) {
            state.schema_supported = state.schema_supported && v.supported;
        }
        assert(state@ == (if f.observed_id == s0.leaf_session_id {
            ScanStateView { schema_supported: s0.schema_supported && f.supported, ..s0 }
        } else {
            s0
        }));
        if state.lineage_mode == LineageMode::Discovering {
            apply_discovering_metadata(state, v, Ghost(f));
        } else if state.lineage_mode == LineageMode::ExplicitBoundary
            && state.marker_based_boundary {
            apply_marker_boundary_metadata(state, v, Ghost(f));
        } else if state.lineage_mode == LineageMode::Independent {
            apply_independent_metadata(state, &metadata, v, Ghost(f));
        } else if state.lineage_mode == LineageMode::ParentResolved {
            apply_parent_resolved_metadata(state, v, Ghost(f));
        }
    }
    if state.schema_supported || state.exclude_usage {
        Ok(())
    } else {
        Err(())
    }
}

/// The decoded payload of an `inter_agent_communication_metadata` record.
#[derive(Clone, Copy, Debug, PartialEq, Eq, Structural)]
pub struct InterAgentCommunication {
    pub trigger_turn: Option<bool>,
}

/// A trigger turn directly after the first turn context of a discovering
/// child marks where the child's own history starts.
pub open spec fn inter_agent_boundary_applies(
    s: ScanStateView,
    record_ordinal: u64,
    trigger_turn: Option<bool>,
) -> bool {
    &&& trigger_turn == Some(true)
    &&& s.schema_supported
    &&& s.baseline_is_inherited == Some(true)
    &&& s.lineage_mode == LineageMode::Discovering
    &&& s.history_start_ordinal is None
    &&& (s.embedded_ancestor_seen || s.last_turn_context_is_first)
    &&& (s.previous is Some || (!s.embedded_ancestor_seen && s.last_turn_context_is_first))
    &&& (s.embedded_ancestor_seen || (s.previous matches Some(b) ==> b.total > 0))
    &&& s.last_turn_context_ordinal matches Some(o) && o + 1 == record_ordinal
    &&& record_ordinal < u64::MAX
}

pub open spec fn spec_apply_inter_agent_boundary(
    s: ScanStateView,
    record_ordinal: u64,
    metadata: InterAgentCommunication,
) -> ScanStateView {
    if inter_agent_boundary_applies(s, record_ordinal, metadata.trigger_turn) {
        ScanStateView {
            history_start_ordinal: Some((record_ordinal + 1) as u64),
            parent_baseline: Some(
                match s.previous {
                    Some(p) => p,
                    None => crate::tokens::zero_usage(),
                },
            ),
            marker_local_confirmation: None,
            marker_based_boundary: true,
            ..s
        }
    } else {
        s
    }
}

/// Records a subagent history boundary. The copied cumulative prefix stays
/// only as the child's delta baseline, so append and restart scans agree.
pub fn apply_inter_agent_boundary(
    state: &mut RolloutScanState,
    record_ordinal: u64,
    metadata: InterAgentCommunication,
)
    ensures
        final(state)@ == spec_apply_inter_agent_boundary(old(state)@, record_ordinal, metadata),
{
    let ordinal_follows = match state.last_turn_context_ordinal {
        Some(o) => o < u64::MAX && o + 1 == record_ordinal,
        None => false,
    };
    let baseline_positive = match state.previous {
        Some(b) => b.total > 0,
        None => true,
    };
    if metadata.trigger_turn == Some(true) && state.schema_supported
        && state.baseline_is_inherited == Some(true) && state.lineage_mode
        == LineageMode::Discovering && state.history_start_ordinal.is_none() && (
    state.embedded_ancestor_seen || state.last_turn_context_is_first) && (state.previous.is_some()
        || (!state.embedded_ancestor_seen && state.last_turn_context_is_first)) && (
    state.embedded_ancestor_seen || baseline_positive) && ordinal_follows && record_ordinal
        < u64::MAX {
        state.history_start_ordinal = Some(record_ordinal + 1);
        state.parent_baseline = Some(
            match state.previous {
                Some(p) => p,
                None => TokenUsage::zero(),
            },
        );
        state.marker_local_confirmation = None;
        state.marker_based_boundary = true;
    }
}

/// `timestamp` is strictly before `fork`, both known.
pub open spec fn precedes(fork: Option<i64>, timestamp: Option<i64>) -> bool {
    fork matches Some(f) && timestamp matches Some(t) && t < f
}

/// Records the rollout copied from an ancestor rather than produced itself.
pub open spec fn spec_is_unowned_copied_prefix(
    s: ScanStateView,
    record_ordinal: u64,
    timestamp_ns: Option<i64>,
) -> bool {
    if s.lineage_mode == LineageMode::ParentResolved && s.baseline_is_inherited == Some(true)
        && precedes(s.fork_timestamp_ns, timestamp_ns) {
        true
    } else if s.baseline_is_inherited == Some(true) && (s.history_start_ordinal matches Some(
        start,
    ) && record_ordinal < start) {
        true
    } else {
        s.lineage_mode == LineageMode::Discovering && !(s.marker_based_boundary
            && (s.history_start_ordinal matches Some(start) && record_ordinal >= start))
    }
}

fn precedes_exec(fork: Option<i64>, timestamp: Option<i64>) -> (r: bool)
    ensures
        r == precedes(fork, timestamp),
{
    match (fork, timestamp) {
        (Some(f), Some(t)) => t < f,
        _ => false,
    }
}

/// Whether a record belongs to the prefix a child copied from its parent.
pub fn is_unowned_copied_prefix(
    state: &RolloutScanState,
    record_ordinal: u64,
    timestamp_ns: Option<i64>,
) -> (r: bool)
    ensures
        r == spec_is_unowned_copied_prefix(state@, record_ordinal, timestamp_ns),
{
    if state.lineage_mode == LineageMode::ParentResolved && state.baseline_is_inherited == Some(
        true,
    ) && precedes_exec(state.fork_timestamp_ns, timestamp_ns) {
        return true;
    }
    let before_start = match state.history_start_ordinal {
        Some(start) => record_ordinal < start,
        None => false,
    };
    if state.baseline_is_inherited == Some(true) && before_start {
        return true;
    }
    let after_marker = match state.history_start_ordinal {
        Some(start) => record_ordinal >= start,
        None => false,
    };
    state.lineage_mode == LineageMode::Discovering && !(state.marker_based_boundary
        && after_marker)
}

pub open spec fn spec_record_precedes_parent_fork(s: ScanStateView, timestamp_ns: Option<i64>) -> bool {
    s.lineage_mode == LineageMode::ParentResolved && precedes(s.fork_timestamp_ns, timestamp_ns)
}

/// Whether a record of a parent-resolved child predates the fork.
pub fn record_precedes_parent_fork(state: &RolloutScanState, timestamp_ns: Option<i64>) -> (r: bool)
    ensures
        r == spec_record_precedes_parent_fork(state@, timestamp_ns),
{
    state.lineage_mode == LineageMode::ParentResolved && precedes_exec(
        state.fork_timestamp_ns,
        timestamp_ns,
    )
}

/// `value` is absent or equal to `expected`.
pub open spec fn none_or_eq(value: Option<Seq<char>>, expected: Seq<char>) -> bool {
    value matches Some(v) ==> v == expected
}

fn none_or_eq_exec(value: &Option<String>, expected: &str) -> (r: bool)
    ensures
        r == none_or_eq(string_opt_view(*value), expected@),
{
    match value {
        Some(v) => str_eq(v.as_str(), expected),
        None => true,
    }
}

fn opt_eq_str(value: &Option<String>, expected: &str) -> (r: bool)
    ensures
        r == (string_opt_view(*value) == Some(expected@)),
{
    match value {
        Some(v) => str_eq(v.as_str(), expected),
        None => false,
    }
}

/// A `session_meta` first record of a reviewed paginated release whose
/// provider ordinal starts where its history base ends.
pub open spec fn spec_reviewed_provider_ordinal_origin(
    meta: Option<SessionMeta>,
    record_type: Seq<char>,
    ordinal: u64,
) -> bool {
    &&& record_type == "session_meta"@
    &&& meta matches Some(m)
    &&& cli_minor(encode_utf8(m.cli_version@)) matches Some(minor)
        && MIN_REVIEWED_PROVIDER_ORDINAL_MINOR <= minor <= MAX_REVIEWED_PROVIDER_ORDINAL_MINOR
    &&& string_opt_view(m.history_mode) == Some("paginated"@)
    &&& match m.history_base {
        RequiredWhenPresent::Present(base) => base.end_ordinal_exclusive == ordinal,
        RequiredWhenPresent::Missing => ordinal == 0,
    }
}

/// A `session_meta` first record of a reviewed release that numbers its
/// records locally.
pub open spec fn spec_reviewed_legacy_ordinal_origin(
    meta: Option<SessionMeta>,
    record_type: Seq<char>,
) -> bool {
    &&& record_type == "session_meta"@
    &&& meta matches Some(m)
    &&& m.history_base is Missing
    &&& {
        let mode = string_opt_view(m.history_mode);
        match cli_minor(encode_utf8(m.cli_version@)) {
            Some(minor) if minor == 148 => mode == Some("legacy"@),
            Some(minor) if 130 <= minor <= 147 => none_or_eq(mode, "legacy"@),
            Some(minor) if 149 <= minor <= MAX_REVIEWED_PROVIDER_ORDINAL_MINOR => false,
            _ => meta_is_subagent(m) && none_or_eq(mode, "legacy"@),
        }
    }
}

pub fn reviewed_provider_ordinal_origin(
    meta: Option<&SessionMeta>,
    record_type: &str,
    ordinal: u64,
) -> (r: bool)
    ensures
        r == spec_reviewed_provider_ordinal_origin(
            match meta {
                Some(m) => Some(*m),
                None => None,
            },
            record_type@,
            ordinal,
        ),
{
    if !str_eq(record_type, "session_meta") {
        return false;
    }
    let m = match meta {
        Some(m) => m,
        None => return false,
    };
    let reviewed = match cli_minor_version(m.cli_version.as_str()) {
        Some(minor) => MIN_REVIEWED_PROVIDER_ORDINAL_MINOR <= minor && minor
            <= MAX_REVIEWED_PROVIDER_ORDINAL_MINOR,
        None => false,
    };
    if !reviewed || !opt_eq_str(&m.history_mode, "paginated") {
        return false;
    }
    match m.history_base {
        RequiredWhenPresent::Present(base) => base.end_ordinal_exclusive == ordinal,
        RequiredWhenPresent::Missing => ordinal == 0,
    }
}

pub fn reviewed_legacy_ordinal_origin(meta: Option<&SessionMeta>, record_type: &str) -> (r: bool)
    ensures
        r == spec_reviewed_legacy_ordinal_origin(
            match meta {
                Some(m) => Some(*m),
                None => None,
            },
            record_type@,
        ),
{
    if !str_eq(record_type, "session_meta") {
        return false;
    }
    let m = match meta {
        Some(m) => m,
        None => return false,
    };
    if m.history_base.as_ref().is_some() {
        return false;
    }
    match cli_minor_version(m.cli_version.as_str()) {
        Some(minor) if minor == 148 => opt_eq_str(&m.history_mode, "legacy"),
        Some(minor) if 130 <= minor && minor <= 147 => none_or_eq_exec(&m.history_mode, "legacy"),
        Some(minor) if 149 <= minor && minor <= MAX_REVIEWED_PROVIDER_ORDINAL_MINOR => false,
        _ => (opt_source_is_subagent_exec(&m.thread_source) || opt_source_is_subagent_exec(
            &m.source,
        )) && none_or_eq_exec(&m.history_mode, "legacy"),
    }
}

/// The ordinal of a record and the ordinal mode after it. The first record
/// decides whether the rollout numbers its records itself or carries
/// reviewed provider ordinals; afterwards every record must carry exactly
/// the expected ordinal in that mode.
pub open spec fn spec_effective_record_ordinal(
    expected: u64,
    provider_ordinal: RequiredWhenPresent<u64>,
    line_starts_file: bool,
    record_type: Seq<char>,
    meta: Option<SessionMeta>,
    mode: ProviderOrdinalMode,
) -> (Result<u64, ()>, ProviderOrdinalMode) {
    match (mode, provider_ordinal) {
        (ProviderOrdinalMode::Unknown, RequiredWhenPresent::Present(ordinal)) => if line_starts_file
            && expected == 0 && ordinal < u64::MAX && spec_reviewed_provider_ordinal_origin(
            meta,
            record_type,
            ordinal,
        ) {
            (Ok(ordinal), ProviderOrdinalMode::Provider)
        } else {
            (Err(()), mode)
        },
        (ProviderOrdinalMode::Unknown, RequiredWhenPresent::Missing) => if line_starts_file
            && expected == 0 && spec_reviewed_legacy_ordinal_origin(meta, record_type) {
            (Ok(expected), ProviderOrdinalMode::Legacy)
        } else {
            (Err(()), mode)
        },
        (ProviderOrdinalMode::Provider, RequiredWhenPresent::Present(ordinal)) => if ordinal
            == expected && ordinal < u64::MAX {
            (Ok(ordinal), mode)
        } else {
            (Err(()), mode)
        },
        (ProviderOrdinalMode::Legacy, RequiredWhenPresent::Missing) => if expected < u64::MAX {
            (Ok(expected), mode)
        } else {
            (Err(()), mode)
        },
        _ => (Err(()), mode),
    }
}

pub fn effective_record_ordinal(
    expected: u64,
    provider_ordinal: RequiredWhenPresent<u64>,
    line_starts_file: bool,
    record_type: &str,
    meta: Option<&SessionMeta>,
    mode: &mut ProviderOrdinalMode,
) -> (r: Result<u64, ()>)
    ensures
        (r, *final(mode)) == spec_effective_record_ordinal(
            expected,
            provider_ordinal,
            line_starts_file,
            record_type@,
            match meta {
                Some(m) => Some(*m),
                None => None,
            },
            *old(mode),
        ),
{
    match (*mode, provider_ordinal) {
        (ProviderOrdinalMode::Unknown, RequiredWhenPresent::Present(ordinal)) => {
            if line_starts_file && expected == 0 && ordinal < u64::MAX
                && reviewed_provider_ordinal_origin(meta, record_type, ordinal) {
                *mode = ProviderOrdinalMode::Provider;
                Ok(ordinal)
            } else {
                Err(())
            }
        },
        (ProviderOrdinalMode::Unknown, RequiredWhenPresent::Missing) => {
            if line_starts_file && expected == 0 && reviewed_legacy_ordinal_origin(
                meta,
                record_type,
            ) {
                *mode = ProviderOrdinalMode::Legacy;
                Ok(expected)
            } else {
                Err(())
            }
        },
        (ProviderOrdinalMode::Provider, RequiredWhenPresent::Present(ordinal)) => {
            if ordinal == expected && ordinal < u64::MAX {
                Ok(ordinal)
            } else {
                Err(())
            }
        },
        (ProviderOrdinalMode::Legacy, RequiredWhenPresent::Missing) => {
            if expected < u64::MAX {
                Ok(expected)
            } else {
                Err(())
            }
        },
        _ => Err(()),
    }
}

/// A rollout's ordinal mode is decided by its first record alone: once it
/// is known, no record changes it, and every record accepted after that
/// carries exactly the ordinal expected next. An undecided mode is decided
/// only by a record that opens the file.
pub proof fn law_ordinal_mode_is_decided_once(
    expected: u64,
    provider_ordinal: RequiredWhenPresent<u64>,
    line_starts_file: bool,
    record_type: Seq<char>,
    meta: Option<SessionMeta>,
    mode: ProviderOrdinalMode,
)
    ensures
        mode != ProviderOrdinalMode::Unknown ==> spec_effective_record_ordinal(
            expected,
            provider_ordinal,
            line_starts_file,
            record_type,
            meta,
            mode,
        ).1 == mode,
        mode != ProviderOrdinalMode::Unknown ==> (spec_effective_record_ordinal(
            expected,
            provider_ordinal,
            line_starts_file,
            record_type,
            meta,
            mode,
        ).0 matches Ok(o) ==> o == expected),
        (mode == ProviderOrdinalMode::Unknown && spec_effective_record_ordinal(
            expected,
            provider_ordinal,
            line_starts_file,
            record_type,
            meta,
            mode,
        ).1 != mode) ==> line_starts_file && expected == 0,
{
}

} // verus!
