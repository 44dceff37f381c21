//! Finding the rollouts of required parent sessions: a bounded probe of a
//! rollout's leading records for its own session id, and the round that
//! spreads those probes over the candidate files.
use vstd::prelude::*;

use crate::cli::{normalized_session_id, spec_normalized_session_id, string_opt_view};
use crate::index_line::{names_view, DecodedLine, RecordBody, MAX_ROLLOUT_LINE_BYTES};
use crate::files::{
    filename_matches_required_parent, spec_filename_matches_required_parent, StoredFileSummary,
    ROLLOUT_PARSER_VERSION,
};
use crate::rollout::clone_opt_string;
use crate::text::str_eq;

verus! {

/// How far into a rollout a probe for its session id may read.
pub const MAX_ROLLOUT_METADATA_PROBE_BYTES: u64 = 262144;

/// The version of the candidate order a stored probe cursor refers to.
pub const REQUIRED_PARENT_PROBE_ORDER_VERSION: u8 = 2;

/// A stored probe cursor (order version, path, offset) is used only when it
/// was written for the current candidate order.
pub fn stored_probe_cursor(version: u8, path: String, offset: u64) -> (r: Option<(String, u64)>)
    ensures
        r is Some <==> version == REQUIRED_PARENT_PROBE_ORDER_VERSION,
        r matches Some((p, o)) ==> p@ == path@ && o == offset,
{
    if version == REQUIRED_PARENT_PROBE_ORDER_VERSION {
        Some((path, offset))
    } else {
        None
    }
}

/// What one bounded probe found: the leaf session id when a `session_meta`
/// record named one, where the next probe of the file resumes, how many
/// bytes this probe read, and whether the file has nothing more to tell.
#[derive(Debug)]
pub struct LeafSessionProbe {
    pub session_id: Option<String>,
    pub next_offset: u64,
    pub bytes_read: u64,
    pub complete: bool,
}

pub struct LeafSessionProbeView {
    pub session_id: Option<Seq<char>>,
    pub next_offset: u64,
    pub bytes_read: u64,
    pub complete: bool,
}

impl View for LeafSessionProbe {
    type V = LeafSessionProbeView;

    open spec fn view(&self) -> LeafSessionProbeView {
        LeafSessionProbeView {
            session_id: string_opt_view(self.session_id),
            next_offset: self.next_offset,
            bytes_read: self.bytes_read,
            complete: self.complete,
        }
    }
}

pub open spec fn probe_outcome(
    session_id: Option<Seq<char>>,
    next_offset: u64,
    bytes_read: u64,
    complete: bool,
) -> LeafSessionProbeView {
    LeafSessionProbeView { session_id, next_offset, bytes_read, complete }
}

/// A probe that starts at or past the probe window, or has no bytes to
/// spend, reads nothing; it is complete exactly when it starts past the
/// window.
pub fn leaf_probe_without_reading(start_offset: u64, max_bytes: u64) -> (r: Option<LeafSessionProbe>)
    ensures
        r is Some <==> (start_offset >= MAX_ROLLOUT_METADATA_PROBE_BYTES || max_bytes == 0),
        r matches Some(p) ==> p@ == probe_outcome(
            None,
            start_offset,
            0,
            start_offset >= MAX_ROLLOUT_METADATA_PROBE_BYTES,
        ),
{
    if start_offset >= MAX_ROLLOUT_METADATA_PROBE_BYTES || max_bytes == 0 {
        Some(
            LeafSessionProbe {
                session_id: None,
                next_offset: start_offset,
                bytes_read: 0,
                complete: start_offset >= MAX_ROLLOUT_METADATA_PROBE_BYTES,
            },
        )
    } else {
        None
    }
}

/// A probe under way: it started at `start_offset`, may read
/// `allowed_bytes`, has read `bytes_read`, and the next record starts at
/// `next_offset`.
#[derive(Debug)]
pub struct LeafProbe {
    pub start_offset: u64,
    pub next_offset: u64,
    pub bytes_read: u64,
    pub allowed_bytes: u64,
    pub file_size: u64,
}

/// Every byte read so far belongs to a whole record, and the allowance
/// stays inside the probe window.
pub open spec fn leaf_probe_well_formed(p: LeafProbe) -> bool {
    &&& p.start_offset < MAX_ROLLOUT_METADATA_PROBE_BYTES
    &&& p.allowed_bytes <= MAX_ROLLOUT_METADATA_PROBE_BYTES - p.start_offset
    &&& p.bytes_read <= p.allowed_bytes
    &&& p.next_offset == p.start_offset + p.bytes_read
}

/// What the probe does next: read at most the given number of bytes, or
/// stop with its answer.
#[derive(Debug)]
pub enum LeafProbeStep {
    Read(u64),
    Done(LeafSessionProbe),
}

/// The probe after one bounded read of `bytes` bytes that did or did not end
/// in a newline: `None` when a whole record was read and is to be decoded,
/// otherwise the probe's answer.
pub open spec fn spec_on_line(p: LeafProbe, bytes: u64, ends_with_newline: bool) -> (
    LeafProbe,
    Option<LeafSessionProbeView>,
) {
    let read = (p.bytes_read + bytes) as u64;
    let end = p.next_offset + bytes;
    if bytes == 0 {
        (p, Some(probe_outcome(None, p.next_offset, p.bytes_read, true)))
    } else if bytes > MAX_ROLLOUT_LINE_BYTES {
        (p, Some(probe_outcome(None, p.next_offset, read, true)))
    } else if !(ends_with_newline || end >= p.file_size) {
        (p, Some(probe_outcome(None, p.next_offset, read, end >= MAX_ROLLOUT_METADATA_PROBE_BYTES)))
    } else {
        (LeafProbe { next_offset: end as u64, bytes_read: read, ..p }, None)
    }
}

/// The session id a decoded `session_meta` body carries, before it is
/// normalised.
pub open spec fn body_session_id(body: RecordBody) -> Option<Seq<char>> {
    match body {
        RecordBody::SessionMeta { payload, .. } => string_opt_view(payload.id),
        _ => None,
    }
}

/// The probe's answer after a whole record: a record whose header does not
/// decode ends the probe with nothing; a `session_meta` record ends it with
/// the session id it names, normalised; any other record lets it go on.
pub open spec fn spec_on_record(p: LeafProbe, line: DecodedLine) -> Option<LeafSessionProbeView> {
    match line.header {
        None => Some(probe_outcome(None, p.next_offset, p.bytes_read, true)),
        Some(h) => if h.record_type@ == "session_meta"@ {
            Some(
                probe_outcome(
                    spec_normalized_session_id(body_session_id(line.body)),
                    p.next_offset,
                    p.bytes_read,
                    true,
                ),
            )
        } else {
            None
        },
    }
}

impl LeafProbe {
    /// Starts a probe at `start_offset` of a file of `file_size` bytes that
    /// may read `max_bytes`, never past the probe window.
    pub fn new(start_offset: u64, max_bytes: u64, file_size: u64) -> (r: Self)
        requires
            start_offset < MAX_ROLLOUT_METADATA_PROBE_BYTES,
        ensures
            r.start_offset == start_offset,
            r.next_offset == start_offset,
            r.bytes_read == 0,
            r.file_size == file_size,
            r.allowed_bytes == if max_bytes < MAX_ROLLOUT_METADATA_PROBE_BYTES - start_offset {
                max_bytes
            } else {
                (MAX_ROLLOUT_METADATA_PROBE_BYTES - start_offset) as u64
            },
            leaf_probe_well_formed(r),
    {
        let window = MAX_ROLLOUT_METADATA_PROBE_BYTES - start_offset;
        let allowed_bytes = if max_bytes < window {
            max_bytes
        } else {
            window
        };
        LeafProbe { start_offset, next_offset: start_offset, bytes_read: 0, allowed_bytes, file_size }
    }

    /// Once the allowance is spent the probe stops, incomplete unless it
    /// reached the end of the window; otherwise it reads at most what is
    /// left of the allowance.
    pub fn next_step(&self) -> (r: LeafProbeStep)
        requires
            leaf_probe_well_formed(*self),
        ensures
            self.bytes_read >= self.allowed_bytes ==> (r matches LeafProbeStep::Done(p) && p@
                == probe_outcome(
                None,
                self.next_offset,
                self.bytes_read,
                self.next_offset >= MAX_ROLLOUT_METADATA_PROBE_BYTES,
            )),
            self.bytes_read < self.allowed_bytes ==> r == LeafProbeStep::Read(
                (self.allowed_bytes - self.bytes_read) as u64,
            ),
    {
        if self.bytes_read >= self.allowed_bytes {
            LeafProbeStep::Done(
                LeafSessionProbe {
                    session_id: None,
                    next_offset: self.next_offset,
                    bytes_read: self.bytes_read,
                    complete: self.next_offset >= MAX_ROLLOUT_METADATA_PROBE_BYTES,
                },
            )
        } else {
            LeafProbeStep::Read(self.allowed_bytes - self.bytes_read)
        }
    }

    /// Takes one bounded read of `bytes` bytes (a record, or the part of one
    /// that fit the read).
    pub fn on_line(&mut self, bytes: u64, ends_with_newline: bool) -> (r: Option<LeafSessionProbe>)
        requires
            leaf_probe_well_formed(*old(self)),
            bytes <= old(self).allowed_bytes - old(self).bytes_read,
        ensures
            leaf_probe_well_formed(*final(self)),
            *final(self) == spec_on_line(*old(self), bytes, ends_with_newline).0,
            match r {
                Some(p) => spec_on_line(*old(self), bytes, ends_with_newline).1 == Some(p@),
                None => spec_on_line(*old(self), bytes, ends_with_newline).1 is None,
            },
    {
        if bytes == 0 {
            return Some(
                LeafSessionProbe {
                    session_id: None,
                    next_offset: self.next_offset,
                    bytes_read: self.bytes_read,
                    complete: true,
                },
            );
        }
        let read = self.bytes_read + bytes;
        if bytes > MAX_ROLLOUT_LINE_BYTES as u64 {
            return Some(
                LeafSessionProbe {
                    session_id: None,
                    next_offset: self.next_offset,
                    bytes_read: read,
                    complete: true,
                },
            );
        }
        let end = self.next_offset + bytes;
        if !(ends_with_newline || end >= self.file_size) {
            return Some(
                LeafSessionProbe {
                    session_id: None,
                    next_offset: self.next_offset,
                    bytes_read: read,
                    complete: end >= MAX_ROLLOUT_METADATA_PROBE_BYTES,
                },
            );
        }
        self.next_offset = end;
        self.bytes_read = read;
        None
    }

    /// Takes the decoded whole record just read.
    pub fn on_record(&self, line: &DecodedLine) -> (r: Option<LeafSessionProbe>)
        ensures
            match r {
                Some(p) => spec_on_record(*self, *line) == Some(p@),
                None => spec_on_record(*self, *line) is None,
            },
    {
        match &line.header {
            None => Some(
                LeafSessionProbe {
                    session_id: None,
                    next_offset: self.next_offset,
                    bytes_read: self.bytes_read,
                    complete: true,
                },
            ),
            Some(h) => {
                if str_eq(h.record_type.as_str(), "session_meta") {
                    let id = match &line.body {
                        RecordBody::SessionMeta { payload, .. } => clone_opt_string(&payload.id),
                        _ => None,
                    };
                    Some(
                        LeafSessionProbe {
                            session_id: normalized_session_id(id),
                            next_offset: self.next_offset,
                            bytes_read: self.bytes_read,
                            complete: true,
                        },
                    )
                } else {
                    None
                }
            },
        }
    }
}


/// A probe stays inside its window and its allowance: whatever one bounded
/// read leads to, the probe never counts more bytes than it may read, never
/// resumes past the probe window, and only moves its resume point over a
/// whole record.
pub proof fn law_probe_stays_in_its_window(p: LeafProbe, bytes: u64, ends_with_newline: bool)
    requires
        leaf_probe_well_formed(p),
        bytes <= p.allowed_bytes - p.bytes_read,
    ensures
        leaf_probe_well_formed(spec_on_line(p, bytes, ends_with_newline).0),
        spec_on_line(p, bytes, ends_with_newline).1 matches Some(o) ==> {
            &&& o.bytes_read <= p.allowed_bytes
            &&& o.next_offset == p.next_offset
            &&& o.next_offset <= MAX_ROLLOUT_METADATA_PROBE_BYTES
        },
        spec_on_line(p, bytes, ends_with_newline).1 is None ==> {
            &&& spec_on_line(p, bytes, ends_with_newline).0.next_offset == p.next_offset + bytes
            &&& spec_on_line(p, bytes, ends_with_newline).0.next_offset
                <= MAX_ROLLOUT_METADATA_PROBE_BYTES
        },
{
}

/// The names without `name`.
pub open spec fn names_without(names: Seq<Seq<char>>, name: Seq<char>) -> Seq<Seq<char>> {
    names.filter(|n: Seq<char>| n != name)
}

/// Removes `name` from `names`, and says whether it was there.
pub fn remove_name(names: &mut Vec<String>, name: &str) -> (r: bool)
    ensures
        names_view(final(names)@) == names_without(names_view(old(names)@), name@),
        r == names_view(old(names)@).contains(name@),
        !r ==> names_view(final(names)@) == names_view(old(names)@),
{
    let ghost all = names_view(names@);
    let mut kept: Vec<String> = Vec::new();
    let mut found = false;
    let mut i: usize = 0;
    while i < names.len()
        invariant
            all == names_view(names@),
            i <= names@.len(),
            names_view(kept@) == names_without(all.take(i as int), name@),
            found == all.take(i as int).contains(name@),
            !found ==> names_view(kept@) == all.take(i as int),
        decreases names@.len() - i,
    {
        let ghost before = all.take(i as int);
        assert(all.take(i + 1) =~= before.push(all[i as int]));
        proof {
            before.lemma_filter_push(all[i as int], |n: Seq<char>| n != name@);
        }
        if str_eq(names[i].as_str(), name) {
            found = true;
            assert(all.take(i + 1)[i as int] == name@);
        } else {
            let ghost k0 = kept@;
            kept.push(names[i].clone());
            assert(names_view(kept@) =~= names_view(k0).push(all[i as int]));
        }
        i = i + 1;
    }
    assert(all.take(names@.len() as int) =~= all);
    *names = kept;
    found
}

/// The round of probes over the candidate rollouts for the parents still
/// unresolved. Candidates are taken in a ring from `position`, the probe
/// of the candidate there resumes at `cursor_offset`, probes may read
/// `probe_bytes` in all, and the round stops once it found a parent or
/// left a candidate mid-way.
#[derive(Debug)]
pub struct ParentProbeRound {
    pub candidate_count: usize,
    pub position: usize,
    pub cursor_offset: u64,
    pub completed: usize,
    pub probe_bytes: u64,
    pub remaining_bytes: u64,
    pub traversal_complete: bool,
    pub unresolved: Vec<String>,
    pub found: Option<usize>,
    pub stopped: bool,
}

pub struct ParentProbeRoundView {
    pub candidate_count: usize,
    pub position: usize,
    pub cursor_offset: u64,
    pub completed: usize,
    pub probe_bytes: u64,
    pub remaining_bytes: u64,
    pub traversal_complete: bool,
    pub unresolved: Seq<Seq<char>>,
    pub found: Option<usize>,
    pub stopped: bool,
}

impl View for ParentProbeRound {
    type V = ParentProbeRoundView;

    open spec fn view(&self) -> ParentProbeRoundView {
        ParentProbeRoundView {
            candidate_count: self.candidate_count,
            position: self.position,
            cursor_offset: self.cursor_offset,
            completed: self.completed,
            probe_bytes: self.probe_bytes,
            remaining_bytes: self.remaining_bytes,
            traversal_complete: self.traversal_complete,
            unresolved: names_view(self.unresolved@),
            found: self.found,
            stopped: self.stopped,
        }
    }
}

/// The ring position stays among the candidates and the count of finished
/// candidates never passes their number.
pub open spec fn round_well_formed(r: ParentProbeRoundView) -> bool {
    &&& 0 < r.candidate_count
    &&& r.position < r.candidate_count
    &&& r.completed <= r.candidate_count
    &&& r.probe_bytes <= r.remaining_bytes
}

/// The candidate probed next, the offset it resumes at and the bytes the
/// probe may read; none once the round stopped, spent its probe bytes,
/// finished every candidate or ran out of time.
pub open spec fn spec_next_probe(r: ParentProbeRoundView, time_left: bool) -> Option<(usize, u64, u64)> {
    if !r.stopped && r.probe_bytes > 0 && r.completed < r.candidate_count && time_left {
        Some((r.position, r.cursor_offset, r.probe_bytes))
    } else {
        None
    }
}

/// The round moved on to the next candidate in the ring, from its start.
pub open spec fn advanced_round(r: ParentProbeRoundView) -> ParentProbeRoundView {
    ParentProbeRoundView {
        completed: if r.completed < usize::MAX { (r.completed + 1) as usize } else { r.completed },
        position: ((r.position + 1) % (r.candidate_count as int)) as usize,
        cursor_offset: 0,
        ..r
    }
}

/// After a probe that failed: the scan is no longer complete and the round
/// moves on.
pub open spec fn spec_on_probe_failed(r: ParentProbeRoundView) -> ParentProbeRoundView {
    ParentProbeRoundView { traversal_complete: false, ..advanced_round(r) }
}

pub open spec fn saturating_sub_u64(a: u64, b: u64) -> u64 {
    if a >= b {
        (a - b) as u64
    } else {
        0
    }
}

/// After a probe: its bytes are spent; a probe naming an unresolved parent
/// resolves it, marks the candidate found and stops the round there; a
/// complete probe moves the round on; an incomplete one stops the round
/// where the probe left off.
pub open spec fn spec_on_probe(r: ParentProbeRoundView, p: LeafSessionProbeView) -> ParentProbeRoundView {
    let spent = ParentProbeRoundView {
        probe_bytes: saturating_sub_u64(r.probe_bytes, p.bytes_read),
        remaining_bytes: saturating_sub_u64(r.remaining_bytes, p.bytes_read),
        ..r
    };
    let id = p.session_id.unwrap();
    if p.session_id is Some && r.unresolved.contains(id) {
        ParentProbeRoundView {
            unresolved: names_without(r.unresolved, id),
            found: Some(r.position),
            cursor_offset: 0,
            stopped: true,
            ..spent
        }
    } else if p.complete {
        advanced_round(spent)
    } else {
        ParentProbeRoundView { cursor_offset: p.next_offset, stopped: true, ..spent }
    }
}

/// Parent discovery is complete once no parent is unresolved or every
/// candidate was probed to the end.
pub open spec fn spec_discovery_complete(r: ParentProbeRoundView) -> bool {
    r.unresolved.len() == 0 || r.completed == r.candidate_count
}

impl ParentProbeRound {
    /// Starts a round over `candidate_count` candidates at the stored cursor
    /// (a candidate's position and offset) when it names a candidate, else
    /// at the first from its start; probes may read half of `max_bytes`.
    pub fn new(candidate_count: usize, stored: Option<(usize, u64)>, max_bytes: u64, unresolved: Vec<String>) -> (r:
        Self)
        requires
            candidate_count > 0,
            stored matches Some((p, _)) ==> p < candidate_count,
        ensures
            r@ == (ParentProbeRoundView {
                candidate_count,
                position: match stored {
                    Some((p, _)) => p,
                    None => 0,
                },
                cursor_offset: match stored {
                    Some((_, o)) => o,
                    None => 0,
                },
                completed: 0,
                probe_bytes: (max_bytes / 2) as u64,
                remaining_bytes: max_bytes,
                traversal_complete: true,
                unresolved: names_view(unresolved@),
                found: None,
                stopped: false,
            }),
            round_well_formed(r@),
    {
        let (position, cursor_offset) = match stored {
            Some((p, o)) => (p, o),
            None => (0, 0),
        };
        ParentProbeRound {
            candidate_count,
            position,
            cursor_offset,
            completed: 0,
            probe_bytes: max_bytes / 2,
            remaining_bytes: max_bytes,
            traversal_complete: true,
            unresolved,
            found: None,
            stopped: false,
        }
    }

    /// The next probe to run, given whether discovery still has time.
    pub fn next_probe(&self, time_left: bool) -> (r: Option<(usize, u64, u64)>)
        ensures
            r == spec_next_probe(self@, time_left),
    {
        if !self.stopped && self.probe_bytes > 0 && self.completed < self.candidate_count && time_left {
            Some((self.position, self.cursor_offset, self.probe_bytes))
        } else {
            None
        }
    }

    fn advance(&mut self)
        requires
            round_well_formed(old(self)@),
        ensures
            final(self)@ == advanced_round(old(self)@),
            round_well_formed(final(self)@) || old(self).completed == old(self).candidate_count,
    {
        self.completed = if self.completed < usize::MAX {
            self.completed + 1
        } else {
            self.completed
        };
        self.position = (self.position + 1) % self.candidate_count;
        self.cursor_offset = 0;
    }

    /// Takes a probe of the current candidate that could not be run.
    pub fn on_probe_failed(&mut self)
        requires
            round_well_formed(old(self)@),
            old(self).completed < old(self).candidate_count,
        ensures
            final(self)@ == spec_on_probe_failed(old(self)@),
            round_well_formed(final(self)@),
    {
        self.traversal_complete = false;
        self.advance();
    }

    /// Takes the outcome of a probe of the current candidate.
    pub fn on_probe(&mut self, probe: &LeafSessionProbe) -> (found: bool)
        requires
            round_well_formed(old(self)@),
            old(self).completed < old(self).candidate_count,
        ensures
            final(self)@ == spec_on_probe(old(self)@, probe@),
            round_well_formed(final(self)@),
            found == (probe@.session_id is Some && old(self)@.unresolved.contains(
                probe@.session_id.unwrap(),
            )),
    {
        self.probe_bytes = if self.probe_bytes >= probe.bytes_read {
            self.probe_bytes - probe.bytes_read
        } else {
            0
        };
        self.remaining_bytes = if self.remaining_bytes >= probe.bytes_read {
            self.remaining_bytes - probe.bytes_read
        } else {
            0
        };
        let resolved = match &probe.session_id {
            Some(id) => remove_name(&mut self.unresolved, id.as_str()),
            None => false,
        };
        if resolved {
            self.found = Some(self.position);
            self.cursor_offset = 0;
            self.stopped = true;
            return true;
        }
        if probe.complete {
            self.advance();
        } else {
            self.cursor_offset = probe.next_offset;
            self.stopped = true;
        }
        false
    }

    /// Whether parent discovery finished in this round.
    pub fn discovery_complete(&self) -> (r: bool)
        ensures
            r == spec_discovery_complete(self@),
    {
        self.unresolved.len() == 0 || self.completed == self.candidate_count
    }
}


/// Whether `name` is among `names`.
pub fn contains_name(names: &[String], name: &str) -> (r: bool)
    ensures
        r == names_view(names@).contains(name@),
{
    let mut i: usize = 0;
    while i < names.len()
        invariant
            i <= names@.len(),
            forall|j: int| 0 <= j < i ==> names@[j]@ != name@,
        decreases names@.len() - i,
    {
        if str_eq(names[i].as_str(), name) {
            assert(names_view(names@)[i as int] == name@);
            return true;
        }
        i = i + 1;
    }
    assert forall|j: int| 0 <= j < names_view(names@).len() implies names_view(names@)[j] != name@ by {
        assert(names@[j]@ != name@);
    }
    false
}

/// A rollout found on disk, as parent discovery sees it: its identity,
/// modification time and size, its file name when it is UTF-8, and the
/// summary stored under its path, if any.
#[derive(Debug)]
pub struct DiscoveredRollout {
    pub identity: String,
    pub modified_ns: i64,
    pub size: u64,
    pub file_name: Option<String>,
    pub stored: Option<StoredFileSummary>,
}

/// The stored summary, when it describes the file as it is now.
pub open spec fn current_summary(f: DiscoveredRollout) -> Option<StoredFileSummary> {
    match f.stored {
        Some(s) => if s.identity@ == f.identity@ && s.size == f.size && s.modified_ns == f.modified_ns {
            Some(s)
        } else {
            None
        },
        None => None,
    }
}

/// Which rollouts are known parents, which are to be probed, and which
/// parents are still unresolved.
pub struct DiscoveryView {
    pub parents: Seq<usize>,
    pub candidates: Seq<usize>,
    pub unresolved: Seq<Seq<char>>,
}

pub open spec fn name_matches(f: DiscoveredRollout, unresolved: Seq<Seq<char>>) -> bool {
    spec_filename_matches_required_parent(string_opt_view(f.file_name), unresolved)
}

/// One rollout's part in parent discovery. A rollout modified since the
/// cutoff is scanned anyway: it becomes a parent when its name marks it as
/// one. An older one is a parent when its current summary names a required
/// leaf session (which is then resolved); without a current summary, or
/// with one from another parser, it is probed.
pub open spec fn discovery_step(
    acc: DiscoveryView,
    f: DiscoveredRollout,
    index: usize,
    cutoff_modified_ns: i64,
    required: Seq<Seq<char>>,
) -> DiscoveryView {
    if f.modified_ns >= cutoff_modified_ns {
        if name_matches(f, acc.unresolved) {
            DiscoveryView { parents: acc.parents.push(index), ..acc }
        } else {
            acc
        }
    } else {
        let summary = current_summary(f);
        let leaf = match summary {
            Some(s) => string_opt_view(s.leaf_session_id),
            None => None,
        };
        if leaf is Some && required.contains(leaf.unwrap()) {
            DiscoveryView {
                parents: acc.parents.push(index),
                unresolved: names_without(acc.unresolved, leaf.unwrap()),
                ..acc
            }
        } else if summary is None || summary.unwrap().parser_version != ROLLOUT_PARSER_VERSION {
            DiscoveryView { candidates: acc.candidates.push(index), ..acc }
        } else {
            acc
        }
    }
}

pub open spec fn discovery_fold(
    files: Seq<DiscoveredRollout>,
    cutoff_modified_ns: i64,
    required: Seq<Seq<char>>,
) -> DiscoveryView
    decreases files.len(),
{
    if files.len() == 0 {
        DiscoveryView { parents: Seq::empty(), candidates: Seq::empty(), unresolved: required }
    } else {
        discovery_step(
            discovery_fold(files.drop_last(), cutoff_modified_ns, required),
            files.last(),
            (files.len() - 1) as usize,
            cutoff_modified_ns,
            required,
        )
    }
}

/// The candidates (in their order) whose name does or does not mark them
/// as an unresolved parent.
pub open spec fn candidates_by_name(
    candidates: Seq<usize>,
    files: Seq<DiscoveredRollout>,
    unresolved: Seq<Seq<char>>,
    matching: bool,
) -> Seq<usize>
    decreases candidates.len(),
{
    if candidates.len() == 0 {
        Seq::empty()
    } else {
        let rest = candidates_by_name(candidates.drop_last(), files, unresolved, matching);
        if name_matches(files[candidates.last() as int], unresolved) == matching {
            rest.push(candidates.last())
        } else {
            rest
        }
    }
}

/// Parent discovery over the rollouts found on disk: nothing when no
/// parent is required; otherwise the fold above, with the candidates
/// dropped when every parent was resolved, and else ordered so that those
/// whose name marks them as an unresolved parent come first.
pub open spec fn spec_discover_parents(
    files: Seq<DiscoveredRollout>,
    cutoff_modified_ns: i64,
    required: Seq<Seq<char>>,
) -> DiscoveryView {
    if required.len() == 0 {
        DiscoveryView { parents: Seq::empty(), candidates: Seq::empty(), unresolved: required }
    } else {
        let d = discovery_fold(files, cutoff_modified_ns, required);
        if d.unresolved.len() == 0 {
            DiscoveryView { candidates: Seq::empty(), ..d }
        } else {
            DiscoveryView {
                candidates: candidates_by_name(d.candidates, files, d.unresolved, true)
                    + candidates_by_name(d.candidates, files, d.unresolved, false),
                ..d
            }
        }
    }
}

/// The outcome of parent discovery: positions of the known parents and of
/// the rollouts to probe (in probing order), and the unresolved parents.
#[derive(Debug)]
pub struct ParentDiscovery {
    pub parents: Vec<usize>,
    pub candidates: Vec<usize>,
    pub unresolved: Vec<String>,
}

fn name_matches_exec(f: &DiscoveredRollout, unresolved: &[String]) -> (r: bool)
    ensures
        r == name_matches(*f, names_view(unresolved@)),
{
    let name = match &f.file_name {
        Some(n) => Some(n.as_str()),
        None => None,
    };
    filename_matches_required_parent(name, unresolved)
}

fn is_current_summary(f: &DiscoveredRollout) -> (r: bool)
    ensures
        r == current_summary(*f) is Some,
{
    match &f.stored {
        Some(s) => str_eq(s.identity.as_str(), f.identity.as_str()) && s.size == f.size
            && s.modified_ns == f.modified_ns,
        None => false,
    }
}

fn order_candidates(candidates: &Vec<usize>, files: &[DiscoveredRollout], unresolved: &[String], matching: bool) -> (r:
    Vec<usize>)
    requires
        forall|k: int| 0 <= k < candidates@.len() ==> candidates@[k] < files@.len(),
    ensures
        r@ == candidates_by_name(candidates@, files@, names_view(unresolved@), matching),
{
    let mut out: Vec<usize> = Vec::new();
    let mut i: usize = 0;
    while i < candidates.len()
        invariant
            i <= candidates@.len(),
            forall|k: int| 0 <= k < candidates@.len() ==> candidates@[k] < files@.len(),
            out@ == candidates_by_name(candidates@.take(i as int), files@, names_view(unresolved@), matching),
        decreases candidates@.len() - i,
    {
        assert(candidates@.take(i + 1).drop_last() =~= candidates@.take(i as int));
        let c = candidates[i];
        if name_matches_exec(&files[c], unresolved) == matching {
            out.push(c);
        }
        i = i + 1;
    }
    assert(candidates@.take(candidates@.len() as int) =~= candidates@);
    out
}

/// Finds the rollouts of the required parent sessions among those on disk
/// (by position), and the rollouts to probe for the parents still
/// unresolved.
pub fn discover_parents(files: &[DiscoveredRollout], cutoff_modified_ns: i64, required: Vec<String>) -> (r:
    ParentDiscovery)
    ensures
        (DiscoveryView { parents: r.parents@, candidates: r.candidates@, unresolved: names_view(r.unresolved@) })
            == spec_discover_parents(files@, cutoff_modified_ns, names_view(required@)),
{
    if required.len() == 0 {
        return ParentDiscovery { parents: Vec::new(), candidates: Vec::new(), unresolved: required };
    }
    let ghost req = names_view(required@);
    let mut parents: Vec<usize> = Vec::new();
    let mut candidates: Vec<usize> = Vec::new();
    let mut unresolved: Vec<String> = clone_names(&required);
    let mut i: usize = 0;
    while i < files.len()
        invariant
            i <= files@.len(),
            req == names_view(required@),
            (DiscoveryView { parents: parents@, candidates: candidates@, unresolved: names_view(unresolved@) })
                == discovery_fold(files@.take(i as int), cutoff_modified_ns, req),
            forall|k: int| 0 <= k < candidates@.len() ==> candidates@[k] < i,
        decreases files@.len() - i,
    {
        assert(files@.take(i + 1).drop_last() =~= files@.take(i as int));
        let f = &files[i];
        if f.modified_ns >= cutoff_modified_ns {
            if name_matches_exec(f, &unresolved) {
                parents.push(i);
            }
        } else {
            let current = is_current_summary(f);
            let leaf: Option<&str> = if current {
                match &f.stored {
                    Some(s) => match &s.leaf_session_id {
                        Some(id) => Some(id.as_str()),
                        None => None,
                    },
                    None => None,
                }
            } else {
                None
            };
            let known = match leaf {
                Some(id) => contains_name(&required, id),
                None => false,
            };
            if known {
                let id = leaf.unwrap();
                remove_name(&mut unresolved, id);
                parents.push(i);
            } else {
                let probe = match &f.stored {
                    Some(s) => !current || s.parser_version != ROLLOUT_PARSER_VERSION,
                    None => true,
                };
                if probe {
                    candidates.push(i);
                }
            }
        }
        i = i + 1;
    }
    assert(files@.take(files@.len() as int) =~= files@);
    if unresolved.len() == 0 {
        return ParentDiscovery { parents, candidates: Vec::new(), unresolved };
    }
    let mut ordered = order_candidates(&candidates, files, &unresolved, true);
    let rest = order_candidates(&candidates, files, &unresolved, false);
    let ghost first = ordered@;
    let mut j: usize = 0;
    while j < rest.len()
        invariant
            j <= rest@.len(),
            ordered@ == first + rest@.take(j as int),
        decreases rest@.len() - j,
    {
        ordered.push(rest[j]);
        assert(rest@.take(j + 1) =~= rest@.take(j as int).push(rest@[j as int]));
        j = j + 1;
    }
    assert(rest@.take(rest@.len() as int) =~= rest@);
    ParentDiscovery { parents, candidates: ordered, unresolved }
}

/// A copy of the names.
pub fn clone_names(names: &Vec<String>) -> (r: Vec<String>)
    ensures
        names_view(r@) == names_view(names@),
{
    let mut out: Vec<String> = Vec::new();
    let mut i: usize = 0;
    while i < names.len()
        invariant
            i <= names@.len(),
            out@ == names@.take(i as int),
        decreases names@.len() - i,
    {
        out.push(names[i].clone());
        assert(out@ =~= names@.take(i + 1));
        i = i + 1;
    }
    assert(names@.take(names@.len() as int) =~= names@);
    out
}

/// Probes spend at most half of the pass's byte budget: a round starts with
/// half the budget held back, and a probe that keeps to the bytes the round
/// granted it (as every probe does) leaves that reserve untouched.
pub proof fn law_probes_keep_half_the_budget(
    candidate_count: usize,
    stored: Option<(usize, u64)>,
    max_bytes: u64,
    unresolved: Seq<Seq<char>>,
    r: ParentProbeRoundView,
    p: LeafSessionProbeView,
)
    requires
        round_well_formed(r),
        p.bytes_read <= r.probe_bytes,
    ensures
        max_bytes - max_bytes / 2 >= max_bytes / 2,
        spec_on_probe(r, p).remaining_bytes - spec_on_probe(r, p).probe_bytes == r.remaining_bytes
            - r.probe_bytes,
        spec_on_probe_failed(r).remaining_bytes - spec_on_probe_failed(r).probe_bytes
            == r.remaining_bytes - r.probe_bytes,
{
}

proof fn lemma_fold_candidates_are_older(
    files: Seq<DiscoveredRollout>,
    cutoff_modified_ns: i64,
    required: Seq<Seq<char>>,
)
    requires
        files.len() <= usize::MAX,
    ensures
        forall|k: int|
            0 <= k < discovery_fold(files, cutoff_modified_ns, required).candidates.len() ==> {
                let c = #[trigger] discovery_fold(files, cutoff_modified_ns, required).candidates[k];
                c < files.len() && files[c as int].modified_ns < cutoff_modified_ns
            },
    decreases files.len(),
{
    if files.len() > 0 {
        lemma_fold_candidates_are_older(files.drop_last(), cutoff_modified_ns, required);
        let prev = discovery_fold(files.drop_last(), cutoff_modified_ns, required);
        let cur = discovery_fold(files, cutoff_modified_ns, required);
        let n = (files.len() - 1) as usize;
        assert(cur.candidates == prev.candidates || (cur.candidates == prev.candidates.push(n)
            && files.last().modified_ns < cutoff_modified_ns));
        assert forall|k: int| 0 <= k < cur.candidates.len() implies {
            let c = #[trigger] cur.candidates[k];
            c < files.len() && files[c as int].modified_ns < cutoff_modified_ns
        } by {
            if k < prev.candidates.len() {
                assert(cur.candidates[k] == prev.candidates[k]);
                assert(files[prev.candidates[k] as int] == files.drop_last()[prev.candidates[k] as int]);
            }
        }
    }
}

proof fn lemma_by_name_is_drawn_from(
    candidates: Seq<usize>,
    files: Seq<DiscoveredRollout>,
    unresolved: Seq<Seq<char>>,
    matching: bool,
)
    ensures
        forall|k: int|
            0 <= k < candidates_by_name(candidates, files, unresolved, matching).len()
                ==> candidates.contains(
                #[trigger] candidates_by_name(candidates, files, unresolved, matching)[k],
            ),
    decreases candidates.len(),
{
    if candidates.len() > 0 {
        lemma_by_name_is_drawn_from(candidates.drop_last(), files, unresolved, matching);
        let rest = candidates_by_name(candidates.drop_last(), files, unresolved, matching);
        assert forall|k: int| 0 <= k < rest.len() implies candidates.contains(rest[k]) by {
            let j = choose|j: int| 0 <= j < candidates.drop_last().len() && candidates.drop_last()[j]
                == rest[k];
            assert(candidates[j] == rest[k]);
        }
        assert(candidates[candidates.len() - 1] == candidates.last());
    }
}

/// Only rollouts older than the cutoff are ever probed for their session:
/// a newer one is scanned in full anyway. Every candidate names a
/// discovered rollout.
pub proof fn law_only_older_rollouts_are_probed(
    files: Seq<DiscoveredRollout>,
    cutoff_modified_ns: i64,
    required: Seq<Seq<char>>,
)
    requires
        files.len() <= usize::MAX,
    ensures
        forall|k: int|
            0 <= k < spec_discover_parents(files, cutoff_modified_ns, required).candidates.len() ==> {
                let c = #[trigger] spec_discover_parents(files, cutoff_modified_ns, required).candidates[k];
                c < files.len() && files[c as int].modified_ns < cutoff_modified_ns
            },
{
    lemma_fold_candidates_are_older(files, cutoff_modified_ns, required);
    let d = discovery_fold(files, cutoff_modified_ns, required);
    lemma_by_name_is_drawn_from(d.candidates, files, d.unresolved, true);
    lemma_by_name_is_drawn_from(d.candidates, files, d.unresolved, false);
    let a = candidates_by_name(d.candidates, files, d.unresolved, true);
    let b = candidates_by_name(d.candidates, files, d.unresolved, false);
    assert forall|k: int| 0 <= k < (a + b).len() implies d.candidates.contains(#[trigger] (a + b)[k]) by {
        if k < a.len() {
            assert((a + b)[k] == a[k]);
        } else {
            assert((a + b)[k] == b[k - a.len()]);
        }
    }
    assert forall|x: usize| d.candidates.contains(x) implies x < files.len()
        && files[x as int].modified_ns < cutoff_modified_ns by {
        let j = choose|j: int| 0 <= j < d.candidates.len() && d.candidates[j] == x;
        assert(d.candidates[j] == x);
    }
}

proof fn lemma_by_name_all_match(
    candidates: Seq<usize>,
    files: Seq<DiscoveredRollout>,
    unresolved: Seq<Seq<char>>,
    matching: bool,
)
    ensures
        forall|k: int|
            0 <= k < candidates_by_name(candidates, files, unresolved, matching).len() ==> name_matches(
                files[#[trigger] candidates_by_name(candidates, files, unresolved, matching)[k] as int],
                unresolved,
            ) == matching,
    decreases candidates.len(),
{
    if candidates.len() > 0 {
        lemma_by_name_all_match(candidates.drop_last(), files, unresolved, matching);
        let rest = candidates_by_name(candidates.drop_last(), files, unresolved, matching);
        let cur = candidates_by_name(candidates, files, unresolved, matching);
        let last = candidates.last();
        let m = name_matches(files[last as int], unresolved);
        assert(cur == if m == matching {
            rest.push(last)
        } else {
            rest
        });
        assert forall|k: int| 0 <= k < cur.len() implies name_matches(
            files[#[trigger] cur[k] as int],
            unresolved,
        ) == matching by {
            if k < rest.len() {
                assert(cur[k] == rest[k]);
            } else {
                assert(cur[k] == last);
            }
        }
    }
}

/// Rollouts whose file name marks them as an unresolved parent are probed
/// first: no candidate whose name does not mark one comes before one whose
/// name does.
pub proof fn law_named_parents_are_probed_first(
    files: Seq<DiscoveredRollout>,
    cutoff_modified_ns: i64,
    required: Seq<Seq<char>>,
)
    ensures
        ({
            let d = spec_discover_parents(files, cutoff_modified_ns, required);
            forall|a: int, b: int|
                0 <= a < b < d.candidates.len() && name_matches(
                    files[#[trigger] d.candidates[b] as int],
                    d.unresolved,
                ) ==> name_matches(files[#[trigger] d.candidates[a] as int], d.unresolved)
        }),
{
    let f = discovery_fold(files, cutoff_modified_ns, required);
    lemma_by_name_all_match(f.candidates, files, f.unresolved, true);
    lemma_by_name_all_match(f.candidates, files, f.unresolved, false);
    let x = candidates_by_name(f.candidates, files, f.unresolved, true);
    let y = candidates_by_name(f.candidates, files, f.unresolved, false);
    let d = spec_discover_parents(files, cutoff_modified_ns, required);
    if required.len() > 0 && f.unresolved.len() > 0 {
        assert(d.candidates == x + y);
        assert forall|a: int, b: int|
            0 <= a < b < d.candidates.len() && name_matches(
                files[#[trigger] d.candidates[b] as int],
                d.unresolved,
            ) implies name_matches(files[#[trigger] d.candidates[a] as int], d.unresolved) by {
            if b < x.len() {
                assert(d.candidates[a] == x[a]);
            } else if a < x.len() {
                assert(d.candidates[a] == x[a]);
            } else {
                assert(d.candidates[b] == y[b - x.len()]);
                assert(!name_matches(files[y[b - x.len()] as int], f.unresolved));
            }
        }
    }
}

} // verus!
