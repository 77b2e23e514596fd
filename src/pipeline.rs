//! The event pipeline: resolved paths are deduplicated by path and enriched
//! with a size and a timestamp, in the order they were first seen.
use vstd::prelude::*;

use crate::record::FanotifyEvent;

verus! {

/// One distinct path that was accessed, with the size it had and the time
/// (microseconds since the start of observation) when it was first seen.
#[derive(Debug, Clone)]
pub struct EventInfo {
    pub path: String,
    pub size: u64,
    pub elapsed: u128,
}

impl View for EventInfo {
    type V = (Seq<char>, u64, u128);

    open spec fn view(&self) -> (Seq<char>, u64, u128) {
        (self.path@, self.size, self.elapsed)
    }
}

/// Two entries are the same entry when they name the same path.
impl PartialEq for EventInfo {
    fn eq(&self, target: &EventInfo) -> (r: bool) {
        self.path == target.path
    }
}

impl vstd::std_specs::cmp::PartialEqSpecImpl for EventInfo {
    open spec fn obeys_eq_spec() -> bool {
        true
    }

    open spec fn eq_spec(&self, target: &EventInfo) -> bool {
        self.path@ == target.path@
    }
}

/// Model of an entry: path, size, timestamp.
pub type Entry = (Seq<char>, u64, u128);

/// The paths of a sequence of entries, in order.
pub open spec fn paths_of(s: Seq<Entry>) -> Seq<Seq<char>> {
    s.map_values(|e: Entry| e.0)
}

/// Whether some entry of `s` has path `p`.
pub open spec fn seen(s: Seq<Entry>, p: Seq<char>) -> bool {
    exists|i: int| 0 <= i < s.len() && #[trigger] s[i].0 == p
}

/// The timestamp recorded for an entry observed at `t` after the entries
/// `s`: never earlier than the last one, so that timestamps never decrease.
pub open spec fn stamp(s: Seq<Entry>, t: u128) -> u128 {
    if s.len() > 0 && s.last().2 > t {
        s.last().2
    } else {
        t
    }
}

/// The entries after recording path `p` of size `size` observed at `t`:
/// a path already seen leaves them unchanged; a new one is appended.
pub open spec fn after_record(s: Seq<Entry>, p: Seq<char>, size: u64, t: u128) -> Seq<Entry> {
    if seen(s, p) {
        s
    } else {
        s.push((p, size, stamp(s, t)))
    }
}

/// The entries after recording each observation of `xs` in turn.
pub open spec fn record_all(s: Seq<Entry>, xs: Seq<Entry>) -> Seq<Entry>
    decreases xs.len(),
{
    if xs.len() == 0 {
        s
    } else {
        let prev = record_all(s, xs.drop_last());
        after_record(prev, xs.last().0, xs.last().1, xs.last().2)
    }
}

/// The distinct paths of `ps`, each at the place of its first occurrence.
pub open spec fn first_seen(ps: Seq<Seq<char>>) -> Seq<Seq<char>>
    decreases ps.len(),
{
    if ps.len() == 0 {
        Seq::empty()
    } else {
        let prev = first_seen(ps.drop_last());
        if prev.contains(ps.last()) {
            prev
        } else {
            prev.push(ps.last())
        }
    }
}

/// Well-formed entries: unique by path, timestamps non-decreasing.
pub open spec fn entries_wf(s: Seq<Entry>) -> bool {
    &&& forall|i: int, j: int| 0 <= i < j < s.len() ==> s[i].0 != s[j].0
    &&& forall|i: int, j: int| 0 <= i <= j < s.len() ==> s[i].2 <= s[j].2
}

proof fn lemma_after_record_wf(s: Seq<Entry>, p: Seq<char>, size: u64, t: u128)
    requires
        entries_wf(s),
    ensures
        entries_wf(after_record(s, p, size, t)),
        paths_of(after_record(s, p, size, t)) == if seen(s, p) {
            paths_of(s)
        } else {
            paths_of(s).push(p)
        },
        forall|q: Seq<char>| seen(after_record(s, p, size, t), q) <==> (seen(s, q) || q == p),
{
    let r = after_record(s, p, size, t);
    if !seen(s, p) {
        assert forall|i: int, j: int| 0 <= i < j < r.len() implies r[i].0 != r[j].0 by {
            if j == s.len() {
                assert(s[i].0 != p);
            }
        }
        assert forall|i: int, j: int| 0 <= i <= j < r.len() implies r[i].2 <= r[j].2 by {
            if j == s.len() && i < j {
                assert(s[i].2 <= s[s.len() - 1].2);
            }
        }
        assert(paths_of(r) =~= paths_of(s).push(p));
        assert forall|q: Seq<char>| seen(r, q) <==> (seen(s, q) || q == p) by {
            if q == p {
                assert(r[s.len() as int].0 == p);
            }
            if seen(r, q) && q != p {
                let i = choose|i: int| 0 <= i < r.len() && #[trigger] r[i].0 == q;
                assert(s[i].0 == q);
            }
            if seen(s, q) {
                let i = choose|i: int| 0 <= i < s.len() && #[trigger] s[i].0 == q;
                assert(r[i].0 == q);
            }
        }
    } else {
        assert forall|q: Seq<char>| seen(r, q) <==> (seen(s, q) || q == p) by {}
    }
}

proof fn lemma_seen_paths(s: Seq<Entry>, p: Seq<char>)
    ensures
        seen(s, p) <==> paths_of(s).contains(p),
{
    if seen(s, p) {
        let i = choose|i: int| 0 <= i < s.len() && #[trigger] s[i].0 == p;
        assert(paths_of(s)[i] == p);
    }
    if paths_of(s).contains(p) {
        let i = choose|i: int| 0 <= i < paths_of(s).len() && #[trigger] paths_of(s)[i] == p;
        assert(s[i].0 == p);
    }
}

/// Recording any sequence of observations keeps the entries unique by path
/// with non-decreasing timestamps, and a path has an entry exactly when it
/// was observed at least once.
pub proof fn lemma_deduplication(xs: Seq<Entry>)
    ensures
        entries_wf(record_all(Seq::empty(), xs)),
        forall|p: Seq<char>| #[trigger]
            seen(record_all(Seq::empty(), xs), p) <==> paths_of(xs).contains(p),
    decreases xs.len(),
{
    if xs.len() > 0 {
        let init = xs.drop_last();
        lemma_deduplication(init);
        let prev = record_all(Seq::empty(), init);
        let x = xs.last();
        lemma_after_record_wf(prev, x.0, x.1, x.2);
        assert(paths_of(xs) =~= paths_of(init).push(x.0));
        assert forall|p: Seq<char>| #[trigger]
            seen(record_all(Seq::empty(), xs), p) <==> paths_of(xs).contains(p) by {
            assert(seen(prev, p) <==> paths_of(init).contains(p));
            if paths_of(init).contains(p) {
                let i = choose|i: int| 0 <= i < paths_of(init).len() && #[trigger] paths_of(init)[i]
                    == p;
                assert(paths_of(xs)[i] == p);
            }
            if paths_of(xs).contains(p) && p != x.0 {
                let i = choose|i: int| 0 <= i < paths_of(xs).len() && #[trigger] paths_of(xs)[i]
                    == p;
                assert(paths_of(init)[i] == p);
            }
            if p == x.0 {
                assert(paths_of(xs)[xs.len() - 1] == p);
            }
        }
    } else {
        assert forall|p: Seq<char>| #[trigger]
            seen(record_all(Seq::empty(), xs), p) <==> paths_of(xs).contains(p) by {
            if paths_of(xs).contains(p) {
                let i = choose|i: int| 0 <= i < paths_of(xs).len() && #[trigger] paths_of(xs)[i]
                    == p;
            }
        }
    }
}

/// However many observations of one path are recorded, possibly through
/// different descriptors, exactly one entry results, for that path.
pub proof fn lemma_same_path_once(xs: Seq<Entry>, p: Seq<char>)
    requires
        xs.len() > 0,
        forall|i: int| 0 <= i < xs.len() ==> #[trigger] xs[i].0 == p,
    ensures
        record_all(Seq::empty(), xs).len() == 1,
        record_all(Seq::empty(), xs)[0].0 == p,
    decreases xs.len(),
{
    let init = xs.drop_last();
    let prev = record_all(Seq::empty(), init);
    if init.len() > 0 {
        lemma_same_path_once(init, p);
        assert(seen(prev, p)) by {
            assert(prev[0].0 == p);
        }
    } else {
        assert(prev.len() == 0);
        assert(!seen(prev, p));
    }
}

/// The entries list the distinct observed paths in the order in which each
/// was first observed, however many repeats are interleaved.
pub proof fn lemma_first_seen_order(xs: Seq<Entry>)
    ensures
        paths_of(record_all(Seq::empty(), xs)) == first_seen(paths_of(xs)),
    decreases xs.len(),
{
    if xs.len() > 0 {
        let init = xs.drop_last();
        lemma_first_seen_order(init);
        lemma_deduplication(init);
        let prev = record_all(Seq::empty(), init);
        let x = xs.last();
        lemma_after_record_wf(prev, x.0, x.1, x.2);
        lemma_seen_paths(prev, x.0);
        assert(paths_of(xs).drop_last() =~= paths_of(init));
        assert(paths_of(xs).last() == x.0);
    } else {
        assert(paths_of(record_all(Seq::empty(), xs)) =~= first_seen(paths_of(xs)));
    }
}

/// What became of one raw record once its descriptor was resolved.
#[derive(Debug, Clone, PartialEq, Eq)]
pub enum EventStep {
    /// The descriptor could not be resolved (the OS error code); the record is dropped.
    Unresolved(i32),
    /// The path was seen before; nothing is recorded.
    Repeat,
    /// A path not seen before: its metadata is to be fetched and recorded.
    Fresh(String),
}

/// The decision for one record, with the descriptor that must be closed.
#[derive(Debug, Clone, PartialEq, Eq)]
pub struct EventOutcome {
    pub close_fd: i32,
    pub step: EventStep,
}

/// Why recording a fresh path failed.
#[derive(Debug, Clone, Copy, PartialEq, Eq)]
pub enum EventError {
    /// The file's metadata could not be read (the OS error code).
    Metadata(i32),
}

/// The accumulated, deduplicated access events.
pub struct EventPipeline {
    events: Vec<EventInfo>,
    /// Every observation recorded with a successful metadata read, in order.
    observed: Ghost<Seq<Entry>>,
}

impl View for EventPipeline {
    type V = Seq<Entry>;

    closed spec fn view(&self) -> Seq<Entry> {
        self.events@.map_values(|e: EventInfo| e@)
    }
}

impl EventPipeline {
    /// Entries stay unique by path, with non-decreasing timestamps.
    pub open spec fn wf(&self) -> bool {
        &&& entries_wf(self@)
        &&& self@ == record_all(Seq::empty(), self.observed())
    }

    /// The observations recorded so far (path, size, time), repeats included.
    pub closed spec fn observed(&self) -> Seq<Entry> {
        self.observed@
    }

    pub fn new() -> (r: EventPipeline)
        ensures
            r@ == Seq::<Entry>::empty(),
            r.observed() == Seq::<Entry>::empty(),
            r.wf(),
    {
        let r = EventPipeline { events: Vec::new(), observed: Ghost(Seq::empty()) };
        assert(r@ =~= Seq::<Entry>::empty());
        r
    }

    pub fn len(&self) -> (r: usize)
        ensures
            r == self@.len(),
    {
        self.events.len()
    }

    /// The entry at index `i`.
    pub fn entry(&self, i: usize) -> (r: &EventInfo)
        requires
            i < self@.len(),
        ensures
            r@ == self@[i as int],
    {
        &self.events[i]
    }

    /// All entries, in the order their paths were first seen.
    pub fn entries(&self) -> (r: &Vec<EventInfo>)
        ensures
            r@.map_values(|e: EventInfo| e@) == self@,
    {
        &self.events
    }

    /// Whether an entry with this path was already recorded.
    pub fn contains(&self, path: &String) -> (r: bool)
        ensures
            r == seen(self@, path@),
    {
        let mut i: usize = 0;
        while i < self.events.len()
            invariant
                i <= self.events@.len(),
                forall|k: int| 0 <= k < i ==> self@[k].0 != path@,
            decreases self.events@.len() - i,
        {
            if self.events[i].path == *path {
                assert(self@[i as int].0 == path@);
                return true;
            }
            i += 1;
        }
        false
    }

    /// Decides what to do with one raw record, given the outcome of resolving
    /// its descriptor to a path. Whatever that outcome, the record's
    /// descriptor is handed back to be closed.
    pub fn handle_event(&self, event: &FanotifyEvent, resolved: Result<String, i32>) -> (r:
        EventOutcome)
        ensures
            r.close_fd == event.fd,
            match resolved {
                Err(code) => r.step == EventStep::Unresolved(code),
                Ok(p) => if seen(self@, p@) {
                    r.step == EventStep::Repeat
                } else {
                    r.step == EventStep::Fresh(p)
                },
            },
    {
        let step = match resolved {
            Err(code) => EventStep::Unresolved(code),
            Ok(p) => {
                if self.contains(&p) {
                    EventStep::Repeat
                } else {
                    EventStep::Fresh(p)
                }
            },
        };
        EventOutcome { close_fd: event.fd, step }
    }

    /// Decides what to do with each record of one drained batch, given the
    /// outcome of resolving each record's descriptor (`resolved[i]` for
    /// `records[i]`). One outcome per record, in order, and each hands back
    /// exactly its own record's descriptor to be closed, whether or not it
    /// resolved.
    pub fn handle_batch(&self, records: &Vec<FanotifyEvent>, resolved: &Vec<Result<String, i32>>) -> (r:
        Vec<EventOutcome>)
        requires
            resolved@.len() == records@.len(),
        ensures
            r@.len() == records@.len(),
            r@.map_values(|o: EventOutcome| o.close_fd) == records@.map_values(
                |e: FanotifyEvent| e.fd,
            ),
            forall|i: int|
                0 <= i < r@.len() ==> match #[trigger] resolved@[i] {
                    Err(code) => r@[i].step == EventStep::Unresolved(code),
                    Ok(p) => if seen(self@, p@) {
                        r@[i].step == EventStep::Repeat
                    } else {
                        r@[i].step == EventStep::Fresh(p)
                    },
                },
    {
        let mut out: Vec<EventOutcome> = Vec::new();
        let mut i: usize = 0;
        while i < records.len()
            invariant
                i <= records@.len(),
                resolved@.len() == records@.len(),
                out@.len() == i,
                forall|k: int| 0 <= k < i ==> #[trigger] out@[k].close_fd == records@[k].fd,
                forall|k: int|
                    0 <= k < i ==> match #[trigger] resolved@[k] {
                        Err(code) => out@[k].step == EventStep::Unresolved(code),
                        Ok(p) => if seen(self@, p@) {
                            out@[k].step == EventStep::Repeat
                        } else {
                            out@[k].step == EventStep::Fresh(p)
                        },
                    },
            decreases records@.len() - i,
        {
            let res = match &resolved[i] {
                Ok(p) => Ok(p.clone()),
                Err(c) => Err(*c),
            };
            let o = self.handle_event(&records[i], res);
            out.push(o);
            i += 1;
        }
        assert(out@.map_values(|o: EventOutcome| o.close_fd) =~= records@.map_values(
            |e: FanotifyEvent| e.fd,
        ));
        out
    }

    /// Records a path with the outcome of reading its metadata and the time
    /// it was observed. A path seen before is left as it was; a failed
    /// metadata read records nothing. Returns whether an entry was added.
    pub fn record(&mut self, path: String, metadata: Result<u64, i32>, elapsed: u128) -> (r:
        Result<bool, EventError>)
        ensures
            old(self).wf() ==> final(self).wf(),
            match metadata {
                Err(code) => {
                    &&& r == Err::<bool, EventError>(EventError::Metadata(code))
                    &&& final(self)@ == old(self)@
                    &&& final(self).observed() == old(self).observed()
                },
                Ok(size) => {
                    &&& r == Ok::<bool, EventError>(!seen(old(self)@, path@))
                    &&& final(self)@ == after_record(old(self)@, path@, size, elapsed)
                    &&& final(self).observed() == old(self).observed().push((path@, size, elapsed))
                },
            },
    {
        match metadata {
            Err(code) => {
                assert(self@ == old(self)@);
                Err(EventError::Metadata(code))
            },
            Ok(size) => {
                let ghost obs = self.observed@.push((path@, size, elapsed));
                proof {
                    assert(obs.drop_last() =~= self.observed@);
                }
                if self.contains(&path) {
                    self.observed = Ghost(obs);
                    Ok(false)
                } else {
                    let n = self.events.len();
                    let t = if n > 0 && self.events[n - 1].elapsed > elapsed {
                        self.events[n - 1].elapsed
                    } else {
                        elapsed
                    };
                    let ghost s0 = self@;
                    let ghost p = path@;
                    proof {
                        if entries_wf(s0) {
                            lemma_after_record_wf(s0, p, size, elapsed);
                        }
                    }
                    self.events.push(EventInfo { path, size, elapsed: t });
                    self.observed = Ghost(obs);
                    assert(self@ =~= s0.push((p, size, t)));
                    Ok(true)
                }
            },
        }
    }
}

/// The entries of a well-formed pipeline list exactly the distinct paths
/// recorded so far, each once, in the order each was first recorded.
pub proof fn lemma_pipeline_first_seen(p: &EventPipeline)
    requires
        p.wf(),
    ensures
        paths_of(p@) == first_seen(paths_of(p.observed())),
        forall|q: Seq<char>| #[trigger] seen(p@, q) <==> paths_of(p.observed()).contains(q),
{
    lemma_first_seen_order(p.observed());
    lemma_deduplication(p.observed());
}

/// A well-formed pipeline in which only one path was ever recorded, however
/// many times, holds exactly one entry, for that path.
pub proof fn lemma_pipeline_one_path(p: &EventPipeline, q: Seq<char>)
    requires
        p.wf(),
        p.observed().len() > 0,
        forall|i: int| 0 <= i < p.observed().len() ==> #[trigger] p.observed()[i].0 == q,
    ensures
        p@.len() == 1,
        p@[0].0 == q,
{
    lemma_same_path_once(p.observed(), q);
}

} // verus!
