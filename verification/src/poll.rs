//! What a message from the poller does to the session, what keeps a view's cursor on its rows
//! as they change, and what the cache keeps for the next start.
//!
//! A message from a session that was replaced, or about a view that was popped, changes
//! nothing the user can see; an action's answer is the one message that outlives its view.

use vstd::prelude::*;
use crate::ascii::str_eq;
use crate::catalog::{opt_view, strings_view};
use crate::summary::{Sample, Stats};

verus! {

/// What a subscription's message says.
#[derive(Debug, Clone, Copy, PartialEq, Eq, Structural)]
pub enum SubBody {
    Started,
    Page,
    Complete,
    Entity,
    Error,
}

/// A message from the poller, as far as routing it goes.
#[derive(Debug, Clone, Copy, PartialEq, Eq, Structural)]
pub enum Msg {
    /// The answer to an action.
    Acted,
    /// A `once` that has run its cycle.
    Done,
    /// The Disaster Recovery tallies, from the session `generation`.
    Sample { generation: u64 },
    /// The seven counters, from the session `generation`.
    Stats { generation: u64 },
    /// Names for extIds, from the session `generation`.
    Names { generation: u64 },
    /// About a subscription: whether an open view still holds it, and whether it is the detail
    /// pane's own.
    Sub { live: bool, detail: bool, body: SubBody },
}

/// The part of the session a message can change.
#[derive(Debug, Clone, Copy, PartialEq, Eq, Structural)]
pub struct PollState {
    /// The session the messages are for; one from another is stale.
    pub generation: u64,
    /// Whether a session is up at all.
    pub live: bool,
    /// Whether the next frame must be drawn.
    pub dirty: bool,
    /// Whether the cache has something new to write.
    pub cache_dirty: bool,
    pub sample_seen: bool,
    pub stats_seen: bool,
    pub names_seen: bool,
}

/// What the session does with a message.
#[derive(Debug, Clone, Copy, PartialEq, Eq, Structural)]
pub enum Applied {
    /// An action's answer: wake the poller, refresh the row's kind now, and settle the journal.
    Acted,
    /// Stale, or about nothing open: dropped.
    Dropped,
    /// Reap the finished `once`, and answer a search that waited on it.
    Reap,
    /// Store the tallies and rebuild the summary.
    Sample,
    /// Store the counters and rebuild the summary.
    Stats,
    /// Store the names.
    Names,
    /// The detail pane's row: into the store, and its error cleared.
    DetailEntity,
    /// The detail pane's error, for the pane alone.
    DetailError,
    /// A detail message that says nothing.
    DetailIgnored,
    /// Into the store; then every cursor is held to the rows left
    /// ([`crate::table_view::clamp_selection`], [`crate::table_view::clamp_panes`]).
    Store,
}

/// Whether `msg` replaces what a cache holds.
pub open spec fn refills_cache(msg: Msg) -> bool {
    ||| msg matches Msg::Sub { body: SubBody::Complete, .. }
    ||| msg is Stats
    ||| msg is Sample
}

/// What `msg` does to `s`, and what the session does with it.
pub open spec fn applied(s: PollState, msg: Msg) -> (PollState, Applied) {
    let s = if refills_cache(msg) { PollState { cache_dirty: true, ..s } } else { s };
    match msg {
        Msg::Acted => (s, Applied::Acted),
        _ => if !s.live {
            (s, Applied::Dropped)
        } else {
            match msg {
                Msg::Done => (s, Applied::Reap),
                Msg::Sample { generation } => if generation == s.generation {
                    (PollState { sample_seen: true, dirty: true, ..s }, Applied::Sample)
                } else {
                    (s, Applied::Dropped)
                },
                Msg::Stats { generation } => if generation == s.generation {
                    (PollState { stats_seen: true, dirty: true, ..s }, Applied::Stats)
                } else {
                    (s, Applied::Dropped)
                },
                Msg::Names { generation } => if generation == s.generation {
                    (PollState { names_seen: true, dirty: true, ..s }, Applied::Names)
                } else {
                    (s, Applied::Dropped)
                },
                Msg::Sub { live, detail, body } => if !live {
                    (s, Applied::Dropped)
                } else if detail {
                    (PollState { dirty: true, ..s }, match body {
                        SubBody::Entity => Applied::DetailEntity,
                        SubBody::Error => Applied::DetailError,
                        _ => Applied::DetailIgnored,
                    })
                } else {
                    (PollState { dirty: true, ..s }, Applied::Store)
                },
                Msg::Acted => (s, Applied::Acted),
            }
        },
    }
}

/// A poll message. Stale ones - from a session that was replaced, or about a view that was
/// popped - are dropped; the rest say what reaches the store.
pub fn apply(s: &mut PollState, msg: Msg) -> (r: Applied)
    ensures
        (*final(s), r) == applied(*old(s), msg),
{
    if matches!(msg, Msg::Sub { body: SubBody::Complete, .. } | Msg::Stats { .. } | Msg::Sample { .. }) {
        s.cache_dirty = true;
    }
    if let Msg::Acted = msg {
        return Applied::Acted;
    }
    if !s.live {
        return Applied::Dropped;
    }
    match msg {
        Msg::Done => Applied::Reap,
        Msg::Sample { generation } => {
            if generation == s.generation {
                s.sample_seen = true;
                s.dirty = true;
                Applied::Sample
            } else {
                Applied::Dropped
            }
        },
        Msg::Stats { generation } => {
            if generation == s.generation {
                s.stats_seen = true;
                s.dirty = true;
                Applied::Stats
            } else {
                Applied::Dropped
            }
        },
        Msg::Names { generation } => {
            if generation == s.generation {
                s.names_seen = true;
                s.dirty = true;
                Applied::Names
            } else {
                Applied::Dropped
            }
        },
        Msg::Sub { live, detail, body } => {
            if !live {
                Applied::Dropped
            } else {
                s.dirty = true;
                if detail {
                    match body {
                        SubBody::Entity => Applied::DetailEntity,
                        SubBody::Error => Applied::DetailError,
                        _ => Applied::DetailIgnored,
                    }
                } else {
                    Applied::Store
                }
            }
        },
        Msg::Acted => Applied::Acted,
    }
}

/// A message from a session that was replaced reaches nothing: the only mark it leaves is that
/// the cache may have something to write.
pub proof fn stale_messages_change_nothing(s: PollState, msg: Msg)
    requires
        match msg {
            Msg::Sample { generation } | Msg::Stats { generation } | Msg::Names { generation } => generation != s.generation,
            _ => false,
        },
    ensures
        applied(s, msg).1 == Applied::Dropped,
        applied(s, msg).0 == (PollState { cache_dirty: s.cache_dirty || refills_cache(msg), ..s }),
{
}

/// A message about a view that was popped reaches nothing.
pub proof fn popped_views_hear_nothing(s: PollState, detail: bool, body: SubBody)
    requires
        s.live,
    ensures
        applied(s, Msg::Sub { live: false, detail, body }).1 == Applied::Dropped,
        applied(s, Msg::Sub { live: false, detail, body }).0.dirty == s.dirty,
{
}

/// What a table is, as far as the cache goes.
#[derive(Debug, Clone, PartialEq, Eq)]
pub struct TableHead {
    /// The kind's id.
    pub kind: String,
    /// The extIds of the rows it is listed under, outermost first.
    pub parents: Vec<String>,
    /// Whether it has polled this run.
    pub polled: bool,
    /// How many rows it holds.
    pub rows: usize,
    /// The filter it was listed with, if any.
    pub filter: Option<String>,
    /// The fields this run asked for, when the kind narrows its list.
    pub select: Option<String>,
    /// The total the server reported.
    pub total: Option<u64>,
}

/// Whether a table is written to the cache. One that has never polled is the one restored at
/// start - writing it back would keep yesterday's rows forever - and one listed with a filter
/// no page pane uses is a search, a question rather than a view.
pub open spec fn kept(t: TableHead, panes: Seq<Seq<char>>) -> bool {
    &&& t.polled
    &&& t.rows > 0
    &&& match t.filter {
        None => true,
        Some(f) => panes.contains(f@),
    }
}

/// The positions of the tables among the first `n` that are kept, in order.
pub open spec fn kept_upto(tables: Seq<TableHead>, panes: Seq<Seq<char>>, n: int) -> Seq<usize>
    decreases n,
{
    if n <= 0 {
        Seq::empty()
    } else if kept(tables[n - 1], panes) {
        kept_upto(tables, panes, n - 1).push((n - 1) as usize)
    } else {
        kept_upto(tables, panes, n - 1)
    }
}

/// The positions kept among the first `n` are below `n`.
proof fn lemma_kept_in_range(tables: Seq<TableHead>, panes: Seq<Seq<char>>, n: int)
    requires
        0 <= n <= usize::MAX,
    ensures
        forall|j: int| 0 <= j < kept_upto(tables, panes, n).len() ==> #[trigger] kept_upto(tables, panes, n)[j] < n,
    decreases n,
{
    if n > 0 {
        lemma_kept_in_range(tables, panes, n - 1);
        let prev = kept_upto(tables, panes, n - 1);
        if kept(tables[n - 1], panes) {
            let cur = prev.push((n - 1) as usize);
            assert(kept_upto(tables, panes, n) == cur);
            assert forall|j: int| 0 <= j < cur.len() implies #[trigger] cur[j] < n by {
                if j < prev.len() {
                    assert(cur[j] == prev[j]);
                }
            }
        }
    }
}

/// Whether `f` is one of `panes`.
fn is_pane_filter(f: &String, panes: &Vec<String>) -> (r: bool)
    ensures
        r == strings_view(panes@).contains(f@),
{
    let mut i: usize = 0;
    while i < panes.len()
        invariant
            i <= panes@.len(),
            forall|j: int| 0 <= j < i ==> panes@[j]@ != f@,
        decreases panes.len() - i,
    {
        if str_eq(panes[i].as_str(), f.as_str()) {
            proof {
                assert(strings_view(panes@)[i as int] == f@);
            }
            return true;
        }
        i = i + 1;
    }
    proof {
        if strings_view(panes@).contains(f@) {
            let j = choose|j: int| 0 <= j < strings_view(panes@).len() && strings_view(panes@)[j] == f@;
            assert(panes@[j]@ == f@);
        }
    }
    false
}

/// Which of the session's tables the cache keeps for the next start, by position, in order.
/// `pane_filters` are the filters the pages' panes list with.
pub fn cache_tables(tables: &Vec<TableHead>, pane_filters: &Vec<String>) -> (r: Vec<usize>)
    ensures
        r@ == kept_upto(tables@, strings_view(pane_filters@), tables@.len() as int),
{
    let mut r: Vec<usize> = Vec::new();
    let mut i: usize = 0;
    while i < tables.len()
        invariant
            i <= tables@.len(),
            r@ == kept_upto(tables@, strings_view(pane_filters@), i as int),
        decreases tables.len() - i,
    {
        let t = &tables[i];
        let keep = t.polled && t.rows > 0 && match &t.filter {
            None => true,
            Some(f) => is_pane_filter(f, pane_filters),
        };
        if keep {
            r.push(i);
        }
        i = i + 1;
    }
    r
}


/// A table as the cache writes it: the table it was, at position `table` among the session's
/// tables - whose rows go with it - and when.
#[derive(Debug, Clone, PartialEq, Eq)]
pub struct TableSnapshot {
    pub table: usize,
    pub kind: String,
    pub parents: Vec<String>,
    pub filter: Option<String>,
    /// What this run sent: the rows are that narrowing, not whole documents.
    pub select: Option<String>,
    pub total: Option<u64>,
    pub at: u64,
}

/// Who the cache belongs to.
#[derive(Debug, Clone, PartialEq, Eq)]
pub struct Identity {
    pub host: String,
    pub port: u16,
    pub username: String,
}

/// The seven counters, stamped.
#[derive(Debug, Clone, Copy, PartialEq, Eq, Structural)]
pub struct StatsRecord {
    pub clusters: Option<u64>,
    pub hosts: Option<u64>,
    pub vms: Option<u64>,
    pub vms_on: Option<u64>,
    pub alerts_critical: Option<u64>,
    pub alerts_warning: Option<u64>,
    pub tasks_running: Option<u64>,
    pub at: u64,
}

/// The sampler's tallies, stamped.
#[derive(Debug, Clone, Copy, PartialEq, Eq, Structural)]
pub struct SampleRecord {
    pub policies: Option<u64>,
    pub plans: Option<u64>,
    pub recovery_points: Option<u64>,
    pub jobs: Option<u64>,
    pub sampled: u64,
    pub in_sync: u64,
    pub syncing: u64,
    pub out_of_sync: u64,
    pub available: bool,
    pub at: u64,
}

/// Everything the next run's first frame needs that this library decides.
#[derive(Debug, Clone, PartialEq, Eq)]
pub struct Snapshot {
    pub identity: Identity,
    pub stats: Option<StatsRecord>,
    pub sample: Option<SampleRecord>,
    pub tables: Vec<TableSnapshot>,
}

/// The counters as the cache records them at `now`.
pub open spec fn stats_record(s: Stats, now: u64) -> StatsRecord {
    StatsRecord {
        clusters: s.clusters,
        hosts: s.hosts,
        vms: s.vms,
        vms_on: s.vms_on,
        alerts_critical: s.alerts_critical,
        alerts_warning: s.alerts_warning,
        tasks_running: s.tasks_running,
        at: now,
    }
}

/// The tallies as the cache records them at `now`.
pub open spec fn sample_record(s: Sample, now: u64) -> SampleRecord {
    SampleRecord {
        policies: s.policies,
        plans: s.plans,
        recovery_points: s.recovery_points,
        jobs: s.jobs,
        sampled: s.sampled,
        in_sync: s.in_sync,
        syncing: s.syncing,
        out_of_sync: s.out_of_sync,
        available: s.available,
        at: now,
    }
}

/// Whether `s` is table `t`, at position `i`, as the cache writes it at `now`.
pub open spec fn snapshot_of(s: TableSnapshot, t: TableHead, i: usize, now: u64) -> bool {
    &&& s.table == i
    &&& s.kind@ == t.kind@
    &&& strings_view(s.parents@) == strings_view(t.parents@)
    &&& opt_view(s.filter) == opt_view(t.filter)
    &&& opt_view(s.select) == opt_view(t.select)
    &&& s.total == t.total
    &&& s.at == now
}

/// A copy of a list of strings.
fn copy_strings(v: &Vec<String>) -> (r: Vec<String>)
    ensures
        strings_view(r@) == strings_view(v@),
{
    let mut r: Vec<String> = Vec::new();
    let mut i: usize = 0;
    while i < v.len()
        invariant
            i <= v@.len(),
            strings_view(r@) == strings_view(v@.subrange(0, i as int)),
        decreases v.len() - i,
    {
        r.push(v[i].clone());
        proof {
            assert(strings_view(v@.subrange(0, i + 1)) =~= strings_view(v@.subrange(0, i as int)).push(v@[i as int]@));
            assert(strings_view(r@) =~= strings_view(v@.subrange(0, i + 1)));
        }
        i = i + 1;
    }
    proof {
        assert(v@.subrange(0, v@.len() as int) =~= v@);
    }
    r
}

/// A copy of an optional string.
fn copy_opt(o: &Option<String>) -> (r: Option<String>)
    ensures
        opt_view(r) == opt_view(*o),
{
    match o {
        Some(s) => Some(s.clone()),
        None => None,
    }
}

/// Everything the cache writes for the next start, at `now`: who the session is, the counters
/// and the tallies stamped `now`, and every table it keeps - in order, each stamped `now` and
/// carrying the fields this run asked for.
pub fn cache_snapshot(
    identity: &Identity,
    stats: &Stats,
    sample: &Sample,
    tables: &Vec<TableHead>,
    pane_filters: &Vec<String>,
    now: u64,
) -> (r: Snapshot)
    ensures
        r.identity.host@ == identity.host@,
        r.identity.port == identity.port,
        r.identity.username@ == identity.username@,
        r.stats == Some(stats_record(*stats, now)),
        r.sample == Some(sample_record(*sample, now)),
        r.tables@.len() == kept_upto(tables@, strings_view(pane_filters@), tables@.len() as int).len(),
        forall|k: int| 0 <= k < r.tables@.len() ==> {
            let i = kept_upto(tables@, strings_view(pane_filters@), tables@.len() as int)[k];
            snapshot_of(#[trigger] r.tables@[k], tables@[i as int], i, now)
        },
{
    let kept = cache_tables(tables, pane_filters);
    proof {
        assert(tables@.len() == tables.len());
        lemma_kept_in_range(tables@, strings_view(pane_filters@), tables@.len() as int);
    }
    let mut out: Vec<TableSnapshot> = Vec::new();
    let mut k: usize = 0;
    while k < kept.len()
        invariant
            k <= kept@.len(),
            out@.len() == k,
            kept@ == kept_upto(tables@, strings_view(pane_filters@), tables@.len() as int),
            forall|j: int| 0 <= j < kept@.len() ==> kept@[j] < tables@.len(),
            forall|j: int| 0 <= j < k ==> snapshot_of(#[trigger] out@[j], tables@[kept@[j] as int], kept@[j], now),
        decreases kept.len() - k,
    {
        let i = kept[k];
        let t = &tables[i];
        out.push(TableSnapshot {
            table: i,
            kind: t.kind.clone(),
            parents: copy_strings(&t.parents),
            filter: copy_opt(&t.filter),
            select: copy_opt(&t.select),
            total: t.total,
            at: now,
        });
        k = k + 1;
    }
    Snapshot {
        identity: Identity { host: identity.host.clone(), port: identity.port, username: identity.username.clone() },
        stats: Some(StatsRecord {
            clusters: stats.clusters,
            hosts: stats.hosts,
            vms: stats.vms,
            vms_on: stats.vms_on,
            alerts_critical: stats.alerts_critical,
            alerts_warning: stats.alerts_warning,
            tasks_running: stats.tasks_running,
            at: now,
        }),
        sample: Some(SampleRecord {
            policies: sample.policies,
            plans: sample.plans,
            recovery_points: sample.recovery_points,
            jobs: sample.jobs,
            sampled: sample.sampled,
            in_sync: sample.in_sync,
            syncing: sample.syncing,
            out_of_sync: sample.out_of_sync,
            available: sample.available,
            at: now,
        }),
        tables: out,
    }
}

} // verus!
