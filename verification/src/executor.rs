//! The filter pipeline executor.
//!
//! A packet runs through the instances of a pipeline in order. Instances that
//! are disabled, that do not apply to the packet's direction, or whose filter
//! declines the packet are skipped (for a filter that describes itself, the
//! contracts say which packets it declines). A `Block` from a dry-run instance is
//! logged and the run goes on; a `Block` from any other instance is logged and
//! ends the run with that verdict. A run that reaches the end passes.

use vstd::prelude::*;
use crate::clock::now_ms;
use crate::filter::{Filter, FilterInstance};
use crate::log_entry::{LogEntry, LogRecord};
use crate::packet::Packet;
use crate::text::string_of;
use crate::verdict::{Verdict, VerdictView};
use crate::wire::{default_sample_cap, sample_from_packet, sample_spec};
use tokio::sync::mpsc::UnboundedSender;

verus! {

/// The producer half of tokio's unbounded channel, carried through unread.
#[verifier::external_type_specification]
#[verifier::external_body]
#[verifier::reject_recursive_types(T)]
pub struct ExUnboundedSender<T>(UnboundedSender<T>);

/// `UnboundedSender::send`: queues `entry` on the log channel. Its error (the
/// receiving half is gone, as during shutdown) is dropped on purpose: the
/// verdict is what matters. Nothing is stated of the channel itself;
/// [`LogSender`] records what is handed to it.
#[verifier::external_body]
fn send_entry(log: &UnboundedSender<LogEntry>, entry: LogEntry) {
    let _ = log.send(entry);
}

/// The producer side of the block log: a channel half, and the entries
/// handed to it so far, in order. Each entry is queued on the channel as it
/// is sent; a receiver that is gone (as during shutdown) drops it.
pub struct LogSender {
    tx: Option<UnboundedSender<LogEntry>>,
    sent: Ghost<Seq<LogRecord>>,
}

impl View for LogSender {
    type V = Seq<LogRecord>;

    /// The entries sent so far, oldest first.
    closed spec fn view(&self) -> Seq<LogRecord> {
        self.sent@
    }
}

impl LogSender {
    /// The channel half entries are queued on, if there is one.
    pub closed spec fn channel(&self) -> Option<UnboundedSender<LogEntry>> {
        self.tx
    }

    /// A sender over the channel half `tx`, with nothing sent yet.
    pub fn new(tx: UnboundedSender<LogEntry>) -> (r: LogSender)
        ensures
            r@ == Seq::<LogRecord>::empty(),
            r.channel() == Some(tx),
    {
        LogSender { tx: Some(tx), sent: Ghost(Seq::empty()) }
    }

    /// A sender with no channel behind it, for runs that only collect their
    /// entries.
    fn detached() -> (r: LogSender)
        ensures
            r@ == Seq::<LogRecord>::empty(),
            r.channel() is None,
    {
        LogSender { tx: None, sent: Ghost(Seq::empty()) }
    }

    /// Send `entry` on the channel: it is queued on the channel half, which
    /// stays the same.
    pub fn send(&mut self, entry: LogEntry)
        ensures
            final(self)@ == old(self)@.push(entry@),
            final(self).channel() == old(self).channel(),
    {
        let ghost e = entry@;
        match &self.tx {
            Some(tx) => send_entry(tx, entry),
            None => {},
        }
        self.sent = Ghost(self.sent@.push(e));
    }
}

/// Whether the executor may ask `inst` for a verdict on `p`: the instance is
/// enabled and applies to the packet's direction, and a described filter
/// accepts the packet. (A filter that does not describe itself may still
/// decline; skipping it then has the effect of a `Pass`.)
pub open spec fn consults(inst: FilterInstance, p: Packet) -> bool {
    &&& inst.enabled
    &&& inst.spec_applies_to(p.spec_direction())
    &&& (inst.filter.described() ==> inst.filter.spec_accepts(p))
}

/// Where a run over the first `n` instances stands, given the verdict
/// `verdicts[i]` that instance `i` returns when consulted: the reason of the
/// block that ended the run (if one did), and the logged matches in order, as
/// pairs of instance index and reason.
pub open spec fn run_prefix(
    p: Packet,
    pipeline: Seq<FilterInstance>,
    verdicts: Seq<VerdictView>,
    n: int,
) -> (Option<Seq<char>>, Seq<(int, Seq<char>)>)
    decreases n,
{
    if n <= 0 {
        (None, Seq::empty())
    } else {
        let (stop, hits) = run_prefix(p, pipeline, verdicts, n - 1);
        if stop is Some || !consults(pipeline[n - 1], p) {
            (stop, hits)
        } else {
            match verdicts[n - 1] {
                VerdictView::Pass => (None, hits),
                VerdictView::Block(reason) => {
                    let logged = hits.push((n - 1, reason));
                    if pipeline[n - 1].dry_run {
                        (None, logged)
                    } else {
                        (Some(reason), logged)
                    }
                },
            }
        }
    }
}

/// The run over the whole pipeline.
pub open spec fn run_all(p: Packet, pipeline: Seq<FilterInstance>, verdicts: Seq<VerdictView>) -> (
    Option<Seq<char>>,
    Seq<(int, Seq<char>)>,
) {
    run_prefix(p, pipeline, verdicts, pipeline.len() as int)
}

/// The pipeline verdict of a run: `Block` with the reason that ended it, or
/// `Pass`.
pub open spec fn verdict_of(stop: Option<Seq<char>>) -> VerdictView {
    match stop {
        Some(reason) => VerdictView::Block(reason),
        None => VerdictView::Pass,
    }
}

/// `verdicts` holds, for every filter of `pipeline` that the run reaches and
/// consults, an answer that filter may give (or `Pass`, for a filter that
/// does not describe itself and declined the packet); the entries of
/// instances after the end of the run are never read.
pub open spec fn admissible(
    p: Packet,
    pipeline: Seq<FilterInstance>,
    verdicts: Seq<VerdictView>,
) -> bool {
    &&& verdicts.len() == pipeline.len()
    &&& forall|i: int|
        0 <= i < pipeline.len() && consults(#[trigger] pipeline[i], p) && run_prefix(
            p,
            pipeline,
            verdicts,
            i,
        ).0 is None ==> pipeline[i].filter.inspect_allows(p, verdicts[i]) || (
        !pipeline[i].filter.described() && verdicts[i] is Pass)
}

/// The log entry written when `inst` reports `reason` for packet `p` of
/// `service`: every field but the timestamp is fixed.
pub open spec fn logged_as(
    e: LogRecord,
    p: Packet,
    service: Seq<char>,
    inst: FilterInstance,
    reason: Seq<char>,
) -> bool {
    &&& e.id is None
    &&& e.ts >= 0
    &&& e.service == service
    &&& e.direction == p.spec_direction()
    &&& e.filter_id == inst.id
    &&& inst.filter.described() ==> e.rule_kind == inst.filter.spec_kind()
    &&& e.dry_run == inst.dry_run
    &&& e.reason == reason
    &&& e.sample == sample_spec(p, 1024)
}

/// The entries of `entries` are, in order, the log entries of the matches in
/// `hits`.
pub open spec fn entries_match(
    entries: Seq<LogRecord>,
    p: Packet,
    service: Seq<char>,
    pipeline: Seq<FilterInstance>,
    hits: Seq<(int, Seq<char>)>,
) -> bool {
    &&& entries.len() == hits.len()
    &&& forall|k: int|
        0 <= k < hits.len() ==> logged_as(
            #[trigger] entries[k],
            p,
            service,
            pipeline[hits[k].0],
            hits[k].1,
        )
}

/// The views of a sequence of log entries.
pub open spec fn records(v: Seq<LogEntry>) -> Seq<LogRecord> {
    v.map_values(|e: LogEntry| e@)
}

/// Once a run has ended, later instances change nothing.
proof fn lemma_stop_sticky(
    p: Packet,
    pipeline: Seq<FilterInstance>,
    verdicts: Seq<VerdictView>,
    m: int,
    n: int,
)
    requires
        0 <= m <= n,
        run_prefix(p, pipeline, verdicts, m).0 is Some,
    ensures
        run_prefix(p, pipeline, verdicts, n) == run_prefix(p, pipeline, verdicts, m),
    decreases n - m,
{
    if m < n {
        lemma_stop_sticky(p, pipeline, verdicts, m, n - 1);
    }
}

/// A run over the first `n` instances reads only the first `n` verdicts.
proof fn lemma_prefix_only(
    p: Packet,
    pipeline: Seq<FilterInstance>,
    v1: Seq<VerdictView>,
    v2: Seq<VerdictView>,
    n: int,
)
    requires
        0 <= n <= v1.len(),
        n <= v2.len(),
        forall|i: int| 0 <= i < n ==> v1[i] == v2[i],
    ensures
        run_prefix(p, pipeline, v1, n) == run_prefix(p, pipeline, v2, n),
    decreases n,
{
    if n > 0 {
        lemma_prefix_only(p, pipeline, v1, v2, n - 1);
    }
}

/// Run `packet` through `pipeline` and return the pipeline verdict together
/// with the log entries of every match, in the order they were made.
pub fn run_pipeline(packet: &Packet<'_>, service: &str, pipeline: &[FilterInstance]) -> (r: (
    Verdict,
    Vec<LogEntry>,
))
    ensures
        exists|verdicts: Seq<VerdictView>|
            {
                &&& admissible(*packet, pipeline@, verdicts)
                &&& r.0@ == verdict_of(#[trigger] run_all(*packet, pipeline@, verdicts).0)
                &&& entries_match(
                    records(r.1@),
                    *packet,
                    service@,
                    pipeline@,
                    run_all(*packet, pipeline@, verdicts).1,
                )
            },
{
    let mut log = LogSender::detached();
    run(packet, service, pipeline, &mut log)
}

/// The run itself; each entry is also sent on `log` as soon as it is made,
/// before any later filter runs.
fn run(
    packet: &Packet<'_>,
    service: &str,
    pipeline: &[FilterInstance],
    log: &mut LogSender,
) -> (r: (Verdict, Vec<LogEntry>))
    ensures
        final(log)@ == old(log)@ + records(r.1@),
        final(log).channel() == old(log).channel(),
        exists|verdicts: Seq<VerdictView>|
            {
                &&& admissible(*packet, pipeline@, verdicts)
                &&& r.0@ == verdict_of(#[trigger] run_all(*packet, pipeline@, verdicts).0)
                &&& entries_match(
                    records(r.1@),
                    *packet,
                    service@,
                    pipeline@,
                    run_all(*packet, pipeline@, verdicts).1,
                )
            },
{
    let ghost p = *packet;
    let ghost pl = pipeline@;
    let ghost mut vs: Seq<VerdictView> = Seq::empty();
    let mut entries: Vec<LogEntry> = Vec::new();
    let direction = packet.direction();
    let mut i: usize = 0;
    while i < pipeline.len()
        invariant
            i <= pl.len(),
            pl == pipeline@,
            p == *packet,
            direction == p.spec_direction(),
            vs.len() == i,
            forall|j: int|
                0 <= j < i && consults(#[trigger] pl[j], p) ==> pl[j].filter.inspect_allows(
                    p,
                    vs[j],
                ) || (!pl[j].filter.described() && vs[j] is Pass),
            run_prefix(p, pl, vs, i as int).0 is None,
            entries_match(records(entries@), p, service@, pl, run_prefix(p, pl, vs, i as int).1),
            log@ == old(log)@ + records(entries@),
            log.channel() == old(log).channel(),
        decreases pipeline.len() - i,
    {
        let instance = &pipeline[i];
        let ghost prev = vs;
        proof {
            lemma_prefix_only(p, pl, vs, vs.push(VerdictView::Pass), i as int);
        }
        if !instance.enabled || !instance.applies_to(direction) || !instance.filter.accepts(
            packet,
        ) {
            proof {
                vs = vs.push(VerdictView::Pass);
            }
        } else {
            let v = instance.filter.inspect(packet);
            proof {
                lemma_prefix_only(p, pl, prev, prev.push(v@), i as int);
                vs = vs.push(v@);
            }
            match v {
                Verdict::Pass => {},
                Verdict::Block { reason } => {
                    let kind = instance.filter.kind();
                    let entry = LogEntry {
                        id: None,
                        ts: now_ms(),
                        service: string_of(service),
                        direction,
                        filter_id: instance.id,
                        rule_kind: string_of(kind),
                        dry_run: instance.dry_run,
                        reason: reason.clone(),
                        sample: sample_from_packet(packet, default_sample_cap()),
                    };
                    log.send(entry.duplicate());
                    let ghost before = records(entries@);
                    entries.push(entry);
                    proof {
                        assert(records(entries@) =~= before.push(entries@.last()@));
                    }
                    if !instance.dry_run {
                        let ghost full = vs + Seq::new(
                            (pl.len() - vs.len()) as nat,
                            |k: int| VerdictView::Pass,
                        );
                        proof {
                            lemma_prefix_only(p, pl, vs, full, i + 1);
                            lemma_stop_sticky(p, pl, full, i + 1, pl.len() as int);
                            assert forall|j: int|
                                0 <= j < pl.len() && consults(#[trigger] pl[j], p) && run_prefix(
                                    p,
                                    pl,
                                    full,
                                    j,
                                ).0 is None implies pl[j].filter.inspect_allows(p, full[j]) || (
                                !pl[j].filter.described() && full[j] is Pass) by {
                                if j > i {
                                    lemma_stop_sticky(p, pl, full, i + 1, j);
                                } else {
                                    assert(full[j] == vs[j]);
                                }
                            }
                            assert(run_all(p, pl, full) == run_prefix(p, pl, full, i + 1));
                        }
                        return (Verdict::Block { reason }, entries);
                    }
                },
            }
        }
        i += 1;
    }
    proof {
        assert(admissible(p, pl, vs));
        assert(run_all(p, pl, vs) == run_prefix(p, pl, vs, i as int));
    }
    (Verdict::Pass, entries)
}

/// Run a packet through a list of filter instances and return the pipeline
/// verdict, sending the log entry of every match on `log` as it is made, in
/// pipeline order; nothing else is sent.
///
/// Send failures (the receiver dropped during shutdown) are ignored: the
/// verdict is what matters on the hot path.
pub fn execute(
    packet: &Packet<'_>,
    service: &str,
    pipeline: &[FilterInstance],
    log: &mut LogSender,
) -> (r: Verdict)
    ensures
        final(log).channel() == old(log).channel(),
        final(log)@.len() >= old(log)@.len(),
        final(log)@.take(old(log)@.len() as int) == old(log)@,
        exists|verdicts: Seq<VerdictView>|
            {
                &&& admissible(*packet, pipeline@, verdicts)
                &&& r@ == verdict_of(#[trigger] run_all(*packet, pipeline@, verdicts).0)
                &&& entries_match(
                    final(log)@.skip(old(log)@.len() as int),
                    *packet,
                    service@,
                    pipeline@,
                    run_all(*packet, pipeline@, verdicts).1,
                )
            },
{
    let (verdict, entries) = run(packet, service, pipeline, log);
    proof {
        assert(log@.take(old(log)@.len() as int) =~= old(log)@);
        assert(log@.skip(old(log)@.len() as int) =~= records(entries@));
    }
    verdict
}

/// Instance `j` ends a run that reaches it: it is consulted, it is not a
/// dry run, and its filter answers `Block`.
pub open spec fn stops_at(
    p: Packet,
    pipeline: Seq<FilterInstance>,
    verdicts: Seq<VerdictView>,
    j: int,
) -> bool {
    &&& consults(pipeline[j], p)
    &&& !pipeline[j].dry_run
    &&& verdicts[j] is Block
}

/// The run over the first `n` instances goes on exactly when none of them
/// ends it, and when it has ended, it ended at the first one that does.
proof fn lemma_stop_is_first(
    p: Packet,
    pipeline: Seq<FilterInstance>,
    verdicts: Seq<VerdictView>,
    n: int,
)
    requires
        0 <= n,
    ensures
        run_prefix(p, pipeline, verdicts, n).0 is None <==> (forall|j: int|
            0 <= j < n ==> !#[trigger] stops_at(p, pipeline, verdicts, j)),
        run_prefix(p, pipeline, verdicts, n).0 is Some ==> exists|i: int|
            {
                &&& 0 <= i < n
                &&& #[trigger] stops_at(p, pipeline, verdicts, i)
                &&& run_prefix(p, pipeline, verdicts, n).0 == Some(verdicts[i]->0)
                &&& forall|j: int| 0 <= j < i ==> !#[trigger] stops_at(p, pipeline, verdicts, j)
            },
    decreases n,
{
    if n > 0 {
        lemma_stop_is_first(p, pipeline, verdicts, n - 1);
        if run_prefix(p, pipeline, verdicts, n - 1).0 is None {
            assert(forall|j: int| 0 <= j < n - 1 ==> !#[trigger] stops_at(p, pipeline, verdicts, j));
            if stops_at(p, pipeline, verdicts, n - 1) {
                assert(run_prefix(p, pipeline, verdicts, n).0 == Some(verdicts[n - 1]->0));
            }
        } else {
            let i = choose|i: int|
                {
                    &&& 0 <= i < n - 1
                    &&& #[trigger] stops_at(p, pipeline, verdicts, i)
                    &&& run_prefix(p, pipeline, verdicts, n - 1).0 == Some(verdicts[i]->0)
                    &&& forall|j: int|
                        0 <= j < i ==> !#[trigger] stops_at(p, pipeline, verdicts, j)
                };
            assert(stops_at(p, pipeline, verdicts, i));
        }
    }
}

/// A pipeline with no instances passes and logs nothing.
pub proof fn law_empty_pipeline_passes(p: Packet, verdicts: Seq<VerdictView>)
    ensures
        run_all(p, Seq::empty(), verdicts) == (None::<Seq<char>>, Seq::<(int, Seq<char>)>::empty()),
{
}

/// The pipeline blocks with reason `reason` exactly when some instance ends
/// the run with that reason and no earlier instance does: the first enforced
/// block wins and the instances after it are never consulted.
pub proof fn law_first_block_wins(
    p: Packet,
    pipeline: Seq<FilterInstance>,
    verdicts: Seq<VerdictView>,
    reason: Seq<char>,
)
    requires
        verdicts.len() == pipeline.len(),
    ensures
        run_all(p, pipeline, verdicts).0 == Some(reason) <==> exists|i: int|
            {
                &&& 0 <= i < pipeline.len()
                &&& #[trigger] stops_at(p, pipeline, verdicts, i)
                &&& verdicts[i] == VerdictView::Block(reason)
                &&& forall|j: int| 0 <= j < i ==> !#[trigger] stops_at(p, pipeline, verdicts, j)
            },
{
    let n = pipeline.len() as int;
    lemma_stop_is_first(p, pipeline, verdicts, n);
    if exists|i: int|
        {
            &&& 0 <= i < n
            &&& #[trigger] stops_at(p, pipeline, verdicts, i)
            &&& verdicts[i] == VerdictView::Block(reason)
            &&& forall|j: int| 0 <= j < i ==> !#[trigger] stops_at(p, pipeline, verdicts, j)
        } {
        let i = choose|i: int|
            {
                &&& 0 <= i < n
                &&& #[trigger] stops_at(p, pipeline, verdicts, i)
                &&& verdicts[i] == VerdictView::Block(reason)
                &&& forall|j: int| 0 <= j < i ==> !#[trigger] stops_at(p, pipeline, verdicts, j)
            };
        assert(run_prefix(p, pipeline, verdicts, n).0 is Some);
        let k = choose|k: int|
            {
                &&& 0 <= k < n
                &&& #[trigger] stops_at(p, pipeline, verdicts, k)
                &&& run_prefix(p, pipeline, verdicts, n).0 == Some(verdicts[k]->0)
                &&& forall|j: int| 0 <= j < k ==> !#[trigger] stops_at(p, pipeline, verdicts, j)
            };
        assert(!(k < i));
        assert(!(i < k));
    }
    if run_all(p, pipeline, verdicts).0 == Some(reason) {
        let k = choose|k: int|
            {
                &&& 0 <= k < n
                &&& #[trigger] stops_at(p, pipeline, verdicts, k)
                &&& run_prefix(p, pipeline, verdicts, n).0 == Some(verdicts[k]->0)
                &&& forall|j: int| 0 <= j < k ==> !#[trigger] stops_at(p, pipeline, verdicts, j)
            };
        assert(verdicts[k] == VerdictView::Block(reason));
    }
}

/// Dry-run instances never block: a pipeline made only of dry-run instances
/// passes, whatever its filters answer.
pub proof fn law_dry_run_never_blocks(
    p: Packet,
    pipeline: Seq<FilterInstance>,
    verdicts: Seq<VerdictView>,
)
    requires
        forall|i: int| 0 <= i < pipeline.len() ==> (#[trigger] pipeline[i]).dry_run,
    ensures
        verdict_of(run_all(p, pipeline, verdicts).0) == VerdictView::Pass,
{
    lemma_stop_is_first(p, pipeline, verdicts, pipeline.len() as int);
    assert forall|j: int| 0 <= j < pipeline.len() implies !#[trigger] stops_at(
        p,
        pipeline,
        verdicts,
        j,
    ) by {
        assert(pipeline[j].dry_run);
    }
}

/// The matches logged by a run over the first `m` instances stay, in order,
/// at the front of those logged over the first `n >= m`.
proof fn lemma_hits_grow(
    p: Packet,
    pipeline: Seq<FilterInstance>,
    verdicts: Seq<VerdictView>,
    m: int,
    n: int,
)
    requires
        0 <= m <= n,
    ensures
        run_prefix(p, pipeline, verdicts, m).1.len() <= run_prefix(p, pipeline, verdicts, n).1.len(),
        run_prefix(p, pipeline, verdicts, n).1.take(run_prefix(p, pipeline, verdicts, m).1.len() as int)
            == run_prefix(p, pipeline, verdicts, m).1,
    decreases n - m,
{
    let hm = run_prefix(p, pipeline, verdicts, m).1;
    if m == n {
        assert(hm.take(hm.len() as int) =~= hm);
    } else {
        lemma_hits_grow(p, pipeline, verdicts, m, n - 1);
        let h1 = run_prefix(p, pipeline, verdicts, n - 1).1;
        let hn = run_prefix(p, pipeline, verdicts, n).1;
        assert(hn == h1 || hn == h1.push((n - 1, verdicts[n - 1]->0)));
        assert(hn.take(hm.len() as int) =~= h1.take(hm.len() as int));
    }
}

/// Every match is logged: an instance that the run reaches (no earlier
/// instance ended it) and consults, and that answers `Block`, has its match
/// logged with its reason, whether it is a dry run or not.
pub proof fn law_reached_match_is_logged(
    p: Packet,
    pipeline: Seq<FilterInstance>,
    verdicts: Seq<VerdictView>,
    i: int,
)
    requires
        0 <= i < pipeline.len(),
        run_prefix(p, pipeline, verdicts, i).0 is None,
        consults(pipeline[i], p),
        verdicts[i] is Block,
    ensures
        exists|k: int|
            0 <= k < run_all(p, pipeline, verdicts).1.len() && #[trigger] run_all(
                p,
                pipeline,
                verdicts,
            ).1[k] == (i, verdicts[i]->0),
{
    let h = run_prefix(p, pipeline, verdicts, i + 1).1;
    assert(h == run_prefix(p, pipeline, verdicts, i).1.push((i, verdicts[i]->0)));
    lemma_hits_grow(p, pipeline, verdicts, i + 1, pipeline.len() as int);
    let k = h.len() - 1;
    let all = run_all(p, pipeline, verdicts).1;
    assert(all.take(h.len() as int)[k] == all[k]);
    assert(all[k] == (i, verdicts[i]->0));
}

/// How the run over the first `n` instances stops is the same after removing
/// an instance `k` that is not consulted (disabled, switched off for the
/// packet's direction, or with a described filter declining the packet).
proof fn lemma_skip_unconsulted(
    p: Packet,
    pipeline: Seq<FilterInstance>,
    verdicts: Seq<VerdictView>,
    k: int,
    n: int,
)
    requires
        0 <= k < pipeline.len(),
        pipeline.len() == verdicts.len(),
        !consults(pipeline[k], p),
        0 <= n <= pipeline.len(),
    ensures
        n <= k ==> run_prefix(p, pipeline.remove(k), verdicts.remove(k), n).0 == run_prefix(
            p,
            pipeline,
            verdicts,
            n,
        ).0,
        n > k ==> run_prefix(p, pipeline.remove(k), verdicts.remove(k), n - 1).0 == run_prefix(
            p,
            pipeline,
            verdicts,
            n,
        ).0,
    decreases n,
{
    if n > 0 {
        lemma_skip_unconsulted(p, pipeline, verdicts, k, n - 1);
    }
}

/// Instances the executor does not consult leave the verdict unchanged:
/// removing a disabled instance, one switched off for the packet's direction,
/// or one whose described filter declines the packet gives the same pipeline
/// verdict.
pub proof fn law_unconsulted_instance_is_inert(
    p: Packet,
    pipeline: Seq<FilterInstance>,
    verdicts: Seq<VerdictView>,
    k: int,
)
    requires
        0 <= k < pipeline.len(),
        pipeline.len() == verdicts.len(),
        !consults(pipeline[k], p),
    ensures
        verdict_of(run_all(p, pipeline.remove(k), verdicts.remove(k)).0) == verdict_of(
            run_all(p, pipeline, verdicts).0,
        ),
{
    lemma_skip_unconsulted(p, pipeline, verdicts, k, pipeline.len() as int);
}

/// Every logged match but the last comes from a dry-run instance, and the
/// pipeline blocks exactly when the last logged match comes from an instance
/// that is not a dry run, with that match's reason.
pub proof fn law_block_is_last_logged(
    p: Packet,
    pipeline: Seq<FilterInstance>,
    verdicts: Seq<VerdictView>,
)
    ensures
        ({
            let (stop, hits) = run_all(p, pipeline, verdicts);
            &&& forall|k: int|
                0 <= k < hits.len() - 1 ==> pipeline[(#[trigger] hits[k]).0].dry_run
            &&& forall|k: int|
                0 <= k < hits.len() ==> 0 <= (#[trigger] hits[k]).0 < pipeline.len()
            &&& stop is Some <==> (hits.len() > 0 && !pipeline[hits.last().0].dry_run)
            &&& stop is Some ==> stop == Some(hits.last().1)
        }),
{
    lemma_hits_shape(p, pipeline, verdicts, pipeline.len() as int);
}

/// The shape of the logged matches of a run over the first `n` instances.
proof fn lemma_hits_shape(
    p: Packet,
    pipeline: Seq<FilterInstance>,
    verdicts: Seq<VerdictView>,
    n: int,
)
    requires
        n <= pipeline.len(),
    ensures
        ({
            let (stop, hits) = run_prefix(p, pipeline, verdicts, n);
            &&& forall|k: int|
                0 <= k < hits.len() - 1 ==> pipeline[(#[trigger] hits[k]).0].dry_run
            &&& forall|k: int| 0 <= k < hits.len() ==> 0 <= (#[trigger] hits[k]).0 < n
            &&& stop is Some <==> (hits.len() > 0 && !pipeline[hits.last().0].dry_run)
            &&& stop is Some ==> stop == Some(hits.last().1)
        }),
    decreases n,
{
    if n > 0 {
        lemma_hits_shape(p, pipeline, verdicts, n - 1);
    }
}

} // verus!
