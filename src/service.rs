use vstd::prelude::*;

use crate::config::{AliasMap, QueueConfig, QueueTarget, RabbitMQConfig};
use crate::conn::RabbitConnector;
use crate::error::{is_warning_kind, MqError};

verus! {

/// The message count of one queue that was inspected successfully.
#[derive(Debug)]
pub struct QueueMetric {
    pub name: String,
    pub alias: Option<String>,
    pub count: u32,
}

/// The mathematical form of a [`QueueMetric`].
pub struct MetricView {
    pub name: Seq<char>,
    pub alias: Option<Seq<char>>,
    pub count: u32,
}

impl View for QueueMetric {
    type V = MetricView;

    open spec fn view(&self) -> MetricView {
        MetricView { name: self.name@, alias: self.alias.deep_view(), count: self.count }
    }
}

impl QueueMetric {
    /// A metric with the same fields.
    pub fn copy(&self) -> (r: QueueMetric)
        ensures
            r@ == self@,
    {
        let alias = match &self.alias {
            Some(a) => Some(a.clone()),
            None => None,
        };
        QueueMetric { name: self.name.clone(), alias, count: self.count }
    }

    /// The name shown for the queue: its alias, else its broker name.
    pub fn display_name(&self) -> (r: String)
        ensures
            r@ == self@.display_name(),
    {
        match &self.alias {
            Some(a) => a.clone(),
            None => self.name.clone(),
        }
    }
}

impl MetricView {
    /// The name shown for the queue: its alias, else its broker name.
    pub open spec fn display_name(self) -> Seq<char> {
        match self.alias {
            Some(a) => a,
            None => self.name,
        }
    }
}

/// The views of a sequence of metrics.
pub open spec fn metric_views(ms: Seq<QueueMetric>) -> Seq<MetricView> {
    ms.map_values(|m: QueueMetric| m@)
}

/// The alias of a target: its own, else the one of the global map, else none.
pub open spec fn resolved_alias(t: QueueTarget, aliases: Map<Seq<char>, Seq<char>>) -> Option<Seq<char>> {
    match t.alias {
        Some(a) => Some(a),
        None => if aliases.contains_key(t.name) {
            Some(aliases[t.name])
        } else {
            None
        },
    }
}

/// The name under which a target is shown: its resolved alias, else its name.
pub open spec fn display_name_of(t: QueueTarget, aliases: Map<Seq<char>, Seq<char>>) -> Seq<char> {
    match resolved_alias(t, aliases) {
        Some(a) => a,
        None => t.name,
    }
}

/// The metric recorded for a target whose queue holds `count` messages.
pub open spec fn metric_of(t: QueueTarget, aliases: Map<Seq<char>, Seq<char>>, count: u32) -> MetricView {
    MetricView { name: t.name, alias: resolved_alias(t, aliases), count }
}

/// The metrics collected from the first `outcomes.len()` targets, given the
/// outcome of inspecting each: one per success, in target order.
pub open spec fn collected(
    targets: Seq<QueueTarget>,
    aliases: Map<Seq<char>, Seq<char>>,
    outcomes: Seq<Result<u32, MqError>>,
) -> Seq<MetricView>
    decreases outcomes.len(),
{
    if outcomes.len() == 0 {
        Seq::empty()
    } else {
        let i = outcomes.len() - 1;
        let prev = collected(targets, aliases, outcomes.drop_last());
        match outcomes[i] {
            Ok(c) => prev.push(metric_of(targets[i], aliases, c)),
            Err(_) => prev,
        }
    }
}

/// The positions of the failed outcomes, in increasing order.
pub open spec fn failure_positions(outcomes: Seq<Result<u32, MqError>>) -> Seq<int>
    decreases outcomes.len(),
{
    if outcomes.len() == 0 {
        Seq::empty()
    } else {
        let prev = failure_positions(outcomes.drop_last());
        if outcomes.last() is Err {
            prev.push(outcomes.len() - 1)
        } else {
            prev
        }
    }
}

/// The number of failures among the outcomes.
pub open spec fn failure_count(outcomes: Seq<Result<u32, MqError>>) -> nat {
    failure_positions(outcomes).len()
}

proof fn lemma_failure_positions_bounded(outcomes: Seq<Result<u32, MqError>>)
    ensures
        forall|k: int| 0 <= k < failure_positions(outcomes).len() ==> {
            &&& 0 <= #[trigger] failure_positions(outcomes)[k] < outcomes.len()
            &&& outcomes[failure_positions(outcomes)[k]] is Err
        },
    decreases outcomes.len(),
{
    if outcomes.len() > 0 {
        let prev = outcomes.drop_last();
        lemma_failure_positions_bounded(prev);
        assert forall|k: int| 0 <= k < failure_positions(outcomes).len() implies {
            &&& 0 <= #[trigger] failure_positions(outcomes)[k] < outcomes.len()
            &&& outcomes[failure_positions(outcomes)[k]] is Err
        } by {
            if k < failure_positions(prev).len() {
                assert(failure_positions(outcomes)[k] == failure_positions(prev)[k]);
                assert(prev[failure_positions(prev)[k]] == outcomes[failure_positions(prev)[k]]);
            }
        };
    }
}

/// The positions of the successful outcomes, in increasing order.
pub open spec fn success_positions(outcomes: Seq<Result<u32, MqError>>) -> Seq<int>
    decreases outcomes.len(),
{
    if outcomes.len() == 0 {
        Seq::empty()
    } else {
        let prev = success_positions(outcomes.drop_last());
        if outcomes.last() is Ok {
            prev.push(outcomes.len() - 1)
        } else {
            prev
        }
    }
}

/// The collected metrics keep the configured order of the targets and leave
/// out every target that failed: the `j`-th metric belongs to the `j`-th
/// successful target, the positions of those targets increase, and a target
/// is among them exactly when its inspection succeeded.
pub proof fn lemma_collected_in_order(
    targets: Seq<QueueTarget>,
    aliases: Map<Seq<char>, Seq<char>>,
    outcomes: Seq<Result<u32, MqError>>,
)
    ensures
        ({
            let ms = collected(targets, aliases, outcomes);
            let p = success_positions(outcomes);
            &&& ms.len() == p.len()
            &&& forall|j: int| 0 <= j < p.len() ==> {
                &&& 0 <= #[trigger] p[j] < outcomes.len()
                &&& outcomes[p[j]] is Ok
                &&& ms[j] == metric_of(targets[p[j]], aliases, outcomes[p[j]]->Ok_0)
            }
            &&& forall|j: int, k: int| 0 <= j < k < p.len() ==> p[j] < p[k]
            &&& forall|i: int| 0 <= i < outcomes.len() ==> (#[trigger] outcomes[i] is Ok <==> p.contains(i))
        }),
    decreases outcomes.len(),
{
    if outcomes.len() > 0 {
        let prev_o = outcomes.drop_last();
        lemma_collected_in_order(targets, aliases, prev_o);
        let prev_p = success_positions(prev_o);
        let p = success_positions(outcomes);
        let n = outcomes.len() - 1;
        assert forall|i: int| 0 <= i < outcomes.len() implies (#[trigger] outcomes[i] is Ok <==> p.contains(i)) by {
            if i < n {
                assert(prev_o[i] == outcomes[i]);
                if prev_p.contains(i) {
                    let j = choose|j: int| 0 <= j < prev_p.len() && prev_p[j] == i;
                    assert(p[j] == i);
                }
                if p.contains(i) {
                    let j = choose|j: int| 0 <= j < p.len() && p[j] == i;
                    if j < prev_p.len() {
                        assert(prev_p[j] == i);
                    }
                }
            } else {
                if outcomes[i] is Ok {
                    assert(p[p.len() - 1] == i);
                }
                if p.contains(i) {
                    let j = choose|j: int| 0 <= j < p.len() && p[j] == i;
                    if j < prev_p.len() {
                        assert(prev_p[j] == i);
                    }
                }
            }
        };
        assert forall|j: int| 0 <= j < p.len() implies {
            &&& 0 <= #[trigger] p[j] < outcomes.len()
            &&& outcomes[p[j]] is Ok
            &&& collected(targets, aliases, outcomes)[j] == metric_of(targets[p[j]], aliases, outcomes[p[j]]->Ok_0)
        } by {
            if j < prev_p.len() {
                assert(p[j] == prev_p[j]);
                assert(prev_o[prev_p[j]] == outcomes[prev_p[j]]);
            }
        };
    }
}

/// How a queue's display name is chosen: its own alias always wins; without
/// one, the global map's entry for its name; without either, its name.
pub proof fn lemma_display_name_resolution(t: QueueTarget, aliases: Map<Seq<char>, Seq<char>>)
    ensures
        t.alias is Some ==> display_name_of(t, aliases) == t.alias->Some_0,
        t.alias is None && aliases.contains_key(t.name) ==> display_name_of(t, aliases) == aliases[t.name],
        t.alias is None && !aliases.contains_key(t.name) ==> display_name_of(t, aliases) == t.name,
{
}

/// How loudly a failed queue is reported.
#[derive(Clone, Copy, Debug, PartialEq, Eq, Structural)]
pub enum Severity {
    Warning,
    Error,
}

/// The report of one queue that could not be inspected.
#[derive(Debug)]
pub struct QueueFailure {
    pub severity: Severity,
    pub display_name: String,
    pub queue: String,
    pub error: MqError,
}

/// Collects metrics over the configured queues.
pub struct QueueMetricsService {
    pub connector: RabbitConnector,
}

/// The progress of one collection: the outcomes seen so far, the metrics of
/// the successes and the reports of the failures.
pub struct GatherRun {
    outcomes: Ghost<Seq<Result<u32, MqError>>>,
    next: usize,
    metrics: Vec<QueueMetric>,
    failures: Vec<QueueFailure>,
}

impl GatherRun {
    /// The outcomes recorded so far, one per target in target order.
    pub closed spec fn outcomes(&self) -> Seq<Result<u32, MqError>> {
        self.outcomes@
    }

    /// The metrics gathered so far.
    pub closed spec fn metrics(&self) -> Seq<MetricView> {
        metric_views(self.metrics@)
    }

    /// The failure reports made so far.
    pub closed spec fn failures(&self) -> Seq<QueueFailure> {
        self.failures@
    }

    /// The position of the next target agrees with the outcomes seen.
    pub closed spec fn wf(&self) -> bool {
        self.next == self.outcomes@.len()
    }
}

/// What a collection ends with: the metrics of the successes in target order,
/// the failure reports, and the numbers of successful and of all queries.
#[derive(Debug)]
pub struct GatherReport {
    pub metrics: Vec<QueueMetric>,
    pub failures: Vec<QueueFailure>,
    pub succeeded: usize,
    pub total: usize,
}

/// `f` reports the failure `error` of target `t`.
pub open spec fn reports(f: QueueFailure, error: MqError, t: QueueTarget, aliases: Map<Seq<char>, Seq<char>>) -> bool {
    &&& f.severity == (if is_warning_kind(error) { Severity::Warning } else { Severity::Error })
    &&& f.display_name@ == display_name_of(t, aliases)
    &&& f.queue@ == t.name
    &&& f.error == error
}

/// Every outcome is either a collected metric or a counted failure.
pub proof fn lemma_collected_plus_failures(
    targets: Seq<QueueTarget>,
    aliases: Map<Seq<char>, Seq<char>>,
    outcomes: Seq<Result<u32, MqError>>,
)
    ensures
        collected(targets, aliases, outcomes).len() + failure_count(outcomes) == outcomes.len(),
    decreases outcomes.len(),
{
    if outcomes.len() > 0 {
        lemma_collected_plus_failures(targets, aliases, outcomes.drop_last());
    }
}

impl QueueMetricsService {
    /// A service over the given broker configuration.
    pub fn new(config: RabbitMQConfig) -> (r: Self)
        ensures
            r.connector.config == config,
    {
        QueueMetricsService { connector: RabbitConnector::new(config) }
    }

    /// The configured targets.
    pub open spec fn targets(&self) -> Seq<QueueTarget> {
        self.connector.config.queues@.map_values(|q: QueueConfig| q@)
    }

    /// The global alias map.
    pub open spec fn aliases(&self) -> Map<Seq<char>, Seq<char>> {
        self.connector.config.queue_aliases@
    }

    /// The service's configuration is usable.
    pub open spec fn wf(&self) -> bool {
        self.connector.config.wf()
    }

    /// The run is a collection over this service's targets, consistent so far.
    pub open spec fn run_ok(&self, run: &GatherRun) -> bool {
        &&& run.outcomes().len() <= self.targets().len()
        &&& run.metrics() == collected(self.targets(), self.aliases(), run.outcomes())
        &&& run.failures().len() == failure_count(run.outcomes())
        &&& forall|k: int| 0 <= k < run.failures().len() ==> {
            let i = #[trigger] failure_positions(run.outcomes())[k];
            reports(run.failures()[k], run.outcomes()[i]->Err_0, self.targets()[i], self.aliases())
        }
        &&& run.wf()
    }

    /// The resolved alias of a queue: its own, else the global map's entry.
    pub fn resolve_alias(&self, queue: &QueueConfig) -> (r: Option<String>)
        requires
            self.wf(),
        ensures
            r.deep_view() == resolved_alias(queue@, self.aliases()),
    {
        match &queue.alias {
            Some(a) => Some(a.clone()),
            None => match self.connector.config.queue_aliases.get(&queue.name) {
                Some(a) => Some(a.clone()),
                None => None,
            },
        }
    }

    /// The name under which a queue is reported.
    pub fn display_name(&self, queue: &QueueConfig) -> (r: String)
        requires
            self.wf(),
        ensures
            r@ == display_name_of(queue@, self.aliases()),
    {
        match self.resolve_alias(queue) {
            Some(a) => a,
            None => queue.name.clone(),
        }
    }

    /// The metric of a queue found to hold `count` messages.
    pub fn get_queue_metric(&self, queue: &QueueConfig, count: u32) -> (r: QueueMetric)
        requires
            self.wf(),
        ensures
            r@ == metric_of(queue@, self.aliases(), count),
    {
        QueueMetric { name: queue.name.clone(), alias: self.resolve_alias(queue), count }
    }

    /// The report of a queue whose inspection failed: a warning for a missing
    /// queue or a timeout, an error otherwise.
    pub fn handle_queue_error(&self, error: MqError, queue: &QueueConfig) -> (r: QueueFailure)
        requires
            self.wf(),
        ensures
            reports(r, error, queue@, self.aliases()),
    {
        let severity = match &error {
            MqError::QueueNotFound(_) => Severity::Warning,
            MqError::QueueTimeout(_) => Severity::Warning,
            _ => Severity::Error,
        };
        QueueFailure {
            severity,
            display_name: self.display_name(queue),
            queue: queue.name.clone(),
            error,
        }
    }

    /// A collection that has not yet inspected any queue.
    pub fn start_gathering(&self) -> (r: GatherRun)
        ensures
            self.run_ok(&r),
            r.outcomes() == Seq::<Result<u32, MqError>>::empty(),
    {
        let r = GatherRun {
            outcomes: Ghost(Seq::empty()),
            next: 0,
            metrics: Vec::new(),
            failures: Vec::new(),
        };
        assert(r.metrics() =~= Seq::<MetricView>::empty());
        r
    }

    /// The queue to inspect next, if any is left.
    pub fn next_target<'a>(&'a self, run: &GatherRun) -> (r: Option<&'a QueueConfig>)
        requires
            self.run_ok(run),
        ensures
            match r {
                Some(q) => run.outcomes().len() < self.targets().len() && q@ == self.targets()[run.outcomes().len() as int],
                None => run.outcomes().len() == self.targets().len(),
            },
    {
        if run.next < self.connector.config.queues.len() {
            Some(&self.connector.config.queues[run.next])
        } else {
            None
        }
    }

    /// Records the outcome of inspecting the next queue: a success adds its
    /// metric, a failure adds its report; the collection goes on either way.
    pub fn record(&self, run: &mut GatherRun, outcome: Result<u32, MqError>)
        requires
            self.wf(),
            self.run_ok(old(run)),
            old(run).outcomes().len() < self.targets().len(),
        ensures
            self.run_ok(final(run)),
            final(run).outcomes() == old(run).outcomes().push(outcome),
            outcome is Ok ==> final(run).failures() == old(run).failures(),
            outcome is Err ==> {
                &&& final(run).failures().len() == old(run).failures().len() + 1
                &&& final(run).failures().drop_last() == old(run).failures()
                &&& reports(
                    final(run).failures().last(),
                    outcome->Err_0,
                    self.targets()[old(run).outcomes().len() as int],
                    self.aliases(),
                )
            },
    {
        let ghost before = run.outcomes@;
        let ghost o = outcome;
        assert(self.targets().len() == self.connector.config.queues@.len());
        let i = run.next;
        let n = self.connector.config.queues.len();
        assert(i < n);
        let queue = &self.connector.config.queues[i];
        match outcome {
            Ok(count) => {
                let metric = self.get_queue_metric(queue, count);
                run.metrics.push(metric);
            },
            Err(e) => {
                let failure = self.handle_queue_error(e, queue);
                run.failures.push(failure);
            },
        }
        run.outcomes = Ghost(before.push(o));
        run.next = i + 1;
        assert(run.outcomes@.drop_last() =~= before);
        assert(run.metrics() =~= collected(self.targets(), self.aliases(), run.outcomes@));
        proof {
            lemma_failure_positions_bounded(before);
            let fp = failure_positions(run.outcomes@);
            let old_fp = failure_positions(before);
            if o is Err {
                assert(run.failures@.drop_last() =~= old(run).failures@);
            }
            assert forall|k: int| 0 <= k < run.failures@.len() implies {
                let j = #[trigger] failure_positions(run.outcomes@)[k];
                reports(run.failures@[k], run.outcomes@[j]->Err_0, self.targets()[j], self.aliases())
            } by {
                if k < old(run).failures@.len() {
                    assert(fp[k] == old_fp[k]);
                    assert(run.failures@[k] == old(run).failures@[k]);
                    assert(run.outcomes@[old_fp[k]] == before[old_fp[k]]);
                }
            };
        }
    }

    /// Ends a collection over all targets.
    pub fn finish(&self, run: GatherRun) -> (r: GatherReport)
        requires
            self.run_ok(&run),
            run.outcomes().len() == self.targets().len(),
        ensures
            metric_views(r.metrics@) == collected(self.targets(), self.aliases(), run.outcomes()),
            r.failures@ == run.failures(),
            r.failures@.len() == failure_count(run.outcomes()),
            forall|k: int| 0 <= k < r.failures@.len() ==> {
                let i = #[trigger] failure_positions(run.outcomes())[k];
                reports(r.failures@[k], run.outcomes()[i]->Err_0, self.targets()[i], self.aliases())
            },
            r.succeeded == r.metrics@.len(),
            r.total == self.targets().len(),
            r.succeeded + r.failures@.len() == r.total,
    {
        proof {
            lemma_collected_plus_failures(self.targets(), self.aliases(), run.outcomes());
        }
        let succeeded = run.metrics.len();
        let total = self.connector.config.queues.len();
        GatherReport { metrics: run.metrics, failures: run.failures, succeeded, total }
    }
}

} // verus!
