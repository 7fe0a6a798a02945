//! Operational counters, the alert log, and per-component health: the
//! read-only side the coordinator exposes to operators. Delivery to any
//! outside alerting service is a caller's concern; this module owns the
//! counts and the records.

use vstd::prelude::*;

verus! {

#[derive(Debug, Clone, Copy, PartialEq, Eq, Structural)]
pub enum AlertLevel {
    Info,
    Warning,
    Critical,
}

#[derive(Debug, Clone, Copy, PartialEq, Eq, Structural)]
pub enum HealthStatus {
    Healthy,
    Degraded,
    Unhealthy,
}

/// One recorded alert.
#[derive(Debug, Clone)]
pub struct Alert {
    pub level: AlertLevel,
    pub message: String,
    pub timestamp: i64,
    pub component: String,
}

/// The operation counters at one instant.
#[derive(Debug, Clone, Copy, PartialEq, Eq, Structural)]
pub struct MetricsSnapshot {
    pub proposals_created: u64,
    pub proposals_executed: u64,
    pub proposals_cancelled: u64,
    pub migrations_completed: u64,
    pub rollbacks_initiated: u64,
}

/// The recorded health of one component.
#[derive(Debug, Clone)]
struct HealthEntry {
    component: String,
    status: HealthStatus,
}

/// Counts governance operations, keeps the alert log, and tracks
/// per-component health.
#[derive(Debug)]
pub struct MonitoringService {
    metrics: MetricsSnapshot,
    alerts: Vec<Alert>,
    health: Vec<HealthEntry>,
}

impl MonitoringService {
    /// The counters.
    pub closed spec fn spec_metrics(self) -> MetricsSnapshot {
        self.metrics
    }

    /// The alert log, oldest first.
    pub closed spec fn spec_alerts(self) -> Seq<Alert> {
        self.alerts@
    }

    /// Whether some component has a recorded health status.
    pub closed spec fn spec_has_health(self, component: Seq<char>) -> bool {
        exists|i: int| 0 <= i < self.health@.len() && self.health@[i].component@ == component
    }

    closed spec fn spec_health_index(self, component: Seq<char>) -> int {
        choose|i: int| 0 <= i < self.health@.len() && self.health@[i].component@ == component
    }

    /// The recorded health of a component; unrecorded components count as
    /// healthy.
    pub closed spec fn spec_health_of(self, component: Seq<char>) -> HealthStatus {
        if self.spec_has_health(component) {
            self.health@[self.spec_health_index(component)].status
        } else {
            HealthStatus::Healthy
        }
    }

    /// Each component has at most one health record.
    pub closed spec fn wf(self) -> bool {
        forall|i: int, j: int|
            0 <= i < j < self.health@.len() ==> self.health@[i].component@
                != self.health@[j].component@
    }

    pub fn new() -> (r: Self)
        ensures
            r.wf(),
            r.spec_metrics() == (MetricsSnapshot {
                proposals_created: 0,
                proposals_executed: 0,
                proposals_cancelled: 0,
                migrations_completed: 0,
                rollbacks_initiated: 0,
            }),
            r.spec_alerts() == Seq::<Alert>::empty(),
            forall|c: Seq<char>| !r.spec_has_health(c),
    {
        let service = MonitoringService {
            metrics: MetricsSnapshot {
                proposals_created: 0,
                proposals_executed: 0,
                proposals_cancelled: 0,
                migrations_completed: 0,
                rollbacks_initiated: 0,
            },
            alerts: Vec::new(),
            health: Vec::new(),
        };
        proof {
            assert(service.spec_alerts() =~= Seq::<Alert>::empty());
        }
        service
    }

    pub fn record_proposal_created(&mut self)
        requires
            old(self).spec_metrics().proposals_created < u64::MAX,
        ensures
            final(self).spec_metrics() == (MetricsSnapshot {
                proposals_created: (old(self).spec_metrics().proposals_created + 1) as u64,
                ..old(self).spec_metrics()
            }),
            final(self).spec_alerts() == old(self).spec_alerts(),
            final(self).wf() == old(self).wf(),
            forall|c: Seq<char>| final(self).spec_health_of(c) == old(self).spec_health_of(c),
    {
        self.metrics.proposals_created = self.metrics.proposals_created + 1;
    }

    pub fn record_proposal_executed(&mut self)
        requires
            old(self).spec_metrics().proposals_executed < u64::MAX,
        ensures
            final(self).spec_metrics() == (MetricsSnapshot {
                proposals_executed: (old(self).spec_metrics().proposals_executed + 1) as u64,
                ..old(self).spec_metrics()
            }),
            final(self).spec_alerts() == old(self).spec_alerts(),
            final(self).wf() == old(self).wf(),
            forall|c: Seq<char>| final(self).spec_health_of(c) == old(self).spec_health_of(c),
    {
        self.metrics.proposals_executed = self.metrics.proposals_executed + 1;
    }

    pub fn record_proposal_cancelled(&mut self)
        requires
            old(self).spec_metrics().proposals_cancelled < u64::MAX,
        ensures
            final(self).spec_metrics() == (MetricsSnapshot {
                proposals_cancelled: (old(self).spec_metrics().proposals_cancelled + 1) as u64,
                ..old(self).spec_metrics()
            }),
            final(self).spec_alerts() == old(self).spec_alerts(),
            final(self).wf() == old(self).wf(),
            forall|c: Seq<char>| final(self).spec_health_of(c) == old(self).spec_health_of(c),
    {
        self.metrics.proposals_cancelled = self.metrics.proposals_cancelled + 1;
    }

    pub fn record_migration_completed(&mut self)
        requires
            old(self).spec_metrics().migrations_completed < u64::MAX,
        ensures
            final(self).spec_metrics() == (MetricsSnapshot {
                migrations_completed: (old(self).spec_metrics().migrations_completed + 1) as u64,
                ..old(self).spec_metrics()
            }),
            final(self).spec_alerts() == old(self).spec_alerts(),
            final(self).wf() == old(self).wf(),
            forall|c: Seq<char>| final(self).spec_health_of(c) == old(self).spec_health_of(c),
    {
        self.metrics.migrations_completed = self.metrics.migrations_completed + 1;
    }

    /// Counts a rollback and raises the critical alert a rollback always
    /// carries.
    pub fn record_rollback(&mut self, now: i64)
        requires
            old(self).spec_metrics().rollbacks_initiated < u64::MAX,
        ensures
            final(self).wf() == old(self).wf(),
            final(self).spec_metrics() == (MetricsSnapshot {
                rollbacks_initiated: (old(self).spec_metrics().rollbacks_initiated + 1) as u64,
                ..old(self).spec_metrics()
            }),
            final(self).spec_alerts().len() == old(self).spec_alerts().len() + 1,
            forall|i: int|
                0 <= i < old(self).spec_alerts().len() ==> final(self).spec_alerts()[i] == old(
                    self,
                ).spec_alerts()[i],
            ({
                let a = final(self).spec_alerts().last();
                &&& a.level == AlertLevel::Critical
                &&& a.message@ == "Rollback initiated"@
                &&& a.timestamp == now
                &&& a.component@ == "rollback_handler"@
            }),
    {
        self.metrics.rollbacks_initiated = self.metrics.rollbacks_initiated + 1;
        self.send_alert(
            AlertLevel::Critical,
            "Rollback initiated".to_owned(),
            "rollback_handler".to_owned(),
            now,
        );
    }

    /// Appends an alert to the log.
    pub fn send_alert(&mut self, level: AlertLevel, message: String, component: String, now: i64)
        ensures
            final(self).wf() == old(self).wf(),
            final(self).spec_metrics() == old(self).spec_metrics(),
            forall|c: Seq<char>| final(self).spec_health_of(c) == old(self).spec_health_of(c),
            final(self).spec_alerts().len() == old(self).spec_alerts().len() + 1,
            forall|i: int|
                0 <= i < old(self).spec_alerts().len() ==> final(self).spec_alerts()[i] == old(
                    self,
                ).spec_alerts()[i],
            ({
                let a = final(self).spec_alerts().last();
                &&& a.level == level
                &&& a.message == message
                &&& a.timestamp == now
                &&& a.component == component
            }),
    {
        self.alerts.push(Alert { level, message, timestamp: now, component });
    }

    /// The counters.
    pub fn get_metrics(&self) -> (r: MetricsSnapshot)
        ensures
            r == self.spec_metrics(),
    {
        self.metrics
    }

    /// The most recent alerts, newest first, at most `limit` of them.
    pub fn get_alerts(&self, limit: usize) -> (r: Vec<&Alert>)
        ensures
            r@.len() == if limit <= self.spec_alerts().len() {
                limit as int
            } else {
                self.spec_alerts().len() as int
            },
            forall|i: int|
                0 <= i < r@.len() ==> *r@[i] == self.spec_alerts()[self.spec_alerts().len() - 1
                    - i],
    {
        let n = self.alerts.len();
        let mut out: Vec<&Alert> = Vec::new();
        let take = if limit < n {
            limit
        } else {
            n
        };
        for k in 0..take
            invariant
                n == self.alerts@.len(),
                take <= n,
                out@.len() == k,
                forall|i: int| 0 <= i < k ==> *out@[i] == self.alerts@[n - 1 - i],
        {
            out.push(&self.alerts[n - 1 - k]);
        }
        out
    }

    /// Under `wf()`, any witness index for a recorded component is the
    /// chosen one.
    proof fn lemma_health_index_unique(self, component: Seq<char>)
        requires
            self.wf(),
        ensures
            forall|i: int|
                0 <= i < self.health@.len() && self.health@[i].component@ == component ==> i
                    == self.spec_health_index(component),
    {
        assert forall|i: int|
            0 <= i < self.health@.len() && self.health@[i].component@
                == component implies i == self.spec_health_index(component) by {
            let j = self.spec_health_index(component);
            assert(0 <= j < self.health@.len() && self.health@[j].component@ == component);
            if i != j {
                assert(self.health@[i].component@ != self.health@[j].component@);
            }
        }
    }

    /// The position of a component's health record, if any.
    fn find_health_index(&self, component: &String) -> (r: Option<usize>)
        requires
            self.wf(),
        ensures
            match r {
                Some(i) => i < self.health@.len() && self.health@[i as int].component@
                    == component@ && i == self.spec_health_index(component@),
                None => !self.spec_has_health(component@),
            },
    {
        let n = self.health.len();
        for i in 0..n
            invariant
                n == self.health@.len(),
                self.wf(),
                forall|j: int| 0 <= j < i ==> self.health@[j].component@ != component@,
        {
            if self.health[i].component == *component {
                proof {
                    self.lemma_health_index_unique(component@);
                }
                return Some(i);
            }
        }
        None
    }

    /// The recorded health of a component; an unrecorded component reads
    /// healthy.
    pub fn check_health(&self, component: &String) -> (r: HealthStatus)
        requires
            self.wf(),
        ensures
            r == self.spec_health_of(component@),
    {
        match self.find_health_index(component) {
            Some(i) => self.health[i].status,
            None => HealthStatus::Healthy,
        }
    }

    /// Records a component's health, overwriting any earlier record; a
    /// component that turns unhealthy raises a critical alert.
    pub fn update_health(&mut self, component: String, status: HealthStatus, now: i64)
        requires
            old(self).wf(),
        ensures
            final(self).wf(),
            final(self).spec_metrics() == old(self).spec_metrics(),
            final(self).spec_health_of(component@) == status,
            forall|c: Seq<char>|
                c != component@ ==> final(self).spec_health_of(c) == old(self).spec_health_of(c),
            status != HealthStatus::Unhealthy ==> final(self).spec_alerts() == old(
                self,
            ).spec_alerts(),
            status == HealthStatus::Unhealthy ==> {
                &&& final(self).spec_alerts().len() == old(self).spec_alerts().len() + 1
                &&& forall|i: int|
                    0 <= i < old(self).spec_alerts().len() ==> final(self).spec_alerts()[i] == old(
                        self,
                    ).spec_alerts()[i]
                &&& final(self).spec_alerts().last().level == AlertLevel::Critical
                &&& final(self).spec_alerts().last().component@ == component@
                &&& final(self).spec_alerts().last().timestamp == now
            },
    {
        let is_unhealthy = match status {
            HealthStatus::Unhealthy => true,
            _ => false,
        };
        match self.find_health_index(&component) {
            Some(i) => {
                self.health[i].status = status;
                proof {
                    let x = i as int;
                    assert forall|a: int, b: int|
                        0 <= a < b < self.health@.len() implies self.health@[a].component@
                        != self.health@[b].component@ by {
                        assert(self.health@[a].component@ == old(self).health@[a].component@);
                        assert(self.health@[b].component@ == old(self).health@[b].component@);
                    }
                    assert(self.health@[x].component@ == component@);
                    self.lemma_health_index_unique(component@);
                    assert(self.spec_health_index(component@) == x);
                    assert forall|c: Seq<char>|
                        c != component@ implies self.spec_health_of(c) == old(
                        self,
                    ).spec_health_of(c) by {
                        Self::lemma_health_frame(*old(self), *self, x, c);
                    }
                }
            },
            None => {
                self.health.push(HealthEntry { component: component.clone(), status });
                proof {
                    let x = self.health@.len() - 1;
                    assert(self.health@[x].component@ == component@);
                    assert forall|a: int, b: int|
                        0 <= a < b < self.health@.len() implies self.health@[a].component@
                        != self.health@[b].component@ by {
                        if b < x {
                            assert(self.health@[a].component@ == old(self).health@[a].component@);
                            assert(self.health@[b].component@ == old(self).health@[b].component@);
                        } else {
                            assert(b == x);
                            assert(self.health@[a].component@ == old(self).health@[a].component@);
                            assert(!old(self).spec_has_health(component@));
                        }
                    }
                    self.lemma_health_index_unique(component@);
                    assert(self.spec_health_index(component@) == x);
                    assert forall|c: Seq<char>|
                        c != component@ implies self.spec_health_of(c) == old(
                        self,
                    ).spec_health_of(c) by {
                        Self::lemma_health_frame(*old(self), *self, x, c);
                    }
                }
            },
        }
        if is_unhealthy {
            self.send_alert(
                AlertLevel::Critical,
                "Component reported unhealthy".to_owned(),
                component,
                now,
            );
        }
    }

    /// Changing or adding one health record leaves every other component's
    /// reading as it was.
    proof fn lemma_health_frame(pre: MonitoringService, post: MonitoringService, x: int,
        c: Seq<char>)
        requires
            pre.wf(),
            post.wf(),
            0 <= x < post.health@.len(),
            pre.health@.len() == post.health@.len() || (pre.health@.len() + 1
                == post.health@.len() && x == post.health@.len() - 1),
            forall|j: int| 0 <= j < post.health@.len() && j != x ==> post.health@[j]
                == pre.health@[j],
            post.health@[x].component@ != c,
            x < pre.health@.len() ==> pre.health@[x].component@ != c,
        ensures
            post.spec_health_of(c) == pre.spec_health_of(c),
    {
        if post.spec_has_health(c) {
            let i = post.spec_health_index(c);
            assert(post.health@[i].component@ == c);
            assert(i != x);
            assert(pre.health@[i].component@ == c);
            assert(pre.spec_has_health(c));
            let j = pre.spec_health_index(c);
            assert(pre.health@[j].component@ == c);
            if j != i {
                if j != x || j < pre.health@.len() {
                    assert(post.health@[j].component@ == c || pre.health@[j].component@ == c);
                }
                assert(pre.health@[i].component@ == pre.health@[j].component@);
            }
            assert(post.spec_health_of(c) == pre.spec_health_of(c));
        } else {
            if pre.spec_has_health(c) {
                let j = pre.spec_health_index(c);
                assert(pre.health@[j].component@ == c);
                assert(j != x);
                assert(post.health@[j].component@ == c);
            }
        }
    }

    /// The health sweep's decision: warn once more than half of all created
    /// proposals have been cancelled.
    pub fn cancellation_rate_high(&self) -> (r: bool)
        ensures
            r == (self.spec_metrics().proposals_created > 0 && 2
                * self.spec_metrics().proposals_cancelled
                > self.spec_metrics().proposals_created),
    {
        let created = self.metrics.proposals_created;
        let cancelled = self.metrics.proposals_cancelled;
        let high = created > 0 && cancelled > created / 2;
        proof {
            assert(cancelled > created / 2 <==> 2 * cancelled > created) by (nonlinear_arith);
        }
        high
    }

    /// One pass of the periodic health sweep: raises a warning alert when
    /// the cancellation rate is high, else records nothing.
    pub fn check_cancellation_health(&mut self, now: i64)
        ensures
            final(self).wf() == old(self).wf(),
            final(self).spec_metrics() == old(self).spec_metrics(),
            (old(self).spec_metrics().proposals_created > 0 && 2 * old(
                self,
            ).spec_metrics().proposals_cancelled > old(self).spec_metrics().proposals_created)
                ==> {
                &&& final(self).spec_alerts().len() == old(self).spec_alerts().len() + 1
                &&& forall|i: int|
                    0 <= i < old(self).spec_alerts().len() ==> final(self).spec_alerts()[i] == old(
                        self,
                    ).spec_alerts()[i]
                &&& final(self).spec_alerts().last().level == AlertLevel::Warning
                &&& final(self).spec_alerts().last().component@ == "monitoring"@
                &&& final(self).spec_alerts().last().timestamp == now
            },
            !(old(self).spec_metrics().proposals_created > 0 && 2 * old(
                self,
            ).spec_metrics().proposals_cancelled > old(self).spec_metrics().proposals_created)
                ==> *final(self) == *old(self),
    {
        if self.cancellation_rate_high() {
            self.send_alert(
                AlertLevel::Warning,
                "High cancellation rate".to_owned(),
                "monitoring".to_owned(),
                now,
            );
        }
    }
}

} // verus!
