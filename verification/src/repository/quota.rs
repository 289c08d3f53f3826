//! Monthly budgets: what cloud providers may cost, and what went over the network.

use crate::clock::{calendar_month, in_or_after_month, month_before, month_of, since_month_start};
use crate::ident::Uuid;
use crate::json::{
    field_of, fields3, fields4, id_json, lemma_fields3, lemma_fields4, Fields, JsonView,
};
use crate::repository::events::logged;
use crate::repository::{
    event, event_of, ClusterEvent, CloudUse, EventView, Repository, RepositoryError,
    RepositoryView, TransportRecord,
};
use crate::text;
use vstd::prelude::*;

verus! {

/// The greatest number that the database holds.
pub const DATABASE_MAX: u64 = 9_223_372_036_854_775_807;

/// What a use counts for: what it came to, or what is reserved until that is known.
pub open spec fn counted(usage: CloudUse) -> (int, int) {
    match usage.actual {
        Some((cost, network)) => (cost as int, network as int),
        None => (usage.reserved_cost_micros as int, usage.reserved_network_bytes as int),
    }
}

/// What the uses under a policy since the start of the month of `now` count for.
pub open spec fn spent(uses: Seq<CloudUse>, policy_id: Uuid, now: i128) -> (int, int)
    decreases uses.len(),
{
    if uses.len() == 0 {
        (0, 0)
    } else {
        let before = spent(uses.drop_last(), policy_id, now);
        let usage = uses.last();
        if usage.policy_id == policy_id && since_month_start(usage.created_at, now) {
            (before.0 + counted(usage).0, before.1 + counted(usage).1)
        } else {
            before
        }
    }
}

/// Whether some use belongs to the workload.
pub open spec fn has_use(uses: Seq<CloudUse>, workload_id: Uuid) -> bool {
    exists|i: int| 0 <= i < uses.len() && (#[trigger] uses[i]).workload_id == workload_id
}

/// What a request for a reservation comes to.
pub enum Verdict {
    /// A number does not fit in the database.
    Unfit,
    /// A monthly limit would be exceeded.
    Exceeds,
    /// The workload has a reservation already.
    Known,
    Granted,
}

/// What a request to reserve a cost and a number of bytes comes to, under limits of both.
pub open spec fn reservation_verdict(
    uses: Seq<CloudUse>,
    policy_id: Uuid,
    workload_id: Uuid,
    asked: (u64, u64),
    limits: (u64, u64),
    now: i128,
) -> Verdict {
    let used = spent(uses, policy_id, now);
    if asked.0 > DATABASE_MAX || asked.1 > DATABASE_MAX || used.0 > DATABASE_MAX || used.1
        > DATABASE_MAX {
        Verdict::Unfit
    } else if used.0 + asked.0 > limits.0 || used.1 + asked.1 > limits.1 {
        Verdict::Exceeds
    } else if has_use(uses, workload_id) {
        Verdict::Known
    } else {
        Verdict::Granted
    }
}

/// A use that has just been reserved.
pub open spec fn reserved_use(
    policy_id: Uuid,
    workload_id: Uuid,
    asked: (u64, u64),
    now: i128,
) -> CloudUse {
    CloudUse {
        workload_id,
        policy_id,
        reserved_cost_micros: asked.0,
        reserved_network_bytes: asked.1,
        actual: None,
        created_at: now,
        completed_at: None,
    }
}

/// The event of a reservation.
pub open spec fn reserved_event(policy_id: Uuid, workload_id: Uuid, asked: (u64, u64)) -> EventView {
    event_of(
        "cloud_usage.reserved"@,
        fields4(
            ("policy_id"@, id_json(policy_id)),
            ("workload_id"@, id_json(workload_id)),
            ("reserved_cost_micros"@, JsonView::Number(asked.0 as int)),
            ("reserved_network_bytes"@, JsonView::Number(asked.1 as int)),
        ),
    )
}

/// The event of a use that is settled.
pub open spec fn settled_event(workload_id: Uuid, cost: u64, network: u64) -> EventView {
    event_of(
        "cloud_usage.completed"@,
        fields3(
            ("workload_id"@, id_json(workload_id)),
            ("cost_micros"@, JsonView::Number(cost as int)),
            ("network_bytes"@, JsonView::Number(network as int)),
        ),
    )
}

/// Whether a use can be settled: it is the workload's, is not settled, and covers what it came to.
pub open spec fn settles(usage: CloudUse, workload_id: Uuid, cost: u64, network: u64) -> bool {
    &&& usage.workload_id == workload_id
    &&& usage.actual is None
    &&& usage.completed_at is None
    &&& cost <= usage.reserved_cost_micros
    &&& network <= usage.reserved_network_bytes
}

/// The use after it was settled.
pub open spec fn settled(usage: CloudUse, cost: u64, network: u64, now: i128) -> CloudUse {
    CloudUse { actual: Some((cost, network)), completed_at: Some(now), ..usage }
}

/// Each workload has at most one use.
pub open spec fn one_use_each(uses: Seq<CloudUse>) -> bool {
    forall|i: int, j: int|
        0 <= i < uses.len() && 0 <= j < uses.len() && (#[trigger] uses[i]).workload_id == (
        #[trigger] uses[j]).workload_id ==> i == j
}

impl Repository {
    /// What the uses under a policy since the start of the month count for, each part at most the
    /// greatest number that the database holds plus one.
    fn monthly_usage(&self, policy_id: Uuid, now: i128) -> (r: (u64, u64))
        ensures
            r.0 == spent(self@.cloud_usage, policy_id, now).0 || (r.0 == DATABASE_MAX + 1 && spent(
                self@.cloud_usage,
                policy_id,
                now,
            ).0 > DATABASE_MAX),
            r.1 == spent(self@.cloud_usage, policy_id, now).1 || (r.1 == DATABASE_MAX + 1 && spent(
                self@.cloud_usage,
                policy_id,
                now,
            ).1 > DATABASE_MAX),
            r.0 <= DATABASE_MAX + 1,
            r.1 <= DATABASE_MAX + 1,
    {
        let mut cost: u64 = 0;
        let mut network: u64 = 0;
        let mut i: usize = 0;
        while i < self.cloud_usage.len()
            invariant
                i <= self.cloud_usage@.len(),
                cost <= DATABASE_MAX + 1,
                network <= DATABASE_MAX + 1,
                cost == spent(self.cloud_usage@.take(i as int), policy_id, now).0 || (cost
                    == DATABASE_MAX + 1 && spent(
                    self.cloud_usage@.take(i as int),
                    policy_id,
                    now,
                ).0 > DATABASE_MAX),
                network == spent(self.cloud_usage@.take(i as int), policy_id, now).1 || (network
                    == DATABASE_MAX + 1 && spent(
                    self.cloud_usage@.take(i as int),
                    policy_id,
                    now,
                ).1 > DATABASE_MAX),
            decreases self.cloud_usage@.len() - i,
        {
            assert(self.cloud_usage@.take(i + 1).drop_last() =~= self.cloud_usage@.take(i as int));
            let usage = &self.cloud_usage[i];
            if usage.policy_id == policy_id && in_or_after_month(usage.created_at, now) {
                let (more_cost, more_network) = match usage.actual {
                    Some(actual) => actual,
                    None => (usage.reserved_cost_micros, usage.reserved_network_bytes),
                };
                cost = capped_sum(cost, more_cost);
                network = capped_sum(network, more_network);
            }
            i += 1;
        }
        assert(self.cloud_usage@.take(i as int) =~= self.cloud_usage@);
        (cost, network)
    }

    /// Reserves monthly cloud spend and egress before any external request begins. Nothing is
    /// reserved where the hard policy ceiling would be exceeded.
    pub fn reserve_cloud_usage(
        &mut self,
        policy_id: Uuid,
        workload_id: Uuid,
        reserved_cost_micros: u64,
        reserved_network_bytes: u64,
        monthly_cost_limit_micros: u64,
        monthly_network_limit_bytes: u64,
        now: i128,
    ) -> (r: Result<Option<ClusterEvent>, RepositoryError>)
        ensures
            match reservation_verdict(
                old(self)@.cloud_usage,
                policy_id,
                workload_id,
                (reserved_cost_micros, reserved_network_bytes),
                (monthly_cost_limit_micros, monthly_network_limit_bytes),
                now,
            ) {
                Verdict::Unfit => r == Err::<Option<ClusterEvent>, _>(RepositoryError::OutOfRange)
                    && final(self)@ == old(self)@,
                Verdict::Exceeds => r == Ok::<_, RepositoryError>(None::<ClusterEvent>)
                    && final(self)@ == old(self)@,
                Verdict::Known => r == Err::<Option<ClusterEvent>, _>(RepositoryError::Conflict)
                    && final(self)@ == old(self)@,
                Verdict::Granted => {
                    &&& r is Ok && r->Ok_0 is Some
                    &&& (r->Ok_0->0)@ == reserved_event(
                        policy_id,
                        workload_id,
                        (reserved_cost_micros, reserved_network_bytes),
                    )
                    &&& final(self)@ == logged(
                        RepositoryView {
                            cloud_usage: old(self)@.cloud_usage.push(
                                reserved_use(
                                    policy_id,
                                    workload_id,
                                    (reserved_cost_micros, reserved_network_bytes),
                                    now,
                                ),
                            ),
                            ..old(self)@
                        },
                        (r->Ok_0->0)@,
                        now,
                    )
                },
            },
    {
        if reserved_cost_micros > DATABASE_MAX || reserved_network_bytes > DATABASE_MAX {
            return Err(RepositoryError::OutOfRange);
        }
        let (used_cost, used_network) = self.monthly_usage(policy_id, now);
        if used_cost > DATABASE_MAX || used_network > DATABASE_MAX {
            return Err(RepositoryError::OutOfRange);
        }
        let projected_cost: u64 = used_cost + reserved_cost_micros;
        let projected_network: u64 = used_network + reserved_network_bytes;
        if projected_cost > monthly_cost_limit_micros || projected_network
            > monthly_network_limit_bytes {
            return Ok(None);
        }
        let mut i: usize = 0;
        while i < self.cloud_usage.len()
            invariant
                i <= self.cloud_usage@.len(),
                self@ == old(self)@,
                reserved_cost_micros <= DATABASE_MAX,
                reserved_network_bytes <= DATABASE_MAX,
                spent(old(self)@.cloud_usage, policy_id, now).0 <= DATABASE_MAX,
                spent(old(self)@.cloud_usage, policy_id, now).1 <= DATABASE_MAX,
                spent(old(self)@.cloud_usage, policy_id, now).0 + reserved_cost_micros
                    <= monthly_cost_limit_micros,
                spent(old(self)@.cloud_usage, policy_id, now).1 + reserved_network_bytes
                    <= monthly_network_limit_bytes,
                forall|j: int|
                    0 <= j < i ==> (#[trigger] self.cloud_usage@[j]).workload_id != workload_id,
            decreases self.cloud_usage@.len() - i,
        {
            if self.cloud_usage[i].workload_id == workload_id {
                assert(self@.cloud_usage[i as int].workload_id == workload_id);
                return Err(RepositoryError::Conflict);
            }
            i += 1;
        }
        self.cloud_usage.push(
            CloudUse {
                workload_id,
                policy_id,
                reserved_cost_micros,
                reserved_network_bytes,
                actual: None,
                created_at: now,
                completed_at: None,
            },
        );
        let e = event(
            "cloud_usage.reserved",
            Fields::new().id("policy_id", policy_id).id("workload_id", workload_id).number(
                "reserved_cost_micros",
                reserved_cost_micros as i128,
            ).number("reserved_network_bytes", reserved_network_bytes as i128),
        );
        Ok(Some(self.record(e, now)))
    }

    /// Reconciles a cloud reservation to bounded actual usage after the stream terminates: once, and
    /// never above what was reserved.
    pub fn complete_cloud_usage(
        &mut self,
        workload_id: Uuid,
        actual_cost_micros: u64,
        actual_network_bytes: u64,
        now: i128,
    ) -> (r: Result<Option<ClusterEvent>, RepositoryError>)
        ensures
            match r {
                Err(error) => {
                    &&& error == RepositoryError::OutOfRange
                    &&& actual_cost_micros > DATABASE_MAX || actual_network_bytes > DATABASE_MAX
                    &&& final(self)@ == old(self)@
                },
                Ok(None) => {
                    &&& actual_cost_micros <= DATABASE_MAX && actual_network_bytes <= DATABASE_MAX
                    &&& forall|i: int|
                        0 <= i < old(self)@.cloud_usage.len() ==> !settles(
                            #[trigger] old(self)@.cloud_usage[i],
                            workload_id,
                            actual_cost_micros,
                            actual_network_bytes,
                        )
                    &&& final(self)@ == old(self)@
                },
                Ok(Some(e)) => {
                    &&& actual_cost_micros <= DATABASE_MAX && actual_network_bytes <= DATABASE_MAX
                    &&& exists|i: int|
                        0 <= i < old(self)@.cloud_usage.len() && settles(
                            #[trigger] old(self)@.cloud_usage[i],
                            workload_id,
                            actual_cost_micros,
                            actual_network_bytes,
                        ) && final(self)@ == logged(
                            RepositoryView {
                                cloud_usage: old(self)@.cloud_usage.update(
                                    i,
                                    settled(
                                        old(self)@.cloud_usage[i],
                                        actual_cost_micros,
                                        actual_network_bytes,
                                        now,
                                    ),
                                ),
                                ..old(self)@
                            },
                            e@,
                            now,
                        )
                    &&& e@ == settled_event(workload_id, actual_cost_micros, actual_network_bytes)
                },
            },
    {
        if actual_cost_micros > DATABASE_MAX || actual_network_bytes > DATABASE_MAX {
            return Err(RepositoryError::OutOfRange);
        }
        let mut i: usize = 0;
        while i < self.cloud_usage.len()
            invariant
                i <= self.cloud_usage@.len(),
                self@ == old(self)@,
                actual_cost_micros <= DATABASE_MAX,
                actual_network_bytes <= DATABASE_MAX,
                forall|j: int|
                    0 <= j < i ==> !settles(
                        #[trigger] self.cloud_usage@[j],
                        workload_id,
                        actual_cost_micros,
                        actual_network_bytes,
                    ),
            decreases self.cloud_usage@.len() - i,
        {
            let ghost uses = self.cloud_usage@;
            let usage = &self.cloud_usage[i];
            if usage.workload_id == workload_id && usage.actual.is_none()
                && usage.completed_at.is_none() && actual_cost_micros <= usage.reserved_cost_micros
                && actual_network_bytes <= usage.reserved_network_bytes {
                assert(settles(
                    uses[i as int],
                    workload_id,
                    actual_cost_micros,
                    actual_network_bytes,
                ));
                let next = CloudUse {
                    workload_id: usage.workload_id,
                    policy_id: usage.policy_id,
                    reserved_cost_micros: usage.reserved_cost_micros,
                    reserved_network_bytes: usage.reserved_network_bytes,
                    actual: Some((actual_cost_micros, actual_network_bytes)),
                    created_at: usage.created_at,
                    completed_at: Some(now),
                };
                self.cloud_usage.set(i, next);
                assert(self@ =~= (RepositoryView {
                    cloud_usage: old(self)@.cloud_usage.update(
                        i as int,
                        settled(
                            old(self)@.cloud_usage[i as int],
                            actual_cost_micros,
                            actual_network_bytes,
                            now,
                        ),
                    ),
                    ..old(self)@
                }));
                let e = event(
                    "cloud_usage.completed",
                    Fields::new().id("workload_id", workload_id).number(
                        "cost_micros",
                        actual_cost_micros as i128,
                    ).number("network_bytes", actual_network_bytes as i128),
                );
                return Ok(Some(self.record(e, now)));
            }
            i += 1;
        }
        Ok(None)
    }

    /// The remote bytes observed in the month of `now` in UTC.
    pub fn network_usage(&self, cluster_id: Uuid, now: i128) -> (bytes: u64)
        ensures
            bytes == observed(self@.network_usage, cluster_id, calendar_month(now)),
    {
        let (year, month) = month_of(now);
        match self.network_usage.get(&(cluster_id, year, month)) {
            Some(bytes) => *bytes,
            None => 0,
        }
    }

    /// Adds observed transport bytes to the month of `now`, records the way that they took, and returns
    /// the event of it.
    pub fn record_network_usage(
        &mut self,
        id: Uuid,
        cluster_id: Uuid,
        transport: String,
        uses_relay: bool,
        estimated_bytes: u64,
        observed_bytes: u64,
        now: i128,
    ) -> (r: Result<ClusterEvent, RepositoryError>)
        ensures
            ({
                let month = calendar_month(now);
                let total = observed(old(self)@.network_usage, cluster_id, month) + observed_bytes;
                match r {
                    Err(error) => {
                        let unfit = observed_bytes > DATABASE_MAX || estimated_bytes > DATABASE_MAX
                            || total > DATABASE_MAX;
                        &&& unfit || old(self)@.transports.contains_key(id)
                        &&& error == (if unfit {
                            RepositoryError::OutOfRange
                        } else {
                            RepositoryError::Conflict
                        })
                        &&& final(self)@ == old(self)@
                    },
                    Ok(e) => {
                        &&& observed_bytes <= DATABASE_MAX && estimated_bytes <= DATABASE_MAX
                        &&& total <= DATABASE_MAX
                        &&& !old(self)@.transports.contains_key(id)
                        &&& final(self)@ == logged(
                            with_traffic(
                                old(self)@,
                                id,
                                TransportRecord {
                                    cluster_id,
                                    transport,
                                    uses_relay,
                                    estimated_bytes,
                                    observed_bytes,
                                    created_at: now,
                                },
                            ),
                            e@,
                            now,
                        )
                        &&& e@ == event_of(
                            "network.bytes_observed"@,
                            fields4(
                                ("transport"@, JsonView::Text(transport@)),
                                ("uses_relay"@, JsonView::Bool(uses_relay)),
                                ("estimated_bytes"@, JsonView::Number(estimated_bytes as int)),
                                ("observed_bytes"@, JsonView::Number(observed_bytes as int)),
                            ),
                        )
                    },
                }
            }),
    {
        if observed_bytes > DATABASE_MAX || estimated_bytes > DATABASE_MAX {
            return Err(RepositoryError::OutOfRange);
        }
        let (year, month) = month_of(now);
        let before: u64 = self.network_usage(cluster_id, now);
        if before > DATABASE_MAX - observed_bytes {
            return Err(RepositoryError::OutOfRange);
        }
        if self.transports.contains(&id) {
            return Err(RepositoryError::Conflict);
        }
        let e = event(
            "network.bytes_observed",
            Fields::new().text("transport", transport.as_str()).flag(
                "uses_relay",
                uses_relay,
            ).number("estimated_bytes", estimated_bytes as i128).number(
                "observed_bytes",
                observed_bytes as i128,
            ),
        );
        self.network_usage.put((cluster_id, year, month), before + observed_bytes);
        self.transports.put(
            id,
            TransportRecord {
                cluster_id,
                transport,
                uses_relay,
                estimated_bytes,
                observed_bytes,
                created_at: now,
            },
        );
        Ok(self.record(e, now))
    }
}

/// The state after traffic was recorded: its bytes count in its month, and the way that they took is kept.
pub open spec fn with_traffic(v: RepositoryView, id: Uuid, record: TransportRecord) -> RepositoryView {
    let month = calendar_month(record.created_at);
    RepositoryView {
        network_usage: v.network_usage.insert(
            (record.cluster_id, month.0, month.1),
            (observed(v.network_usage, record.cluster_id, month) + record.observed_bytes) as u64,
        ),
        transports: v.transports.insert(id, record),
        ..v
    }
}

/// The bytes that were observed in a month.
pub open spec fn observed(
    usage: Map<(u128, i32, u32), u64>,
    cluster_id: Uuid,
    month: (i32, u32),
) -> u64 {
    let key = (cluster_id, month.0, month.1);
    if usage.contains_key(key) {
        usage[key]
    } else {
        0
    }
}

/// The sum of two numbers, at most the greatest number that the database holds plus one.
fn capped_sum(a: u64, b: u64) -> (r: u64)
    requires
        a <= DATABASE_MAX + 1,
    ensures
        r == (if a + b > DATABASE_MAX {
            DATABASE_MAX + 1
        } else {
            a + b
        }),
{
    if b > DATABASE_MAX || a > DATABASE_MAX - b {
        DATABASE_MAX + 1
    } else {
        a + b
    }
}

// ------------------------------------------------------------------------------------------------
// Laws

/// A reservation that is granted leaves the month's uses within both limits.
pub proof fn law_the_month_stays_within_its_limits(
    uses: Seq<CloudUse>,
    policy_id: Uuid,
    workload_id: Uuid,
    asked: (u64, u64),
    limits: (u64, u64),
    now: i128,
)
    requires
        reservation_verdict(uses, policy_id, workload_id, asked, limits, now) is Granted,
    ensures
        spent(uses.push(reserved_use(policy_id, workload_id, asked, now)), policy_id, now).0
            <= limits.0,
        spent(uses.push(reserved_use(policy_id, workload_id, asked, now)), policy_id, now).1
            <= limits.1,
{
    assert(uses.push(reserved_use(policy_id, workload_id, asked, now)).drop_last() =~= uses);
}

/// A workload has at most one use, however often one is asked for or settled.
pub proof fn law_a_workload_has_one_use(
    uses: Seq<CloudUse>,
    policy_id: Uuid,
    workload_id: Uuid,
    asked: (u64, u64),
    limits: (u64, u64),
    now: i128,
)
    requires
        one_use_each(uses),
    ensures
        reservation_verdict(uses, policy_id, workload_id, asked, limits, now) is Granted
            ==> one_use_each(uses.push(reserved_use(policy_id, workload_id, asked, now))),
        forall|i: int, cost: u64, network: u64|
            0 <= i < uses.len() ==> one_use_each(
                uses.update(i, #[trigger] settled(uses[i], cost, network, now)),
            ),
{
}

/// Settling a use only ever lowers what the month counts for.
pub proof fn law_settling_only_lowers(
    uses: Seq<CloudUse>,
    i: int,
    workload_id: Uuid,
    cost: u64,
    network: u64,
    at: i128,
    policy_id: Uuid,
    now: i128,
)
    requires
        0 <= i < uses.len(),
        settles(uses[i], workload_id, cost, network),
    ensures
        spent(uses.update(i, settled(uses[i], cost, network, at)), policy_id, now).0 <= spent(
            uses,
            policy_id,
            now,
        ).0,
        spent(uses.update(i, settled(uses[i], cost, network, at)), policy_id, now).1 <= spent(
            uses,
            policy_id,
            now,
        ).1,
    decreases uses.len(),
{
    let new = uses.update(i, settled(uses[i], cost, network, at));
    if i == uses.len() - 1 {
        assert(new.drop_last() =~= uses.drop_last());
    } else {
        assert(new.drop_last() =~= uses.drop_last().update(
            i,
            settled(uses.drop_last()[i], cost, network, at),
        ));
        law_settling_only_lowers(
            uses.drop_last(),
            i,
            workload_id,
            cost,
            network,
            at,
            policy_id,
            now,
        );
    }
}

/// A use is settled once: afterwards it can be settled no more, whatever it came to.
pub proof fn law_a_use_is_settled_once(
    usage: CloudUse,
    workload_id: Uuid,
    cost: u64,
    network: u64,
    cost_again: u64,
    network_again: u64,
    now: i128,
)
    requires
        settles(usage, workload_id, cost, network),
    ensures
        !settles(settled(usage, cost, network, now), workload_id, cost_again, network_again),
{
}

/// What is spent under one policy does not count against another.
pub proof fn law_policies_are_counted_apart(
    uses: Seq<CloudUse>,
    usage: CloudUse,
    policy_id: Uuid,
    now: i128,
)
    requires
        usage.policy_id != policy_id,
    ensures
        spent(uses.push(usage), policy_id, now) == spent(uses, policy_id, now),
{
    assert(uses.push(usage).drop_last() =~= uses);
}

/// What was observed in one month does not count in another.
pub proof fn law_network_usage_is_monthly(
    usage: Map<(u128, i32, u32), u64>,
    cluster_id: Uuid,
    month: (i32, u32),
    other: (i32, u32),
    bytes: u64,
)
    requires
        month != other,
    ensures
        observed(
            usage.insert((cluster_id, month.0, month.1), bytes),
            cluster_id,
            other,
        ) == observed(usage, cluster_id, other),
        observed(usage.insert((cluster_id, month.0, month.1), bytes), cluster_id, month) == bytes,
{
}

/// What the settled uses under a policy since the start of the month of `now` came to.
pub open spec fn settled_total(uses: Seq<CloudUse>, policy_id: Uuid, now: i128) -> (int, int)
    decreases uses.len(),
{
    if uses.len() == 0 {
        (0, 0)
    } else {
        let rest = settled_total(uses.drop_first(), policy_id, now);
        let usage = uses.first();
        match usage.actual {
            Some((cost, network)) if usage.policy_id == policy_id && since_month_start(
                usage.created_at,
                now,
            ) => (cost + rest.0, network + rest.1),
            _ => rest,
        }
    }
}

/// What is reserved for the uses under a policy since the start of the month of `now` that are not
/// settled.
pub open spec fn open_total(uses: Seq<CloudUse>, policy_id: Uuid, now: i128) -> (int, int)
    decreases uses.len(),
{
    if uses.len() == 0 {
        (0, 0)
    } else {
        let rest = open_total(uses.drop_first(), policy_id, now);
        let usage = uses.first();
        if usage.actual is None && usage.policy_id == policy_id && since_month_start(
            usage.created_at,
            now,
        ) {
            (usage.reserved_cost_micros + rest.0, usage.reserved_network_bytes + rest.1)
        } else {
            rest
        }
    }
}

proof fn lemma_spent_from_the_front(uses: Seq<CloudUse>, policy_id: Uuid, now: i128)
    requires
        uses.len() > 0,
    ensures
        ({
            let first = spent(seq![uses.first()], policy_id, now);
            let rest = spent(uses.drop_first(), policy_id, now);
            &&& spent(uses, policy_id, now).0 == first.0 + rest.0
            &&& spent(uses, policy_id, now).1 == first.1 + rest.1
        }),
    decreases uses.len(),
{
    let rest = uses.drop_first();
    if rest.len() == 0 {
        assert(uses =~= seq![uses.first()]);
    } else {
        lemma_spent_from_the_front(uses.drop_last(), policy_id, now);
        assert(uses.drop_last().drop_first() =~= rest.drop_last());
        assert(uses.drop_last().first() == uses.first());
        assert(rest.last() == uses.last());
    }
}

/// The month's total under a policy is what its settled uses came to and what is reserved for its open
/// ones, in cost and in bytes.
pub proof fn law_the_month_is_what_was_used(uses: Seq<CloudUse>, policy_id: Uuid, now: i128)
    ensures
        spent(uses, policy_id, now).0 == settled_total(uses, policy_id, now).0 + open_total(
            uses,
            policy_id,
            now,
        ).0,
        spent(uses, policy_id, now).1 == settled_total(uses, policy_id, now).1 + open_total(
            uses,
            policy_id,
            now,
        ).1,
    decreases uses.len(),
{
    if uses.len() > 0 {
        law_the_month_is_what_was_used(uses.drop_first(), policy_id, now);
        lemma_spent_from_the_front(uses, policy_id, now);
        let one = seq![uses.first()];
        assert(one.drop_last() =~= Seq::<CloudUse>::empty());
        assert(spent(one.drop_last(), policy_id, now) == (0int, 0int));
        assert(one.last() == uses.first());
    }
}

/// A use that is settled at a cost and a number of bytes adds exactly these to the month's total of its
/// policy from then on, in place of what was reserved for it, and nothing to any other.
pub proof fn law_a_settled_use_counts_exactly(
    uses: Seq<CloudUse>,
    i: int,
    workload_id: Uuid,
    cost: u64,
    network: u64,
    at: i128,
    policy_id: Uuid,
    now: i128,
)
    requires
        0 <= i < uses.len(),
        settles(uses[i], workload_id, cost, network),
    ensures
        ({
            let before = spent(uses, policy_id, now);
            let after = spent(uses.update(i, settled(uses[i], cost, network, at)), policy_id, now);
            if uses[i].policy_id == policy_id && since_month_start(uses[i].created_at, now) {
                &&& after.0 == before.0 - uses[i].reserved_cost_micros + cost
                &&& after.1 == before.1 - uses[i].reserved_network_bytes + network
            } else {
                after == before
            }
        }),
    decreases uses.len(),
{
    let new = uses.update(i, settled(uses[i], cost, network, at));
    if i == uses.len() - 1 {
        assert(new.drop_last() =~= uses.drop_last());
    } else {
        assert(new.drop_last() =~= uses.drop_last().update(
            i,
            settled(uses.drop_last()[i], cost, network, at),
        ));
        law_a_settled_use_counts_exactly(
            uses.drop_last(),
            i,
            workload_id,
            cost,
            network,
            at,
            policy_id,
            now,
        );
    }
}

/// A reservation counts in full against its own policy from the moment that it is granted, and against
/// no other; it is open, belongs to its workload, and can be settled at any cost that it covers.
pub proof fn law_a_reservation_counts_in_full(
    uses: Seq<CloudUse>,
    policy_id: Uuid,
    workload_id: Uuid,
    asked: (u64, u64),
    now: i128,
    other: Uuid,
    cost: u64,
    network: u64,
)
    requires
        other != policy_id,
    ensures
        ({
            let usage = reserved_use(policy_id, workload_id, asked, now);
            let before = spent(uses, policy_id, now);
            let after = spent(uses.push(usage), policy_id, now);
            &&& after.0 == before.0 + asked.0
            &&& after.1 == before.1 + asked.1
            &&& spent(uses.push(usage), other, now) == spent(uses, other, now)
            &&& has_use(uses.push(usage), workload_id)
            &&& settles(usage, workload_id, cost, network) <==> cost <= asked.0 && network <= asked.1
        }),
{
    let usage = reserved_use(policy_id, workload_id, asked, now);
    assert(uses.push(usage).drop_last() =~= uses);
    assert(uses.push(usage)[uses.len() as int] == usage);
}

/// A reservation is granted just where the numbers fit in the database, both limits hold with it, and the
/// workload has none yet: a limit may be used up to the last unit.
pub proof fn law_a_limit_may_be_used_up(
    uses: Seq<CloudUse>,
    policy_id: Uuid,
    workload_id: Uuid,
    asked: (u64, u64),
    limits: (u64, u64),
    now: i128,
)
    requires
        asked.0 <= DATABASE_MAX && asked.1 <= DATABASE_MAX,
        spent(uses, policy_id, now).0 <= DATABASE_MAX,
        spent(uses, policy_id, now).1 <= DATABASE_MAX,
    ensures
        ({
            let verdict = reservation_verdict(uses, policy_id, workload_id, asked, limits, now);
            let after = spent(
                uses.push(reserved_use(policy_id, workload_id, asked, now)),
                policy_id,
                now,
            );
            &&& verdict is Granted <==> after.0 <= limits.0 && after.1 <= limits.1 && !has_use(
                uses,
                workload_id,
            )
            &&& verdict is Exceeds <==> after.0 > limits.0 || after.1 > limits.1
        }),
{
    assert(uses.push(reserved_use(policy_id, workload_id, asked, now)).drop_last() =~= uses);
}

/// Whether a reservation that is granted makes some uses of others.
pub open spec fn by_reservation(
    before: Seq<CloudUse>,
    after: Seq<CloudUse>,
    policy_id: Uuid,
    workload_id: Uuid,
    asked: (u64, u64),
    limits: (u64, u64),
    at: i128,
) -> bool {
    &&& reservation_verdict(before, policy_id, workload_id, asked, limits, at) is Granted
    &&& after == before.push(reserved_use(policy_id, workload_id, asked, at))
}

/// Whether a settlement makes some uses of others.
pub open spec fn by_settlement(
    before: Seq<CloudUse>,
    after: Seq<CloudUse>,
    i: int,
    workload_id: Uuid,
    cost: u64,
    network: u64,
    at: i128,
) -> bool {
    &&& 0 <= i < before.len()
    &&& settles(before[i], workload_id, cost, network)
    &&& after == before.update(i, settled(before[i], cost, network, at))
}

/// Whether a reservation or a settlement in the month of `now` makes some uses of others, where a policy
/// has these limits and any other policy has limits of its own.
pub open spec fn books(
    before: Seq<CloudUse>,
    after: Seq<CloudUse>,
    policy_id: Uuid,
    limits: (u64, u64),
    now: i128,
) -> bool {
    ||| after == before
    ||| exists|id: Uuid, workload_id: Uuid, asked: (u64, u64), of: (u64, u64), at: i128|
        calendar_month(at) == calendar_month(now) && (id == policy_id ==> of == limits)
            && #[trigger] by_reservation(before, after, id, workload_id, asked, of, at)
    ||| exists|i: int, workload_id: Uuid, cost: u64, network: u64, at: i128| #[trigger]
        by_settlement(before, after, i, workload_id, cost, network, at)
}

proof fn lemma_same_month(uses: Seq<CloudUse>, policy_id: Uuid, a: i128, b: i128)
    requires
        calendar_month(a) == calendar_month(b),
    ensures
        spent(uses, policy_id, a) == spent(uses, policy_id, b),
    decreases uses.len(),
{
    if uses.len() > 0 {
        lemma_same_month(uses.drop_last(), policy_id, a, b);
    }
}

/// Whatever sequence of reservations and settlements is made in a month: what the settled uses of a
/// policy came to, with what is reserved for its open ones, never exceeds the policy's limits, neither in
/// cost nor in bytes, where it did not at the beginning.
pub proof fn law_a_month_never_exceeds_its_limits(
    story: Seq<Seq<CloudUse>>,
    policy_id: Uuid,
    limits: (u64, u64),
    now: i128,
    n: int,
)
    requires
        0 <= n < story.len(),
        settled_total(story[0], policy_id, now).0 + open_total(story[0], policy_id, now).0
            <= limits.0,
        settled_total(story[0], policy_id, now).1 + open_total(story[0], policy_id, now).1
            <= limits.1,
        forall|i: int|
            0 <= i < story.len() - 1 ==> #[trigger] books(
                story[i],
                story[i + 1],
                policy_id,
                limits,
                now,
            ),
    ensures
        settled_total(story[n], policy_id, now).0 + open_total(story[n], policy_id, now).0
            <= limits.0,
        settled_total(story[n], policy_id, now).1 + open_total(story[n], policy_id, now).1
            <= limits.1,
    decreases n,
{
    if n > 0 {
        law_a_month_never_exceeds_its_limits(story, policy_id, limits, now, n - 1);
        let before = story[n - 1];
        let after = story[n];
        law_the_month_is_what_was_used(before, policy_id, now);
        law_the_month_is_what_was_used(after, policy_id, now);
        assert(books(story[n - 1], story[n - 1 + 1], policy_id, limits, now));
        if exists|id: Uuid, workload_id: Uuid, asked: (u64, u64), of: (u64, u64), at: i128|
            calendar_month(at) == calendar_month(now) && (id == policy_id ==> of == limits)
                && #[trigger] by_reservation(before, after, id, workload_id, asked, of, at) {
            let (id, workload_id, asked, of, at) = choose|
                id: Uuid,
                workload_id: Uuid,
                asked: (u64, u64),
                of: (u64, u64),
                at: i128,
            |
                calendar_month(at) == calendar_month(now) && (id == policy_id ==> of == limits)
                    && #[trigger] by_reservation(before, after, id, workload_id, asked, of, at);
            lemma_same_month(before, policy_id, at, now);
            lemma_same_month(after, policy_id, at, now);
            if id == policy_id {
                law_the_month_stays_within_its_limits(before, id, workload_id, asked, of, at);
            } else {
                law_policies_are_counted_apart(
                    before,
                    reserved_use(id, workload_id, asked, at),
                    policy_id,
                    now,
                );
            }
        } else if exists|i: int, workload_id: Uuid, cost: u64, network: u64, at: i128| #[trigger]
            by_settlement(before, after, i, workload_id, cost, network, at) {
            let (i, workload_id, cost, network, at) = choose|
                i: int,
                workload_id: Uuid,
                cost: u64,
                network: u64,
                at: i128,
            | #[trigger]
                by_settlement(before, after, i, workload_id, cost, network, at);
            law_settling_only_lowers(before, i, workload_id, cost, network, at, policy_id, now);
        }
    }
}

/// A use of an earlier month counts no more: what a new month allows is the whole limit.
pub proof fn law_a_new_month_begins_empty(uses: Seq<CloudUse>, policy_id: Uuid, now: i128)
    requires
        forall|i: int|
            0 <= i < uses.len() ==> month_before(
                calendar_month((#[trigger] uses[i]).created_at),
                calendar_month(now),
            ),
    ensures
        spent(uses, policy_id, now) == (0int, 0int),
    decreases uses.len(),
{
    if uses.len() > 0 {
        let before = uses.drop_last();
        assert forall|i: int| 0 <= i < before.len() implies month_before(
            calendar_month((#[trigger] before[i]).created_at),
            calendar_month(now),
        ) by {
            assert(before[i] == uses[i]);
        }
        law_a_new_month_begins_empty(before, policy_id, now);
        assert(uses.last() == uses[uses.len() - 1]);
    }
}

/// Traffic counts in the month and the cluster in which it was observed, with the bytes that were observed
/// and not those that were estimated, and in no other; two records add up.
pub proof fn law_traffic_adds_up(
    v: RepositoryView,
    id: Uuid,
    record: TransportRecord,
    other_id: Uuid,
    other: TransportRecord,
    cluster_id: Uuid,
    month: (i32, u32),
)
    requires
        other.cluster_id == record.cluster_id,
        calendar_month(other.created_at) == calendar_month(record.created_at),
        observed(v.network_usage, record.cluster_id, calendar_month(record.created_at))
            + record.observed_bytes + other.observed_bytes <= u64::MAX,
        cluster_id != record.cluster_id || month != calendar_month(record.created_at),
    ensures
        ({
            let at = calendar_month(record.created_at);
            let before = observed(v.network_usage, record.cluster_id, at);
            let once = with_traffic(v, id, record);
            let twice = with_traffic(once, other_id, other);
            &&& observed(once.network_usage, record.cluster_id, at) == before + record.observed_bytes
            &&& observed(twice.network_usage, record.cluster_id, at) == before
                + record.observed_bytes + other.observed_bytes
            &&& observed(once.network_usage, cluster_id, month) == observed(
                v.network_usage,
                cluster_id,
                month,
            )
            &&& once.transports[id] == record
            &&& other_id != id ==> twice.transports[id] == record && twice.transports[other_id]
                == other
            &&& once.cloud_usage == v.cloud_usage
        }),
{
}

/// Of a reservation it is told for which workload it is and how much it sets aside.
pub proof fn law_a_reservation_is_told(policy_id: Uuid, workload_id: Uuid, asked: (u64, u64))
    ensures
        ({
            let told = reserved_event(policy_id, workload_id, asked);
            &&& told.event_type == "cloud_usage.reserved"@
            &&& field_of(told.payload, "policy_id"@) == Some(id_json(policy_id))
            &&& field_of(told.payload, "workload_id"@) == Some(id_json(workload_id))
            &&& field_of(told.payload, "reserved_cost_micros"@) == Some(JsonView::Number(asked.0 as int))
            &&& field_of(told.payload, "reserved_network_bytes"@) == Some(JsonView::Number(asked.1 as int))
        }),
{
    reveal_strlit("policy_id");
    reveal_strlit("workload_id");
    reveal_strlit("reserved_cost_micros");
    reveal_strlit("reserved_network_bytes");
    assert("policy_id"@.len() == 9);
    assert("workload_id"@.len() == 11);
    assert("reserved_cost_micros"@.len() == 20);
    assert("reserved_network_bytes"@.len() == 22);
    let a = ("policy_id"@, id_json(policy_id));
    let b = ("workload_id"@, id_json(workload_id));
    let c = ("reserved_cost_micros"@, JsonView::Number(asked.0 as int));
    let d = ("reserved_network_bytes"@, JsonView::Number(asked.1 as int));
    lemma_fields4(a, b, c, d, "policy_id"@);
    lemma_fields4(a, b, c, d, "workload_id"@);
    lemma_fields4(a, b, c, d, "reserved_cost_micros"@);
    lemma_fields4(a, b, c, d, "reserved_network_bytes"@);
}

/// Of a use that is settled it is told what it came to.
pub proof fn law_a_settlement_is_told(workload_id: Uuid, cost: u64, network: u64)
    ensures
        ({
            let told = settled_event(workload_id, cost, network);
            &&& told.event_type == "cloud_usage.completed"@
            &&& field_of(told.payload, "workload_id"@) == Some(id_json(workload_id))
            &&& field_of(told.payload, "cost_micros"@) == Some(JsonView::Number(cost as int))
            &&& field_of(told.payload, "network_bytes"@) == Some(JsonView::Number(network as int))
        }),
{
    reveal_strlit("workload_id");
    reveal_strlit("cost_micros");
    reveal_strlit("network_bytes");
    assert("workload_id"@.len() == 11);
    assert("cost_micros"@.len() == 11);
    assert("network_bytes"@.len() == 13);
    assert("workload_id"@[0] != "cost_micros"@[0]);
    let a = ("workload_id"@, id_json(workload_id));
    let b = ("cost_micros"@, JsonView::Number(cost as int));
    let c = ("network_bytes"@, JsonView::Number(network as int));
    lemma_fields3(a, b, c, "workload_id"@);
    lemma_fields3(a, b, c, "cost_micros"@);
    lemma_fields3(a, b, c, "network_bytes"@);
}

/// A settled use holds what it came to and when, is the same use otherwise, and is not settled again.
pub proof fn law_a_settlement_is_on_record(
    usage: CloudUse,
    cost: u64,
    network: u64,
    now: i128,
    workload_id: Uuid,
    other_cost: u64,
    other_network: u64,
)
    ensures
        ({
            let after = settled(usage, cost, network, now);
            &&& after.actual == Some((cost, network))
            &&& after.completed_at == Some(now)
            &&& after.workload_id == usage.workload_id
            &&& after.policy_id == usage.policy_id
            &&& after.created_at == usage.created_at
            &&& after.reserved_cost_micros == usage.reserved_cost_micros
            &&& after.reserved_network_bytes == usage.reserved_network_bytes
            &&& !settles(after, workload_id, other_cost, other_network)
        }),
{
}

} // verus!
