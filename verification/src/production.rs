//! The production queue: training and construction jobs queued at producer
//! structures, paid for up front and refunded in full when cancelled.

use vstd::prelude::*;

use crate::table::{contains_u64, insert_entry, lemma_insert_lookup, lemma_unique_insert, lookup, lookup_u64, remove_key_u64, unique_keys};
use crate::lobby::{runtime_team_spec, MatchConfig};
use crate::team::Team;
use crate::text::{lemma_text_order, lemma_text_transitive, same_text, text_before, text_less};
use std::cmp::Ordering;

verus! {

/// At most this many jobs wait at one producer.
pub const PRODUCTION_QUEUE_LIMIT: usize = 5;

/// Number of producer kinds that keep a veterancy slot.
pub const PRODUCTION_VETERANCY_PRODUCER_COUNT: usize = 3;

/// What a product costs.
#[derive(Clone, Copy, Debug, PartialEq, Eq, Structural)]
pub struct Cost {
    pub ore: i32,
    pub crystal: i32,
}

/// The resources one team holds.
#[derive(Clone, Copy, Debug, PartialEq, Eq, Structural)]
pub struct TeamEconomy {
    pub ore: i32,
    pub crystal: i32,
}

/// `value` is representable as an `i32`.
pub open spec fn fits_i32(value: int) -> bool {
    i32::MIN <= value <= i32::MAX
}

/// The team can pay `cost`.
pub open spec fn affords(economy: TeamEconomy, cost: Cost) -> bool {
    economy.ore >= cost.ore && economy.crystal >= cost.crystal
}

/// The economy after paying `cost`.
pub open spec fn after_spending(economy: TeamEconomy, cost: Cost) -> TeamEconomy {
    TeamEconomy { ore: (economy.ore - cost.ore) as i32, crystal: (economy.crystal - cost.crystal) as i32 }
}

/// Paying `cost` back into the economy stays within `i32`.
pub open spec fn refund_fits(economy: TeamEconomy, cost: Cost) -> bool {
    fits_i32(economy.ore + cost.ore) && fits_i32(economy.crystal + cost.crystal)
}

/// A cost is never negative.
pub open spec fn cost_valid(cost: Cost) -> bool {
    cost.ore >= 0 && cost.crystal >= 0
}

impl TeamEconomy {
    /// Whether the team can pay `cost`.
    pub fn can_afford(&self, cost: Cost) -> (affordable: bool)
        ensures
            affordable == affords(*self, cost),
    {
        self.ore >= cost.ore && self.crystal >= cost.crystal
    }

    /// Pay `cost` when both resources suffice; otherwise change nothing.
    pub fn spend(&mut self, cost: Cost) -> (spent: bool)
        requires
            cost_valid(cost),
        ensures
            spent == affords(*old(self), cost),
            spent ==> *final(self) == after_spending(*old(self), cost),
            !spent ==> *final(self) == *old(self),
    {
        if self.ore >= cost.ore && self.crystal >= cost.crystal {
            self.ore = self.ore - cost.ore;
            self.crystal = self.crystal - cost.crystal;
            true
        } else {
            false
        }
    }

    /// Pay `cost` back.
    pub fn refund(&mut self, cost: Cost)
        requires
            refund_fits(*old(self), cost),
        ensures
            final(self).ore == old(self).ore + cost.ore,
            final(self).crystal == old(self).crystal + cost.crystal,
    {
        self.ore = self.ore + cost.ore;
        self.crystal = self.crystal + cost.crystal;
    }
}

/// What cancelling a structure under construction refunds: its whole cost.
pub fn construction_cancel_refund(cost: Cost) -> (refund: (i32, i32))
    ensures
        refund == (cost.ore, cost.crystal),
{
    (cost.ore, cost.crystal)
}

/// One queued job: `team` trains or builds `product` at `producer`, a
/// structure of kind `producer_kind`; `cost` was paid when it was queued.
/// `payload` is what the caller keeps with the job (its timer and spawn origin).
pub struct BuildJob<P> {
    pub team: Team,
    pub product: String,
    pub producer: u64,
    pub producer_kind: String,
    pub cost: Cost,
    pub payload: P,
}

/// Number of jobs queued at `producer`.
pub open spec fn producer_job_count<P>(jobs: Seq<BuildJob<P>>, producer: u64) -> nat
    decreases jobs.len(),
{
    if jobs.len() == 0 {
        0
    } else {
        producer_job_count(jobs.drop_last(), producer) + if jobs.last().producer == producer { 1nat } else { 0nat }
    }
}

/// Ore paid for the jobs of `team`.
pub open spec fn queued_ore<P>(jobs: Seq<BuildJob<P>>, team: Team) -> int
    decreases jobs.len(),
{
    if jobs.len() == 0 {
        0
    } else {
        queued_ore(jobs.drop_last(), team) + if jobs.last().team == team { jobs.last().cost.ore as int } else { 0 }
    }
}

/// Crystal paid for the jobs of `team`.
pub open spec fn queued_crystal<P>(jobs: Seq<BuildJob<P>>, team: Team) -> int
    decreases jobs.len(),
{
    if jobs.len() == 0 {
        0
    } else {
        queued_crystal(jobs.drop_last(), team) + if jobs.last().team == team { jobs.last().cost.crystal as int } else { 0 }
    }
}

/// Resources of `team` held by its economy and by its queued jobs together.
pub open spec fn team_holdings<P>(economy: TeamEconomy, jobs: Seq<BuildJob<P>>, team: Team) -> (int, int) {
    (economy.ore + queued_ore(jobs, team), economy.crystal + queued_crystal(jobs, team))
}

proof fn lemma_push_counts<P>(jobs: Seq<BuildJob<P>>, job: BuildJob<P>, producer: u64, team: Team)
    ensures
        producer_job_count(jobs.push(job), producer) == producer_job_count(jobs, producer) + if job.producer == producer { 1nat } else { 0nat },
        queued_ore(jobs.push(job), team) == queued_ore(jobs, team) + if job.team == team { job.cost.ore as int } else { 0 },
        queued_crystal(jobs.push(job), team) == queued_crystal(jobs, team) + if job.team == team { job.cost.crystal as int } else { 0 },
{
    assert(jobs.push(job).drop_last() =~= jobs);
}

proof fn lemma_remove_counts<P>(jobs: Seq<BuildJob<P>>, index: int, producer: u64, team: Team)
    requires
        0 <= index < jobs.len(),
    ensures
        producer_job_count(jobs.remove(index), producer) + if jobs[index].producer == producer { 1nat } else { 0nat }
            == producer_job_count(jobs, producer),
        queued_ore(jobs.remove(index), team) + (if jobs[index].team == team { jobs[index].cost.ore as int } else { 0 })
            == queued_ore(jobs, team),
        queued_crystal(jobs.remove(index), team) + (if jobs[index].team == team { jobs[index].cost.crystal as int } else { 0 })
            == queued_crystal(jobs, team),
    decreases jobs.len(),
{
    if index == jobs.len() - 1 {
        assert(jobs.remove(index) =~= jobs.drop_last());
    } else {
        lemma_remove_counts(jobs.drop_last(), index, producer, team);
        assert(jobs.remove(index).drop_last() =~= jobs.drop_last().remove(index));
        assert(jobs.remove(index).last() == jobs.last());
    }
}

/// Number of jobs queued at `producer`.
pub fn producer_build_queue_len<P>(jobs: &Vec<BuildJob<P>>, producer: u64) -> (count: usize)
    ensures
        count == producer_job_count(jobs@, producer),
{
    let mut count: usize = 0;
    let mut index: usize = 0;
    while index < jobs.len()
        invariant
            index <= jobs.len(),
            count == producer_job_count(jobs@.take(index as int), producer),
            count <= index,
        decreases jobs.len() - index,
    {
        proof {
            assert(jobs@.take(index as int + 1).drop_last() =~= jobs@.take(index as int));
        }
        if jobs[index].producer == producer {
            count = count + 1;
        }
        index = index + 1;
    }
    proof {
        assert(jobs@.take(index as int) =~= jobs@);
    }
    count
}

/// Whether `producer` can take one more job.
pub fn build_queue_has_capacity<P>(jobs: &Vec<BuildJob<P>>, producer: u64) -> (has_room: bool)
    ensures
        has_room == (producer_job_count(jobs@, producer) < PRODUCTION_QUEUE_LIMIT),
{
    producer_build_queue_len(jobs, producer) < PRODUCTION_QUEUE_LIMIT
}

/// How a request to queue a product ended.
#[derive(Clone, Copy, Debug, PartialEq, Eq, Structural)]
pub enum EnqueueBuildActionResult {
    Enqueued,
    NotEnoughResources,
    QueueFull,
    Unavailable,
}

/// The job queued for `team` at `producer`.
pub open spec fn new_job<P>(team: Team, product: String, cost: Cost, producer: (u64, String, P)) -> BuildJob<P> {
    BuildJob { team, product, producer: producer.0, producer_kind: producer.1, cost, payload: producer.2 }
}

/// Queue up to `requested` jobs at one producer, one at a time, while it has
/// room and the team can pay: the queue and economy after, whether one was
/// queued, and whether the money ran out first.
pub open spec fn fill_producer<P>(
    jobs: Seq<BuildJob<P>>,
    economy: TeamEconomy,
    team: Team,
    product: String,
    cost: Cost,
    producer: (u64, String, P),
    requested: nat,
) -> (Seq<BuildJob<P>>, TeamEconomy, bool, bool)
    decreases requested,
{
    if requested == 0 || producer_job_count(jobs, producer.0) >= PRODUCTION_QUEUE_LIMIT {
        (jobs, economy, false, false)
    } else if !affords(economy, cost) {
        (jobs, economy, false, true)
    } else {
        let rest = fill_producer(
            jobs.push(new_job(team, product, cost, producer)),
            after_spending(economy, cost),
            team,
            product,
            cost,
            producer,
            (requested - 1) as nat,
        );
        (rest.0, rest.1, true, rest.3)
    }
}

/// How many jobs a producer is asked for: one, or as a batch everything up
/// to the queue limit.
pub open spec fn requested_jobs<P>(jobs: Seq<BuildJob<P>>, producer: u64, batch_to_limit: bool) -> nat {
    if batch_to_limit {
        if producer_job_count(jobs, producer) >= PRODUCTION_QUEUE_LIMIT {
            0
        } else {
            (PRODUCTION_QUEUE_LIMIT - producer_job_count(jobs, producer)) as nat
        }
    } else {
        1
    }
}

/// The producers served in order, each asked as `requested_jobs` says.
pub open spec fn fill_producers<P>(
    jobs: Seq<BuildJob<P>>,
    economy: TeamEconomy,
    team: Team,
    product: String,
    cost: Cost,
    producers: Seq<(u64, String, P)>,
    batch_to_limit: bool,
) -> (Seq<BuildJob<P>>, TeamEconomy, bool, bool)
    decreases producers.len(),
{
    if producers.len() == 0 {
        (jobs, economy, false, false)
    } else {
        let before = fill_producers(jobs, economy, team, product, cost, producers.drop_last(), batch_to_limit);
        let producer = producers.last();
        let step = fill_producer(
            before.0,
            before.1,
            team,
            product,
            cost,
            producer,
            requested_jobs(before.0, producer.0, batch_to_limit),
        );
        (step.0, step.1, before.2 || step.2, before.3 || step.3)
    }
}

/// What a batch enqueue answers, from whether anything was queued and
/// whether the money ran out.
pub open spec fn enqueue_outcome(producer_count: nat, enqueued_any: bool, resource_blocked: bool) -> EnqueueBuildActionResult {
    if producer_count == 0 {
        EnqueueBuildActionResult::Unavailable
    } else if enqueued_any {
        EnqueueBuildActionResult::Enqueued
    } else if resource_blocked {
        EnqueueBuildActionResult::NotEnoughResources
    } else {
        EnqueueBuildActionResult::QueueFull
    }
}

/// Every producer stays within the queue limit, or no further above it than it was.
pub open spec fn within_limits<P>(before: Seq<BuildJob<P>>, after: Seq<BuildJob<P>>) -> bool {
    forall|producer: u64|
        #[trigger] producer_job_count(after, producer) <= PRODUCTION_QUEUE_LIMIT
            || producer_job_count(after, producer) <= producer_job_count(before, producer)
}


/// Queue `product` at each of `producers` in order: one job each, or with
/// `batch_to_limit` as many as fit under the queue limit. Each job is paid for
/// when it is queued; a producer stops at the limit, and the request stops at
/// a producer when the team can no longer pay.
pub fn enqueue_build_jobs_for_producers<P: Copy>(
    team: Team,
    product: &String,
    cost: Cost,
    producers: &Vec<(u64, String, P)>,
    batch_to_limit: bool,
    economy: &mut TeamEconomy,
    jobs: &mut Vec<BuildJob<P>>,
) -> (result: EnqueueBuildActionResult)
    requires
        cost_valid(cost),
    ensures
        ({
            let outcome = fill_producers(old(jobs)@, *old(economy), team, *product, cost, producers@, batch_to_limit);
            &&& final(jobs)@ == outcome.0
            &&& *final(economy) == outcome.1
            &&& result == enqueue_outcome(producers@.len(), outcome.2, outcome.3)
        }),
        team_holdings(*final(economy), final(jobs)@, team) == team_holdings(*old(economy), old(jobs)@, team),
        within_limits(old(jobs)@, final(jobs)@),
        final(jobs)@.len() >= old(jobs)@.len(),
        final(jobs)@.subrange(0, old(jobs)@.len() as int) == old(jobs)@,
{
    if producers.len() == 0 {
        return EnqueueBuildActionResult::Unavailable;
    }
    let ghost start_jobs = jobs@;
    let ghost start_economy = *economy;
    let mut enqueued_any = false;
    let mut resource_blocked = false;
    let mut index: usize = 0;
    while index < producers.len()
        invariant
            cost_valid(cost),
            index <= producers.len(),
            ({
                let outcome = fill_producers(start_jobs, start_economy, team, *product, cost, producers@.take(index as int), batch_to_limit);
                &&& jobs@ == outcome.0
                &&& *economy == outcome.1
                &&& enqueued_any == outcome.2
                &&& resource_blocked == outcome.3
            }),
            team_holdings(*economy, jobs@, team) == team_holdings(start_economy, start_jobs, team),
            within_limits(start_jobs, jobs@),
            jobs@.len() >= start_jobs.len(),
            jobs@.subrange(0, start_jobs.len() as int) == start_jobs,
        decreases producers.len() - index,
    {
        proof {
            assert(producers@.take(index as int + 1).drop_last() =~= producers@.take(index as int));
        }
        let producer = producers[index].0;
        let queued = producer_build_queue_len(jobs, producer);
        let requested: usize = if batch_to_limit {
            if queued >= PRODUCTION_QUEUE_LIMIT { 0 } else { PRODUCTION_QUEUE_LIMIT - queued }
        } else {
            1
        };
        let ghost entry = producers@[index as int];
        let ghost before_jobs = jobs@;
        let ghost before_economy = *economy;
        let ghost target = fill_producer(before_jobs, before_economy, team, *product, cost, entry, requested as nat);
        let mut made: usize = 0;
        let mut pushed_here = false;
        let mut blocked_here = false;
        while made < requested
            invariant_except_break
                !blocked_here,
            invariant
                cost_valid(cost),
                made <= requested,
                index < producers.len(),
                producer == entry.0,
                entry == producers@[index as int],
                ({
                    let rest = fill_producer(jobs@, *economy, team, *product, cost, entry, (requested - made) as nat);
                    &&& target.0 == rest.0
                    &&& target.1 == rest.1
                    &&& target.2 == (pushed_here || rest.2)
                    &&& target.3 == rest.3
                }),
                team_holdings(*economy, jobs@, team) == team_holdings(start_economy, start_jobs, team),
                within_limits(start_jobs, jobs@),
                jobs@.len() >= start_jobs.len(),
                jobs@.subrange(0, start_jobs.len() as int) == start_jobs,
            ensures
                blocked_here ==> !affords(*economy, cost) && producer_job_count(jobs@, producer) < PRODUCTION_QUEUE_LIMIT
                    && made < requested,
                !blocked_here ==> made >= requested || producer_job_count(jobs@, producer) >= PRODUCTION_QUEUE_LIMIT,
            decreases requested - made,
        {
            if !build_queue_has_capacity(jobs, producer) {
                break;
            }
            if !economy.spend(cost) {
                blocked_here = true;
                break;
            }
            let job = BuildJob {
                team,
                product: product.clone(),
                producer,
                producer_kind: producers[index].1.clone(),
                cost,
                payload: producers[index].2,
            };
            proof {
                assert(job == new_job(team, *product, cost, entry));
                lemma_push_counts(jobs@, job, producer, team);
                assert forall|other: u64|
                    #[trigger] producer_job_count(jobs@.push(job), other) <= PRODUCTION_QUEUE_LIMIT
                        || producer_job_count(jobs@.push(job), other) <= producer_job_count(start_jobs, other) by {
                    lemma_push_counts(jobs@, job, other, team);
                }
            }
            jobs.push(job);
            pushed_here = true;
            made = made + 1;
            proof {
                assert(jobs@.subrange(0, start_jobs.len() as int) =~= start_jobs);
            }
        }
        if pushed_here {
            enqueued_any = true;
        }
        if blocked_here {
            resource_blocked = true;
        }
        index = index + 1;
    }
    proof {
        assert(producers@.take(index as int) =~= producers@);
    }
    if enqueued_any {
        EnqueueBuildActionResult::Enqueued
    } else if resource_blocked {
        EnqueueBuildActionResult::NotEnoughResources
    } else {
        EnqueueBuildActionResult::QueueFull
    }
}

/// Every queued cost is non-negative.
pub open spec fn costs_valid<P>(jobs: Seq<BuildJob<P>>) -> bool {
    forall|i: int| 0 <= i < jobs.len() ==> #[trigger] cost_valid(jobs[i].cost)
}

/// Everything `team` holds, in its economy and in its queue, fits in `i32`.
pub open spec fn holdings_fit<P>(economy: TeamEconomy, jobs: Seq<BuildJob<P>>, team: Team) -> bool {
    fits_i32(team_holdings(economy, jobs, team).0) && fits_i32(team_holdings(economy, jobs, team).1)
}

proof fn lemma_queued_nonnegative<P>(jobs: Seq<BuildJob<P>>, team: Team)
    requires
        costs_valid(jobs),
    ensures
        queued_ore(jobs, team) >= 0,
        queued_crystal(jobs, team) >= 0,
    decreases jobs.len(),
{
    if jobs.len() > 0 {
        assert(cost_valid(jobs[jobs.len() - 1].cost));
        assert forall|i: int| 0 <= i < jobs.drop_last().len() implies #[trigger] cost_valid(jobs.drop_last()[i].cost) by {
            assert(cost_valid(jobs[i].cost));
        }
        lemma_queued_nonnegative(jobs.drop_last(), team);
    }
}

proof fn lemma_refund_fits<P>(economy: TeamEconomy, jobs: Seq<BuildJob<P>>, team: Team, index: int)
    requires
        costs_valid(jobs),
        holdings_fit(economy, jobs, team),
        0 <= index < jobs.len(),
        jobs[index].team == team,
    ensures
        refund_fits(economy, jobs[index].cost),
        costs_valid(jobs.remove(index)),
        holdings_fit(
            TeamEconomy { ore: (economy.ore + jobs[index].cost.ore) as i32, crystal: (economy.crystal + jobs[index].cost.crystal) as i32 },
            jobs.remove(index),
            team,
        ),
{
    lemma_remove_counts(jobs, index, 0, team);
    assert(cost_valid(jobs[index].cost));
    assert forall|i: int| 0 <= i < jobs.remove(index).len() implies #[trigger] cost_valid(jobs.remove(index)[i].cost) by {
        if i < index {
            assert(cost_valid(jobs[i].cost));
        } else {
            assert(cost_valid(jobs[i + 1].cost));
        }
    }
    lemma_queued_nonnegative(jobs.remove(index), team);
}

/// `job` was queued by `team` for `product` at one of `producers`.
pub open spec fn cancellable<P>(job: BuildJob<P>, team: Team, product: Seq<char>, producers: Seq<u64>) -> bool {
    job.team == team && job.product@ == product && producers.contains(job.producer)
}

/// The economy after the cost of `job` was paid back.
pub open spec fn refunded(economy: TeamEconomy, cost: Cost) -> TeamEconomy {
    TeamEconomy { ore: (economy.ore + cost.ore) as i32, crystal: (economy.crystal + cost.crystal) as i32 }
}

fn last_cancellable_index<P>(team: Team, product: &String, producers: &Vec<u64>, jobs: &Vec<BuildJob<P>>) -> (found: Option<usize>)
    ensures
        match found {
            Some(index) => index < jobs@.len() && cancellable(jobs@[index as int], team, product@, producers@)
                && forall|j: int| index < j < jobs@.len() ==> !cancellable(#[trigger] jobs@[j], team, product@, producers@),
            None => forall|j: int| 0 <= j < jobs@.len() ==> !cancellable(#[trigger] jobs@[j], team, product@, producers@),
        },
{
    let mut index: usize = jobs.len();
    while index > 0
        invariant
            index <= jobs.len(),
            forall|j: int| index <= j < jobs@.len() ==> !cancellable(#[trigger] jobs@[j], team, product@, producers@),
        decreases index,
    {
        index = index - 1;
        let job = &jobs[index];
        if job.team == team && job.product == *product && contains_u64(producers, job.producer) {
            return Some(index);
        }
    }
    None
}

/// Cancel the newest job that `team` queued for `product` at one of
/// `producers`, and pay its cost back. Returns whether one was found.
pub fn cancel_latest_queued_product_for_producers<P>(
    team: Team,
    product: &String,
    producers: &Vec<u64>,
    jobs: &mut Vec<BuildJob<P>>,
    economy: &mut TeamEconomy,
) -> (canceled: bool)
    requires
        costs_valid(old(jobs)@),
        holdings_fit(*old(economy), old(jobs)@, team),
    ensures
        canceled == exists|i: int| 0 <= i < old(jobs)@.len() && cancellable(#[trigger] old(jobs)@[i], team, product@, producers@),
        canceled ==> exists|i: int|
            0 <= i < old(jobs)@.len() && cancellable(#[trigger] old(jobs)@[i], team, product@, producers@)
                && (forall|j: int| i < j < old(jobs)@.len() ==> !cancellable(#[trigger] old(jobs)@[j], team, product@, producers@))
                && final(jobs)@ == old(jobs)@.remove(i)
                && *final(economy) == refunded(*old(economy), old(jobs)@[i].cost),
        !canceled ==> final(jobs)@ == old(jobs)@ && *final(economy) == *old(economy),
        team_holdings(*final(economy), final(jobs)@, team) == team_holdings(*old(economy), old(jobs)@, team),
        costs_valid(final(jobs)@),
        holdings_fit(*final(economy), final(jobs)@, team),
{
    match last_cancellable_index(team, product, producers, jobs) {
        Some(index) => {
            proof {
                lemma_refund_fits(*economy, jobs@, team, index as int);
                lemma_remove_counts(jobs@, index as int, 0, team);
            }
            let job = jobs.remove(index);
            economy.refund(job.cost);
            true
        },
        None => false,
    }
}

/// Number of jobs that `team` queued at `producer`.
pub open spec fn team_producer_job_count<P>(jobs: Seq<BuildJob<P>>, team: Team, producer: u64) -> nat
    decreases jobs.len(),
{
    if jobs.len() == 0 {
        0
    } else {
        team_producer_job_count(jobs.drop_last(), team, producer)
            + if jobs.last().team == team && jobs.last().producer == producer { 1nat } else { 0nat }
    }
}

fn local_job_index<P>(team: Team, producer: u64, local_index: usize, jobs: &Vec<BuildJob<P>>) -> (found: Option<usize>)
    ensures
        match found {
            Some(index) => index < jobs@.len() && jobs@[index as int].team == team && jobs@[index as int].producer == producer
                && team_producer_job_count(jobs@.take(index as int), team, producer) == local_index,
            None => team_producer_job_count(jobs@, team, producer) <= local_index,
        },
{
    let mut seen: usize = 0;
    let mut index: usize = 0;
    while index < jobs.len()
        invariant
            index <= jobs.len(),
            seen == team_producer_job_count(jobs@.take(index as int), team, producer),
            seen <= local_index,
        decreases jobs.len() - index,
    {
        proof {
            assert(jobs@.take(index as int + 1).drop_last() =~= jobs@.take(index as int));
        }
        if jobs[index].team == team && jobs[index].producer == producer {
            if seen == local_index {
                return Some(index);
            }
            seen = seen + 1;
        }
        index = index + 1;
    }
    proof {
        assert(jobs@.take(index as int) =~= jobs@);
    }
    None
}

/// Cancel the `local_index`-th job (counting from 0) that `team` queued at
/// `producer`, and pay its cost back. Returns whether there was one.
pub fn cancel_queued_job_at_local_index<P>(
    team: Team,
    producer: u64,
    local_index: usize,
    jobs: &mut Vec<BuildJob<P>>,
    economy: &mut TeamEconomy,
) -> (canceled: bool)
    requires
        costs_valid(old(jobs)@),
        holdings_fit(*old(economy), old(jobs)@, team),
    ensures
        canceled == (local_index < team_producer_job_count(old(jobs)@, team, producer)),
        canceled ==> exists|i: int|
            0 <= i < old(jobs)@.len() && (#[trigger] old(jobs)@[i]).team == team && old(jobs)@[i].producer == producer
                && team_producer_job_count(old(jobs)@.take(i), team, producer) == local_index
                && final(jobs)@ == old(jobs)@.remove(i)
                && *final(economy) == refunded(*old(economy), old(jobs)@[i].cost),
        !canceled ==> final(jobs)@ == old(jobs)@ && *final(economy) == *old(economy),
        team_holdings(*final(economy), final(jobs)@, team) == team_holdings(*old(economy), old(jobs)@, team),
        costs_valid(final(jobs)@),
        holdings_fit(*final(economy), final(jobs)@, team),
{
    match local_job_index(team, producer, local_index, jobs) {
        Some(index) => {
            proof {
                lemma_refund_fits(*economy, jobs@, team, index as int);
                lemma_remove_counts(jobs@, index as int, 0, team);
                lemma_team_producer_prefix(jobs@, team, producer, index as int);
            }
            let job = jobs.remove(index);
            economy.refund(job.cost);
            true
        },
        None => false,
    }
}

proof fn lemma_team_producer_prefix<P>(jobs: Seq<BuildJob<P>>, team: Team, producer: u64, index: int)
    requires
        0 <= index < jobs.len(),
        jobs[index].team == team,
        jobs[index].producer == producer,
    ensures
        team_producer_job_count(jobs, team, producer) > team_producer_job_count(jobs.take(index), team, producer),
    decreases jobs.len(),
{
    if index == jobs.len() - 1 {
        assert(jobs.drop_last() =~= jobs.take(index));
    } else {
        lemma_team_producer_prefix(jobs.drop_last(), team, producer, index);
        assert(jobs.drop_last().take(index) =~= jobs.take(index));
    }
}

/// The jobs that stay when every job `removed` picks out leaves, in order.
pub open spec fn jobs_kept<P>(jobs: Seq<BuildJob<P>>, team: Team, producer: Option<u64>) -> Seq<BuildJob<P>>
    decreases jobs.len(),
{
    if jobs.len() == 0 {
        jobs
    } else {
        let earlier = jobs_kept(jobs.drop_last(), team, producer);
        if job_removed(jobs.last(), team, producer) {
            earlier
        } else {
            earlier.push(jobs.last())
        }
    }
}

/// A job of `team`, and when `producer` is given, one queued there.
pub open spec fn job_removed<P>(job: BuildJob<P>, team: Team, producer: Option<u64>) -> bool {
    job.team == team && match producer {
        Some(p) => job.producer == p,
        None => true,
    }
}

/// Drop every job of `team` (a team that left the match); nothing is refunded.
pub fn remove_team_jobs<P>(jobs: &mut Vec<BuildJob<P>>, team: Team)
    ensures
        final(jobs)@ == jobs_kept(old(jobs)@, team, None),
        forall|i: int| 0 <= i < final(jobs)@.len() ==> (#[trigger] final(jobs)@[i]).team != team,
{
    let ghost initial_jobs = jobs@;
    let mut rest: Vec<BuildJob<P>> = Vec::new();
    std::mem::swap(&mut rest, jobs);
    let ghost total = rest@.len();
    while rest.len() > 0
        invariant
            total == initial_jobs.len(),
            rest@.len() <= total,
            rest@ == initial_jobs.skip(total - rest@.len()),
            jobs@ == jobs_kept(initial_jobs.take(total - rest@.len()), team, None),
            forall|i: int| 0 <= i < jobs@.len() ==> (#[trigger] jobs@[i]).team != team,
        decreases rest.len(),
    {
        let ghost done = total - rest@.len();
        proof {
            assert(initial_jobs.take(done + 1).drop_last() =~= initial_jobs.take(done));
            assert(initial_jobs.take(done + 1).last() == initial_jobs[done]);
            assert(rest@[0] == initial_jobs[done]);
        }
        let job = rest.remove(0);
        if job.team != team {
            jobs.push(job);
        }
        proof {
            assert(rest@ =~= initial_jobs.skip(total - rest@.len()));
        }
    }
    proof {
        assert(initial_jobs.take(total as int) =~= initial_jobs);
    }
}

/// Cancel every job that `team` queued at `producer` (a structure being sold
/// or torn down), paying each cost back. Returns how many were cancelled.
pub fn cancel_jobs_for_producer<P>(
    team: Team,
    producer: u64,
    jobs: &mut Vec<BuildJob<P>>,
    economy: &mut TeamEconomy,
) -> (canceled: usize)
    requires
        costs_valid(old(jobs)@),
        holdings_fit(*old(economy), old(jobs)@, team),
    ensures
        final(jobs)@ == jobs_kept(old(jobs)@, team, Some(producer)),
        canceled == old(jobs)@.len() - final(jobs)@.len(),
        team_holdings(*final(economy), final(jobs)@, team) == team_holdings(*old(economy), old(jobs)@, team),
        costs_valid(final(jobs)@),
        holdings_fit(*final(economy), final(jobs)@, team),
        team_producer_job_count(final(jobs)@, team, producer) == 0,
{
    let ghost initial_jobs = jobs@;
    let ghost start_economy = *economy;
    let mut rest: Vec<BuildJob<P>> = Vec::new();
    std::mem::swap(&mut rest, jobs);
    let total_len = rest.len();
    let ghost total = rest@.len();
    let mut canceled: usize = 0;
    while rest.len() > 0
        invariant
            total == initial_jobs.len(),
            total == total_len,
            rest@.len() <= total,
            rest@ == initial_jobs.skip(total - rest@.len()),
            jobs@ == jobs_kept(initial_jobs.take(total - rest@.len()), team, Some(producer)),
            canceled == (total - rest@.len()) - jobs@.len(),
            costs_valid(initial_jobs),
            costs_valid(jobs@),
            team_holdings(*economy, jobs@, team).0 + queued_ore(rest@, team) == team_holdings(start_economy, initial_jobs, team).0,
            team_holdings(*economy, jobs@, team).1 + queued_crystal(rest@, team) == team_holdings(start_economy, initial_jobs, team).1,
            holdings_fit(start_economy, initial_jobs, team),
            team_producer_job_count(jobs@, team, producer) == 0,
        decreases rest.len(),
    {
        let ghost done = total - rest@.len();
        proof {
            assert(initial_jobs.take(done + 1).drop_last() =~= initial_jobs.take(done));
            assert(initial_jobs.take(done + 1).last() == initial_jobs[done]);
            assert(rest@[0] == initial_jobs[done]);
            assert(cost_valid(initial_jobs[done].cost));
            lemma_remove_counts(rest@, 0, producer, team);
            assert forall|i: int| 0 <= i < rest@.len() implies #[trigger] cost_valid(rest@[i].cost) by {
                assert(rest@[i] == initial_jobs[done + i]);
            }
            lemma_queued_nonnegative(rest@.remove(0), team);
            lemma_queued_nonnegative(jobs@, team);
        }
        let job = rest.remove(0);
        if job.team == team && job.producer == producer {
            economy.refund(job.cost);
            canceled = canceled + 1;
        } else {
            proof {
                lemma_push_counts(jobs@, job, producer, team);
                assert(jobs@.push(job).drop_last() =~= jobs@);
            }
            let ghost before = jobs@;
            assert(job == initial_jobs[done]);
            assert(cost_valid(job.cost));
            jobs.push(job);
            proof {
                assert forall|i: int| 0 <= i < jobs@.len() implies #[trigger] cost_valid(jobs@[i].cost) by {
                    if i < before.len() {
                        assert(costs_valid(before));
                        assert(cost_valid(before[i].cost));
                        assert(jobs@[i] == before[i]);
                    } else {
                        assert(i == before.len());
                        assert(jobs@[i] == job);
                    }
                }
            }
        }
        proof {
            assert(rest@ =~= initial_jobs.skip(total - rest@.len()));
        }
    }
    proof {
        assert(initial_jobs.take(total as int) =~= initial_jobs);
        assert(rest@.len() == 0);
    }
    canceled
}

/// Which veterancy slot a producer kind keeps, if any.
pub open spec fn veterancy_slot_of(id: Seq<char>) -> Option<usize> {
    if id == "Barracks"@ {
        Some(0)
    } else if id == "VehicleFactory"@ {
        Some(1)
    } else if id == "AircraftFactory"@ {
        Some(2)
    } else {
        None
    }
}

/// The veterancy slot of a producer kind: barracks, vehicle factory and
/// aircraft factory each keep one.
pub fn production_veterancy_slot(id: &str) -> (slot: Option<usize>)
    ensures
        slot == veterancy_slot_of(id@),
        slot matches Some(index) ==> index < PRODUCTION_VETERANCY_PRODUCER_COUNT,
{
    if same_text(id, "Barracks") {
        Some(0)
    } else if same_text(id, "VehicleFactory") {
        Some(1)
    } else if same_text(id, "AircraftFactory") {
        Some(2)
    } else {
        None
    }
}

/// Whether a structure kind keeps a production queue.
pub open spec fn has_production_queue(id: Seq<char>) -> bool {
    id == "CommandCenter"@ || id == "Barracks"@ || id == "VehicleFactory"@ || id == "AircraftFactory"@
}

/// Whether a structure kind keeps a production queue.
pub fn structure_has_production_queue(id: &str) -> (has_queue: bool)
    ensures
        has_queue == has_production_queue(id@),
{
    same_text(id, "CommandCenter") || same_text(id, "Barracks") || same_text(id, "VehicleFactory")
        || same_text(id, "AircraftFactory")
}

/// The two pages of the structure build menu.
#[derive(Clone, Copy, Debug, PartialEq, Eq, Structural)]
pub enum BuildStructureTab {
    Production,
    Defense,
}

/// Whether a structure kind belongs on the defense page.
pub open spec fn is_defense_structure(id: Seq<char>) -> bool {
    id == "AntiGroundTurret"@
        || id == "AntiAirTurret"@
        || id == "TeslaFenceSegment"@
        || id == "ArcCoilDefenseTower"@
        || id == "LanceBeamDefenseTower"@
        || id == "PrismDefenseObelisk"@
        || id == "RailCannonBunker"@
}

/// The build-menu page a structure kind is listed on.
pub fn build_structure_tab_for(id: &str) -> (tab: BuildStructureTab)
    ensures
        tab == (if is_defense_structure(id@) { BuildStructureTab::Defense } else { BuildStructureTab::Production }),
{
    if same_text(id, "AntiGroundTurret")
        || same_text(id, "AntiAirTurret")
        || same_text(id, "TeslaFenceSegment")
        || same_text(id, "ArcCoilDefenseTower")
        || same_text(id, "LanceBeamDefenseTower")
        || same_text(id, "PrismDefenseObelisk")
        || same_text(id, "RailCannonBunker") {
        BuildStructureTab::Defense
    } else {
        BuildStructureTab::Production
    }
}

/// Where a structure kind sits in the build grid: power first, then economy
/// and core production, early defense, tech and mid-game production, late
/// defenses and super-weapons; unknown kinds last.
pub open spec fn order_stage_of(id: Seq<char>) -> u8 {
    if id == "PowerReactor"@ {
        0
    } else
    if id == "Refinery"@ {
        5
    } else
    if id == "Barracks"@ {
        10
    } else
    if id == "RepairPad"@ {
        14
    } else
    if id == "AntiGroundTurret"@ {
        18
    } else
    if id == "AntiAirTurret"@ {
        20
    } else
    if id == "TeslaFenceSegment"@ {
        22
    } else
    if id == "RadarUplink"@ {
        26
    } else
    if id == "VehicleFactory"@ {
        30
    } else
    if id == "OrePurifier"@ {
        34
    } else
    if id == "AdvancedReactorPlant"@ {
        36
    } else
    if id == "TechLab"@ {
        40
    } else
    if id == "AircraftFactory"@ {
        44
    } else
    if id == "RoboticsBay"@ {
        48
    } else
    if id == "ArcCoilDefenseTower"@ {
        56
    } else
    if id == "LanceBeamDefenseTower"@ {
        58
    } else
    if id == "PrismDefenseObelisk"@ {
        60
    } else
    if id == "RailCannonBunker"@ {
        62
    } else
    if id == "WeatherControlSpire"@ {
        70
    } else {
        90
    }
}

/// `left` comes before `right` in the build menu: an earlier build-grid
/// position, or the same position and an earlier name.
pub open spec fn build_order_before(left: Seq<char>, right: Seq<char>) -> bool {
    order_stage_of(left) < order_stage_of(right) || (order_stage_of(left) == order_stage_of(right) && text_less(left, right))
}

/// The build-menu order is a strict total order on names: no name comes
/// before itself, of two different names exactly one comes first, and it
/// is transitive, so sorting the menu by it is well defined.
pub proof fn law_build_menu_order_is_total(a: Seq<char>, b: Seq<char>, c: Seq<char>)
    ensures
        !build_order_before(a, a),
        a != b ==> (build_order_before(a, b) <==> !build_order_before(b, a)),
        build_order_before(a, b) && build_order_before(b, c) ==> build_order_before(a, c),
{
    lemma_text_order(a, b);
    lemma_text_order(b, a);
    if text_less(a, b) && text_less(b, c) {
        lemma_text_transitive(a, b, c);
    }
}

/// Build-menu order of structure kinds: by build-grid position, then by
/// name.
pub fn build_structure_order_compare(left: &str, right: &str) -> (order: Ordering)
    ensures
        order == if build_order_before(left@, right@) {
            Ordering::Less
        } else if left@ == right@ {
            Ordering::Equal
        } else {
            Ordering::Greater
        },
{
    proof {
        lemma_text_order(left@, right@);
    }
    let left_stage = build_structure_order_stage(left);
    let right_stage = build_structure_order_stage(right);
    if left_stage < right_stage {
        Ordering::Less
    } else if left_stage > right_stage {
        Ordering::Greater
    } else if text_before(left, right) {
        Ordering::Less
    } else if same_text(left, right) {
        Ordering::Equal
    } else {
        Ordering::Greater
    }
}

/// The build-grid position of a structure kind.
pub fn build_structure_order_stage(id: &str) -> (stage: u8)
    ensures
        stage == order_stage_of(id@),
{
    if same_text(id, "PowerReactor") {
        0
    } else
    if same_text(id, "Refinery") {
        5
    } else
    if same_text(id, "Barracks") {
        10
    } else
    if same_text(id, "RepairPad") {
        14
    } else
    if same_text(id, "AntiGroundTurret") {
        18
    } else
    if same_text(id, "AntiAirTurret") {
        20
    } else
    if same_text(id, "TeslaFenceSegment") {
        22
    } else
    if same_text(id, "RadarUplink") {
        26
    } else
    if same_text(id, "VehicleFactory") {
        30
    } else
    if same_text(id, "OrePurifier") {
        34
    } else
    if same_text(id, "AdvancedReactorPlant") {
        36
    } else
    if same_text(id, "TechLab") {
        40
    } else
    if same_text(id, "AircraftFactory") {
        44
    } else
    if same_text(id, "RoboticsBay") {
        48
    } else
    if same_text(id, "ArcCoilDefenseTower") {
        56
    } else
    if same_text(id, "LanceBeamDefenseTower") {
        58
    } else
    if same_text(id, "PrismDefenseObelisk") {
        60
    } else
    if same_text(id, "RailCannonBunker") {
        62
    } else
    if same_text(id, "WeatherControlSpire") {
        70
    } else {
        90
    }
}

/// Alt with the production hotkey selects every producer of that kind when
/// Ctrl is not held; Shift then adds to the selection. `None` when the
/// shortcut does not apply.
pub fn production_structure_hotkey_select_all(alt: bool, ctrl: bool, shift: bool, just_pressed: bool) -> (additive: Option<bool>)
    ensures
        additive == (if alt && !ctrl && just_pressed { Some(shift) } else { None }),
{
    if alt && !ctrl && just_pressed {
        Some(shift)
    } else {
        None
    }
}

/// A selected structure as the stop command sees it: its entity, owner,
/// whether it still stands, and what it cost if it is still under construction.
pub type SelectedStructure = (u64, Team, bool, Option<Cost>);

/// The selected structures of `team` that still stand, in order.
pub open spec fn stop_candidates(items: Seq<SelectedStructure>, team: Team) -> Seq<SelectedStructure>
    decreases items.len(),
{
    if items.len() == 0 {
        items
    } else {
        let earlier = stop_candidates(items.drop_last(), team);
        if items.last().1 == team && items.last().2 {
            earlier.push(items.last())
        } else {
            earlier
        }
    }
}

/// What the stop command cancels: with no units of `team` selected and
/// exactly one standing structure of `team` selected, that structure if it is
/// still under construction, with what it cost.
pub open spec fn stop_target(unit_count: usize, items: Seq<SelectedStructure>, team: Team) -> Option<(u64, Cost)> {
    let candidates = stop_candidates(items, team);
    if unit_count == 0 && candidates.len() == 1 && candidates[0].3 is Some {
        Some((candidates[0].0, candidates[0].3->0))
    } else {
        None
    }
}

/// The structure under construction that the stop command would cancel.
pub fn selected_under_construction_stop_target(team: Team, selected_team_unit_count: usize, items: &Vec<SelectedStructure>) -> (target: Option<(u64, Cost)>)
    ensures
        target == stop_target(selected_team_unit_count, items@, team),
{
    if selected_team_unit_count > 0 {
        return None;
    }
    let mut count: usize = 0;
    let mut target: Option<(u64, Cost)> = None;
    let mut index: usize = 0;
    while index < items.len()
        invariant
            index <= items.len(),
            count == stop_candidates(items@.take(index as int), team).len(),
            count <= index,
            count == 1 ==> target == (if stop_candidates(items@.take(index as int), team)[0].3 is Some {
                Some((stop_candidates(items@.take(index as int), team)[0].0, stop_candidates(items@.take(index as int), team)[0].3->0))
            } else {
                None::<(u64, Cost)>
            }),
        decreases items.len() - index,
    {
        proof {
            assert(items@.take(index as int + 1).drop_last() =~= items@.take(index as int));
        }
        let (entity, owner, standing, under_construction) = items[index];
        if owner == team && standing {
            if count == 0 {
                target = match under_construction {
                    Some(cost) => Some((entity, cost)),
                    None => None,
                };
            }
            count = count + 1;
        }
        index = index + 1;
    }
    proof {
        assert(items@.take(index as int) =~= items@);
    }
    if count == 1 {
        target
    } else {
        None
    }
}

/// Stop a structure under construction: when the selection names one (see
/// `stop_target`), pay its whole cost back, cancel the jobs queued at it, and
/// return it so that it can be removed from the world.
pub fn cancel_selected_under_construction_structure<P>(
    team: Team,
    selected_team_unit_count: usize,
    items: &Vec<SelectedStructure>,
    jobs: &mut Vec<BuildJob<P>>,
    economy: &mut TeamEconomy,
) -> (removed: Option<u64>)
    requires
        costs_valid(old(jobs)@),
        holdings_fit(*old(economy), old(jobs)@, team),
        stop_target(selected_team_unit_count, items@, team) matches Some((_, cost)) ==> cost_valid(cost)
            && fits_i32(team_holdings(*old(economy), old(jobs)@, team).0 + cost.ore)
            && fits_i32(team_holdings(*old(economy), old(jobs)@, team).1 + cost.crystal),
    ensures
        match stop_target(selected_team_unit_count, items@, team) {
            Some((entity, cost)) => {
                &&& removed == Some(entity)
                &&& final(jobs)@ == jobs_kept(old(jobs)@, team, Some(entity))
                &&& team_holdings(*final(economy), final(jobs)@, team).0 == team_holdings(*old(economy), old(jobs)@, team).0 + cost.ore
                &&& team_holdings(*final(economy), final(jobs)@, team).1 == team_holdings(*old(economy), old(jobs)@, team).1 + cost.crystal
            },
            None => removed is None && final(jobs)@ == old(jobs)@ && *final(economy) == *old(economy),
        },
{
    match selected_under_construction_stop_target(team, selected_team_unit_count, items) {
        Some((entity, cost)) => {
            proof {
                lemma_queued_nonnegative(jobs@, team);
            }
            let refund = construction_cancel_refund(cost);
            economy.refund(Cost { ore: refund.0, crystal: refund.1 });
            cancel_jobs_for_producer(team, entity, jobs, economy);
            Some(entity)
        },
        None => None,
    }
}

/// One slot of the production queue panel: a run of consecutive jobs of the
/// same product at one producer, shown once with its count. `local_index` is
/// the position of the run's first job in that producer's queue; the slot at
/// position 0 is the one in progress.
pub struct ProductionQueueHudEntry {
    pub producer: u64,
    pub local_index: usize,
    pub product: String,
    pub active: bool,
    pub count: usize,
}

/// The products that `team` queued at `producer`, in queue order.
pub open spec fn producer_products<P>(jobs: Seq<BuildJob<P>>, team: Team, producer: u64) -> Seq<String>
    decreases jobs.len(),
{
    if jobs.len() == 0 {
        Seq::empty()
    } else {
        let earlier = producer_products(jobs.drop_last(), team, producer);
        if jobs.last().team == team && jobs.last().producer == producer {
            earlier.push(jobs.last().product)
        } else {
            earlier
        }
    }
}

/// The panel after one more job: it joins the last slot when that slot is the
/// same producer and product, and opens a new slot otherwise.
pub open spec fn hud_after_job(entries: Seq<ProductionQueueHudEntry>, producer: u64, local_index: nat, product: String) -> Seq<ProductionQueueHudEntry> {
    if entries.len() > 0 && entries.last().producer == producer && entries.last().product@ == product@ {
        let last = entries.last();
        entries.update(
            entries.len() - 1,
            ProductionQueueHudEntry {
                producer: last.producer,
                local_index: last.local_index,
                product: last.product,
                active: last.active,
                count: (last.count + 1) as usize,
            },
        )
    } else {
        entries.push(ProductionQueueHudEntry {
            producer,
            local_index: local_index as usize,
            product,
            active: local_index == 0,
            count: 1,
        })
    }
}

/// The panel after the queue of one producer.
pub open spec fn hud_for_producer(entries: Seq<ProductionQueueHudEntry>, producer: u64, products: Seq<String>) -> Seq<ProductionQueueHudEntry>
    decreases products.len(),
{
    if products.len() == 0 {
        entries
    } else {
        hud_after_job(hud_for_producer(entries, producer, products.drop_last()), producer, (products.len() - 1) as nat, products.last())
    }
}

/// The panel for the queues of `producers`, in order.
pub open spec fn hud_entries<P>(jobs: Seq<BuildJob<P>>, team: Team, producers: Seq<u64>) -> Seq<ProductionQueueHudEntry>
    decreases producers.len(),
{
    if producers.len() == 0 {
        Seq::empty()
    } else {
        hud_for_producer(hud_entries(jobs, team, producers.drop_last()), producers.last(), producer_products(jobs, team, producers.last()))
    }
}

proof fn lemma_iterations_fit(i: int, j: int, producers: int, jobs: int)
    requires
        0 <= i < producers,
        0 <= j < jobs,
    ensures
        i * jobs + j + 1 <= producers * jobs,
        0 <= i * jobs,
{
    assert(i * jobs + j + 1 <= producers * jobs) by (nonlinear_arith)
        requires
            0 <= i < producers,
            0 <= j < jobs,
    ;
    assert(0 <= i * jobs) by (nonlinear_arith)
        requires
            0 <= i,
            0 <= jobs,
    ;
}

/// The production queue panel for the queues that `team` keeps at `producers`.
pub fn production_queue_hud_entries<P>(team: Team, jobs: &Vec<BuildJob<P>>, producers: &Vec<u64>) -> (entries: Vec<ProductionQueueHudEntry>)
    requires
        producers@.len() * jobs@.len() < usize::MAX,
    ensures
        entries@ == hud_entries(jobs@, team, producers@),
{
    let mut entries: Vec<ProductionQueueHudEntry> = Vec::new();
    let mut index: usize = 0;
    while index < producers.len()
        invariant
            index <= producers.len(),
            producers@.len() * jobs@.len() < usize::MAX,
            entries@ == hud_entries(jobs@, team, producers@.take(index as int)),
            forall|k: int| 0 <= k < entries@.len() ==> (#[trigger] entries@[k]).count <= index * jobs@.len(),
        decreases producers.len() - index,
    {
        proof {
            assert(producers@.take(index as int + 1).drop_last() =~= producers@.take(index as int));
            assert(0 <= index * jobs@.len()) by (nonlinear_arith);
        }
        let producer = producers[index];
        let ghost start = entries@;
        let mut local_index: usize = 0;
        let mut position: usize = 0;
        while position < jobs.len()
            invariant
                index < producers.len(),
                producer == producers@[index as int],
                position <= jobs.len(),
                producers@.len() * jobs@.len() < usize::MAX,
                start == hud_entries(jobs@, team, producers@.take(index as int)),
                local_index == producer_products(jobs@.take(position as int), team, producer).len(),
                local_index <= position,
                entries@ == hud_for_producer(start, producer, producer_products(jobs@.take(position as int), team, producer)),
                forall|k: int| 0 <= k < entries@.len() ==> (#[trigger] entries@[k]).count <= index * jobs@.len() + position,
            decreases jobs.len() - position,
        {
            proof {
                assert(jobs@.take(position as int + 1).drop_last() =~= jobs@.take(position as int));
                lemma_iterations_fit(index as int, position as int, producers@.len() as int, jobs@.len() as int);
            }
            let job = &jobs[position];
            if job.team == team && job.producer == producer {
                let ghost products = producer_products(jobs@.take(position as int + 1), team, producer);
                proof {
                    assert(products.drop_last() == producer_products(jobs@.take(position as int), team, producer));
                    assert(products.last() == job.product);
                }
                let len = entries.len();
                if len > 0 && entries[len - 1].producer == producer && entries[len - 1].product == job.product {
                    let last = &entries[len - 1];
                    let merged = ProductionQueueHudEntry {
                        producer: last.producer,
                        local_index: last.local_index,
                        product: last.product.clone(),
                        active: last.active,
                        count: last.count + 1,
                    };
                    entries.set(len - 1, merged);
                } else {
                    entries.push(ProductionQueueHudEntry {
                        producer,
                        local_index,
                        product: job.product.clone(),
                        active: local_index == 0,
                        count: 1,
                    });
                }
                local_index = local_index + 1;
            }
            position = position + 1;
        }
        proof {
            assert(jobs@.take(position as int) =~= jobs@);
            assert(index * jobs@.len() + jobs@.len() == (index + 1) * jobs@.len()) by (nonlinear_arith);
        }
        index = index + 1;
    }
    proof {
        assert(producers@.take(index as int) =~= producers@);
    }
    entries
}

/// A structure that might produce the requested product: its entity, kind,
/// owner, whether it is finished, whether its kind produces the product for
/// the team's faction, and what the caller keeps with it (its position).
pub struct ProducerCandidate<P> {
    pub entity: u64,
    pub kind: String,
    pub team: Team,
    pub constructed: bool,
    pub can_produce: bool,
    pub payload: P,
}

/// `candidate` is a finished structure of `team` that produces the product.
pub open spec fn producer_eligible<P>(candidate: ProducerCandidate<P>, team: Team) -> bool {
    candidate.team == team && candidate.constructed && candidate.can_produce
}

/// The eligible candidates that still have room in their queue, as producers.
pub open spec fn producers_with_room<P>(candidates: Seq<ProducerCandidate<P>>, team: Team, jobs: Seq<BuildJob<P>>) -> Seq<(u64, String, P)>
    decreases candidates.len(),
{
    if candidates.len() == 0 {
        Seq::empty()
    } else {
        let earlier = producers_with_room(candidates.drop_last(), team, jobs);
        let last = candidates.last();
        if producer_eligible(last, team) && producer_job_count(jobs, last.entity) < PRODUCTION_QUEUE_LIMIT {
            earlier.push((last.entity, last.kind, last.payload))
        } else {
            earlier
        }
    }
}

/// Some candidate is eligible.
pub open spec fn any_eligible<P>(candidates: Seq<ProducerCandidate<P>>, team: Team) -> bool {
    exists|i: int| 0 <= i < candidates.len() && producer_eligible(#[trigger] candidates[i], team)
}

/// Where a training order goes: the selected producers of the product that
/// have room, when any producer of it is selected (`QueueFull` when none of
/// them has room); otherwise the first producer of the team with room
/// (`QueueFull` when it has producers but all are full, `Unavailable` when it
/// has none).
pub open spec fn production_origins<P>(
    selected: Seq<ProducerCandidate<P>>,
    structures: Seq<ProducerCandidate<P>>,
    team: Team,
    jobs: Seq<BuildJob<P>>,
) -> Result<Seq<(u64, String, P)>, EnqueueBuildActionResult> {
    if any_eligible(selected, team) {
        if producers_with_room(selected, team, jobs).len() == 0 {
            Err(EnqueueBuildActionResult::QueueFull)
        } else {
            Ok(producers_with_room(selected, team, jobs))
        }
    } else if producers_with_room(structures, team, jobs).len() > 0 {
        Ok(seq![producers_with_room(structures, team, jobs)[0]])
    } else if any_eligible(structures, team) {
        Err(EnqueueBuildActionResult::QueueFull)
    } else {
        Err(EnqueueBuildActionResult::Unavailable)
    }
}

fn collect_producers_with_room<P: Copy>(candidates: &Vec<ProducerCandidate<P>>, team: Team, jobs: &Vec<BuildJob<P>>, first_only: bool) -> (found: (Vec<(u64, String, P)>, bool))
    ensures
        found.1 == any_eligible(candidates@, team),
        !first_only ==> found.0@ == producers_with_room(candidates@, team, jobs@),
        first_only ==> found.0@ == (if producers_with_room(candidates@, team, jobs@).len() > 0 {
            seq![producers_with_room(candidates@, team, jobs@)[0]]
        } else {
            Seq::empty()
        }),
{
    let mut found: Vec<(u64, String, P)> = Vec::new();
    let mut saw_eligible = false;
    let mut index: usize = 0;
    while index < candidates.len()
        invariant
            index <= candidates.len(),
            saw_eligible == any_eligible(candidates@.take(index as int), team),
            !first_only ==> found@ == producers_with_room(candidates@.take(index as int), team, jobs@),
            first_only ==> found@ == (if producers_with_room(candidates@.take(index as int), team, jobs@).len() > 0 {
                seq![producers_with_room(candidates@.take(index as int), team, jobs@)[0]]
            } else {
                Seq::empty()
            }),
        decreases candidates.len() - index,
    {
        let ghost before = candidates@.take(index as int);
        let ghost after = candidates@.take(index as int + 1);
        proof {
            assert(after.drop_last() =~= before);
            lemma_room_prefix(after, team, jobs@);
            if any_eligible(after, team) && !any_eligible(before, team) {
                let w = choose|i: int| 0 <= i < after.len() && producer_eligible(#[trigger] after[i], team);
                assert(w == index);
            }
            if any_eligible(before, team) {
                let w = choose|i: int| 0 <= i < before.len() && producer_eligible(#[trigger] before[i], team);
                assert(after[w] == before[w]);
            }
        }
        let candidate = &candidates[index];
        if candidate.team == team && candidate.constructed && candidate.can_produce {
            saw_eligible = true;
            if build_queue_has_capacity(jobs, candidate.entity) && (!first_only || found.len() == 0) {
                found.push((candidate.entity, candidate.kind.clone(), candidate.payload));
            }
        }
        index = index + 1;
    }
    proof {
        assert(candidates@.take(index as int) =~= candidates@);
    }
    (found, saw_eligible)
}

proof fn lemma_room_prefix<P>(candidates: Seq<ProducerCandidate<P>>, team: Team, jobs: Seq<BuildJob<P>>)
    requires
        candidates.len() > 0,
    ensures
        producers_with_room(candidates.drop_last(), team, jobs).len() > 0 ==>
            producers_with_room(candidates, team, jobs)[0] == producers_with_room(candidates.drop_last(), team, jobs)[0],
{
}

/// Where a training order for `team` goes, from the selected structures and
/// all structures; see `production_origins`.
pub fn production_origins_for<P: Copy>(
    selected: &Vec<ProducerCandidate<P>>,
    structures: &Vec<ProducerCandidate<P>>,
    team: Team,
    jobs: &Vec<BuildJob<P>>,
) -> (origins: Result<Vec<(u64, String, P)>, EnqueueBuildActionResult>)
    ensures
        match origins {
            Ok(found) => production_origins(selected@, structures@, team, jobs@) == Ok::<Seq<(u64, String, P)>, EnqueueBuildActionResult>(found@),
            Err(error) => production_origins(selected@, structures@, team, jobs@) == Err::<Seq<(u64, String, P)>, EnqueueBuildActionResult>(error),
        },
{
    let (chosen, saw_selected) = collect_producers_with_room(selected, team, jobs, false);
    if saw_selected {
        return if chosen.len() == 0 {
            Err(EnqueueBuildActionResult::QueueFull)
        } else {
            Ok(chosen)
        };
    }
    let (first, saw_any) = collect_producers_with_room(structures, team, jobs, true);
    if first.len() > 0 {
        Ok(first)
    } else if saw_any {
        Err(EnqueueBuildActionResult::QueueFull)
    } else {
        Err(EnqueueBuildActionResult::Unavailable)
    }
}

/// Whether a structure may be placed at a point, or the first reason why not.
#[derive(Clone, Copy, Debug, PartialEq, Eq, Structural)]
pub enum StructurePlacementValidity {
    Valid,
    CollidesWithObject,
    NotEnoughResources,
    OutOfMap,
    MissingTech,
    OutOfBaseRadius,
    UnevenTerrain,
}

/// What the world tells about a placement site: whether the structure kind
/// exists, the point lies on the map, the faction is known and may build the
/// kind, the kind's prerequisites stand, a base structure is near enough,
/// something overlaps the footprint, and the ground under it is level.
#[derive(Clone, Copy, Debug, PartialEq, Eq, Structural)]
pub struct PlacementSite {
    pub known_structure: bool,
    pub inside_map: bool,
    pub faction_known: bool,
    pub buildable_by_faction: bool,
    pub requirements_met: bool,
    pub near_base: bool,
    pub collides: bool,
    pub level_ground: bool,
}

/// The checks in the order they are made: the kind and the map first, then
/// the tech tree, the price, the distance to the base, overlaps and the
/// ground.
pub open spec fn placement_validity(site: PlacementSite, economy: TeamEconomy, cost: Cost) -> StructurePlacementValidity {
    if !site.known_structure {
        StructurePlacementValidity::MissingTech
    } else if !site.inside_map {
        StructurePlacementValidity::OutOfMap
    } else if !site.faction_known || !site.buildable_by_faction || !site.requirements_met {
        StructurePlacementValidity::MissingTech
    } else if !affords(economy, cost) {
        StructurePlacementValidity::NotEnoughResources
    } else if !site.near_base {
        StructurePlacementValidity::OutOfBaseRadius
    } else if site.collides {
        StructurePlacementValidity::CollidesWithObject
    } else if !site.level_ground {
        StructurePlacementValidity::UnevenTerrain
    } else {
        StructurePlacementValidity::Valid
    }
}

/// Judge a placement site for a team that holds `economy`, for a structure
/// that costs `cost`.
pub fn structure_placement_validity_for_faction(site: &PlacementSite, economy: &TeamEconomy, cost: Cost) -> (validity: StructurePlacementValidity)
    ensures
        validity == placement_validity(*site, *economy, cost),
{
    if !site.known_structure {
        return StructurePlacementValidity::MissingTech;
    }
    if !site.inside_map {
        return StructurePlacementValidity::OutOfMap;
    }
    if !site.faction_known || !site.buildable_by_faction || !site.requirements_met {
        return StructurePlacementValidity::MissingTech;
    }
    if !economy.can_afford(cost) {
        return StructurePlacementValidity::NotEnoughResources;
    }
    if !site.near_base {
        return StructurePlacementValidity::OutOfBaseRadius;
    }
    if site.collides {
        return StructurePlacementValidity::CollidesWithObject;
    }
    if !site.level_ground {
        return StructurePlacementValidity::UnevenTerrain;
    }
    StructurePlacementValidity::Valid
}

/// A selected structure the player asks to sell: its owner, whether it still
/// stands, what it cost if it is still a foundation under construction, and
/// what selling it finished pays back.
#[derive(Clone, Copy, Debug, PartialEq, Eq, Structural)]
pub struct SaleCandidate {
    pub entity: u64,
    pub team: Team,
    pub alive: bool,
    pub construction_cost: Option<Cost>,
    pub sell_refund: Cost,
}

/// A player sells only their own standing structures.
pub open spec fn sellable(candidate: SaleCandidate, team: Team) -> bool {
    candidate.team == team && candidate.alive
}

/// A foundation pays back its whole cost; a finished structure its sale
/// price.
pub open spec fn sale_refund(candidate: SaleCandidate) -> Cost {
    match candidate.construction_cost {
        Some(cost) => cost,
        None => candidate.sell_refund,
    }
}

/// Refunds are never negative.
pub open spec fn sale_refunds_valid(candidates: Seq<SaleCandidate>) -> bool {
    forall|i: int| 0 <= i < candidates.len() ==> #[trigger] cost_valid(sale_refund(candidates[i]))
}

/// Ore and crystal that selling the sellable ones among `candidates` pays.
pub open spec fn total_sale_refund(candidates: Seq<SaleCandidate>, team: Team) -> (int, int)
    decreases candidates.len(),
{
    if candidates.len() == 0 {
        (0, 0)
    } else {
        let earlier = total_sale_refund(candidates.drop_last(), team);
        if sellable(candidates.last(), team) {
            let refund = sale_refund(candidates.last());
            (earlier.0 + refund.ore, earlier.1 + refund.crystal)
        } else {
            earlier
        }
    }
}

/// The queue after each sold structure took its queued jobs with it.
pub open spec fn jobs_after_sales<P>(jobs: Seq<BuildJob<P>>, candidates: Seq<SaleCandidate>, team: Team) -> Seq<BuildJob<P>>
    decreases candidates.len(),
{
    if candidates.len() == 0 {
        jobs
    } else {
        let earlier = jobs_after_sales(jobs, candidates.drop_last(), team);
        if sellable(candidates.last(), team) {
            jobs_kept(earlier, team, Some(candidates.last().entity))
        } else {
            earlier
        }
    }
}

proof fn lemma_total_sale_refund_nonnegative(candidates: Seq<SaleCandidate>, team: Team)
    requires
        sale_refunds_valid(candidates),
    ensures
        total_sale_refund(candidates, team).0 >= 0,
        total_sale_refund(candidates, team).1 >= 0,
    decreases candidates.len(),
{
    if candidates.len() > 0 {
        assert(cost_valid(sale_refund(candidates[candidates.len() - 1])));
        assert forall|i: int| 0 <= i < candidates.drop_last().len() implies #[trigger] cost_valid(sale_refund(candidates.drop_last()[i])) by {
            assert(cost_valid(sale_refund(candidates[i])));
        }
        lemma_total_sale_refund_nonnegative(candidates.drop_last(), team);
    }
}

/// Sell one selected structure of `team`: the refund goes to the economy
/// and the jobs queued at the structure are cancelled and paid back.
/// Returns whether it was sold; a structure of another team or one already
/// destroyed is left alone.
pub fn sell_structure<P>(
    team: Team,
    candidate: &SaleCandidate,
    jobs: &mut Vec<BuildJob<P>>,
    economy: &mut TeamEconomy,
) -> (sold: bool)
    requires
        costs_valid(old(jobs)@),
        cost_valid(sale_refund(*candidate)),
        holdings_fit(*old(economy), old(jobs)@, team),
        sellable(*candidate, team) ==> fits_i32(team_holdings(*old(economy), old(jobs)@, team).0 + sale_refund(*candidate).ore),
        sellable(*candidate, team) ==> fits_i32(team_holdings(*old(economy), old(jobs)@, team).1 + sale_refund(*candidate).crystal),
    ensures
        sold == sellable(*candidate, team),
        !sold ==> final(jobs)@ == old(jobs)@ && *final(economy) == *old(economy),
        sold ==> final(jobs)@ == jobs_kept(old(jobs)@, team, Some(candidate.entity)),
        team_holdings(*final(economy), final(jobs)@, team) == if sold {
            (
                team_holdings(*old(economy), old(jobs)@, team).0 + sale_refund(*candidate).ore,
                team_holdings(*old(economy), old(jobs)@, team).1 + sale_refund(*candidate).crystal,
            )
        } else {
            team_holdings(*old(economy), old(jobs)@, team)
        },
        costs_valid(final(jobs)@),
        holdings_fit(*final(economy), final(jobs)@, team),
{
    if candidate.team != team || !candidate.alive {
        return false;
    }
    let refund = match candidate.construction_cost {
        Some(cost) => construction_cancel_refund(cost),
        None => (candidate.sell_refund.ore, candidate.sell_refund.crystal),
    };
    proof {
        lemma_queued_nonnegative(jobs@, team);
    }
    economy.refund(Cost { ore: refund.0, crystal: refund.1 });
    cancel_jobs_for_producer(team, candidate.entity, jobs, economy);
    true
}

/// Sell every selected structure of `team` in turn. Returns whether any
/// was sold.
pub fn sell_selected_structures<P>(
    team: Team,
    candidates: &Vec<SaleCandidate>,
    jobs: &mut Vec<BuildJob<P>>,
    economy: &mut TeamEconomy,
) -> (sold_any: bool)
    requires
        costs_valid(old(jobs)@),
        sale_refunds_valid(candidates@),
        fits_i32(team_holdings(*old(economy), old(jobs)@, team).0 + total_sale_refund(candidates@, team).0),
        fits_i32(team_holdings(*old(economy), old(jobs)@, team).1 + total_sale_refund(candidates@, team).1),
        holdings_fit(*old(economy), old(jobs)@, team),
    ensures
        sold_any == exists|i: int| 0 <= i < candidates@.len() && sellable(#[trigger] candidates@[i], team),
        final(jobs)@ == jobs_after_sales(old(jobs)@, candidates@, team),
        team_holdings(*final(economy), final(jobs)@, team) == (
            team_holdings(*old(economy), old(jobs)@, team).0 + total_sale_refund(candidates@, team).0,
            team_holdings(*old(economy), old(jobs)@, team).1 + total_sale_refund(candidates@, team).1,
        ),
        costs_valid(final(jobs)@),
{
    let ghost start_jobs = jobs@;
    let ghost start = team_holdings(*economy, jobs@, team);
    let mut sold_any = false;
    let mut k: usize = 0;
    proof {
        lemma_total_sale_refund_nonnegative(candidates@, team);
    }
    while k < candidates.len()
        invariant
            k <= candidates@.len(),
            costs_valid(jobs@),
            sale_refunds_valid(candidates@),
            start == team_holdings(*old(economy), start_jobs, team),
            fits_i32(start.0 + total_sale_refund(candidates@, team).0),
            fits_i32(start.1 + total_sale_refund(candidates@, team).1),
            fits_i32(start.0),
            fits_i32(start.1),
            jobs@ == jobs_after_sales(start_jobs, candidates@.take(k as int), team),
            team_holdings(*economy, jobs@, team) == (
                start.0 + total_sale_refund(candidates@.take(k as int), team).0,
                start.1 + total_sale_refund(candidates@.take(k as int), team).1,
            ),
            sold_any == exists|i: int| 0 <= i < k && sellable(#[trigger] candidates@[i], team),
        decreases candidates@.len() - k,
    {
        let ghost prefix = candidates@.take(k as int);
        let ghost next = candidates@.take(k + 1);
        assert(next.drop_last() =~= prefix);
        assert(next.last() == candidates@[k as int]);
        assert(cost_valid(sale_refund(candidates@[k as int])));
        proof {
            lemma_prefix_refund_bounds(candidates@, k as int, team);
            lemma_prefix_refund_bounds(candidates@, k + 1, team);
        }
        let sold = sell_structure(team, &candidates[k], jobs, economy);
        if sold {
            sold_any = true;
        }
        k = k + 1;
    }
    assert(candidates@.take(candidates@.len() as int) =~= candidates@);
    sold_any
}

/// What a prefix of the candidates pays back lies between nothing and what
/// all of them pay back.
proof fn lemma_prefix_refund_bounds(candidates: Seq<SaleCandidate>, k: int, team: Team)
    requires
        0 <= k <= candidates.len(),
        sale_refunds_valid(candidates),
    ensures
        0 <= total_sale_refund(candidates.take(k), team).0 <= total_sale_refund(candidates, team).0,
        0 <= total_sale_refund(candidates.take(k), team).1 <= total_sale_refund(candidates, team).1,
{
    lemma_total_sale_refund_split(candidates, k, team);
    assert forall|i: int| 0 <= i < candidates.take(k).len() implies #[trigger] cost_valid(sale_refund(candidates.take(k)[i])) by {
        assert(cost_valid(sale_refund(candidates[i])));
    }
    assert forall|i: int| 0 <= i < candidates.skip(k).len() implies #[trigger] cost_valid(sale_refund(candidates.skip(k)[i])) by {
        assert(cost_valid(sale_refund(candidates[k + i])));
    }
    lemma_total_sale_refund_nonnegative(candidates.take(k), team);
    lemma_total_sale_refund_nonnegative(candidates.skip(k), team);
}

/// The refund of a list splits into that of a prefix and that of the rest.
proof fn lemma_total_sale_refund_split(candidates: Seq<SaleCandidate>, k: int, team: Team)
    requires
        0 <= k <= candidates.len(),
    ensures
        total_sale_refund(candidates, team).0 == total_sale_refund(candidates.take(k), team).0 + total_sale_refund(candidates.skip(k), team).0,
        total_sale_refund(candidates, team).1 == total_sale_refund(candidates.take(k), team).1 + total_sale_refund(candidates.skip(k), team).1,
    decreases candidates.len(),
{
    if k == candidates.len() {
        assert(candidates.take(k) =~= candidates);
        assert(candidates.skip(k).len() == 0);
    } else {
        let shorter = candidates.drop_last();
        lemma_total_sale_refund_split(shorter, k, team);
        assert(shorter.take(k) =~= candidates.take(k));
        assert(candidates.skip(k).drop_last() =~= shorter.skip(k));
        assert(candidates.skip(k).last() == candidates.last());
    }
}

/// The production time each producer still has in this frame (a table from
/// producer to milliseconds), and the producers whose finished product
/// found no room to appear: they stand still until the next frame.
pub struct ProductionFrame {
    pub budgets: Vec<(u64, u64)>,
    pub blocked: Vec<u64>,
}

/// What happens to one queued job as the frame reaches it.
#[derive(Clone, Copy, Debug, PartialEq, Eq, Structural)]
pub enum JobAdvance {
    /// Its product is unknown or its producer is gone: cancel it and pay
    /// its cost back.
    Cancel,
    /// Its producer has no time left (or is blocked): nothing happens.
    Hold,
    /// It progressed and this much of its build time remains.
    Progress(u64),
    /// It is done: spawn the product, or block the producer when there is
    /// no room.
    Ready,
}

/// The producer's time left in the frame; a producer not yet seen starts
/// with `fresh_ms`.
pub open spec fn budget_of(budgets: Seq<(u64, u64)>, producer: u64, fresh_ms: u64) -> u64 {
    match lookup(budgets, producer) {
        Some(ms) => ms,
        None => fresh_ms,
    }
}

/// A job advances by as much of its producer's time as it needs, in queue
/// order; the producer keeps what is left for its next job.
pub open spec fn job_advance(
    budgets: Seq<(u64, u64)>,
    blocked: Seq<u64>,
    producer: u64,
    remaining_ms: u64,
    product_known: bool,
    producer_present: bool,
    fresh_ms: u64,
) -> JobAdvance {
    if !product_known || !producer_present {
        JobAdvance::Cancel
    } else if blocked.contains(producer) {
        JobAdvance::Hold
    } else if budget_of(budgets, producer, fresh_ms) == 0 {
        JobAdvance::Hold
    } else if remaining_ms > budget_of(budgets, producer, fresh_ms) {
        JobAdvance::Progress((remaining_ms - budget_of(budgets, producer, fresh_ms)) as u64)
    } else {
        JobAdvance::Ready
    }
}

/// The producer's time after the job took its share.
pub open spec fn budgets_after(
    budgets: Seq<(u64, u64)>,
    blocked: Seq<u64>,
    producer: u64,
    remaining_ms: u64,
    product_known: bool,
    producer_present: bool,
    fresh_ms: u64,
) -> Seq<(u64, u64)> {
    if !product_known || !producer_present || blocked.contains(producer) {
        budgets
    } else {
        let budget = budget_of(budgets, producer, fresh_ms);
        insert_entry(budgets, producer, if remaining_ms < budget { (budget - remaining_ms) as u64 } else { 0u64 })
    }
}

impl ProductionFrame {
    pub open spec fn well_formed(&self) -> bool {
        unique_keys(self.budgets@)
    }

    /// A frame in which no producer has worked yet.
    pub fn new() -> (frame: ProductionFrame)
        ensures
            frame.well_formed(),
            frame.budgets@.len() == 0,
            frame.blocked@.len() == 0,
    {
        ProductionFrame { budgets: Vec::new(), blocked: Vec::new() }
    }

    /// Advance the next job of the queue: it is made at `producer` and
    /// needs `remaining_ms` more; `fresh_ms` is the producer's time for this
    /// frame (the frame's length at its team's production speed).
    pub fn advance(
        &mut self,
        producer: u64,
        remaining_ms: u64,
        product_known: bool,
        producer_present: bool,
        fresh_ms: u64,
    ) -> (advance: JobAdvance)
        requires
            old(self).well_formed(),
        ensures
            final(self).well_formed(),
            advance == job_advance(old(self).budgets@, old(self).blocked@, producer, remaining_ms, product_known, producer_present, fresh_ms),
            final(self).budgets@ == budgets_after(old(self).budgets@, old(self).blocked@, producer, remaining_ms, product_known, producer_present, fresh_ms),
            final(self).blocked@ == old(self).blocked@,
            advance is Progress ==> lookup(final(self).budgets@, producer) == Some(0u64),
    {
        if !product_known || !producer_present {
            return JobAdvance::Cancel;
        }
        if contains_u64(&self.blocked, producer) {
            return JobAdvance::Hold;
        }
        let budget = match lookup_u64(&self.budgets, producer) {
            Some(ms) => ms,
            None => fresh_ms,
        };
        let left = if remaining_ms < budget { budget - remaining_ms } else { 0 };
        proof {
            lemma_unique_insert(self.budgets@, producer, left);
            lemma_insert_lookup(self.budgets@, producer, left, producer);
        }
        remove_key_u64(&mut self.budgets, producer);
        self.budgets.push((producer, left));
        if budget == 0 {
            JobAdvance::Hold
        } else if remaining_ms > budget {
            JobAdvance::Progress(remaining_ms - budget)
        } else {
            JobAdvance::Ready
        }
    }

    /// A finished product found no room: the producer stops for the rest of
    /// the frame.
    pub fn block(&mut self, producer: u64)
        requires
            old(self).well_formed(),
        ensures
            final(self).well_formed(),
            final(self).budgets@ == insert_entry(old(self).budgets@, producer, 0u64),
            final(self).blocked@.contains(producer),
            forall|other: u64| #[trigger] final(self).blocked@.contains(other) <==> (other == producer || old(self).blocked@.contains(other)),
    {
        proof {
            lemma_unique_insert(self.budgets@, producer, 0u64);
        }
        remove_key_u64(&mut self.budgets, producer);
        self.budgets.push((producer, 0));
        let ghost before = self.blocked@;
        if !contains_u64(&self.blocked, producer) {
            self.blocked.push(producer);
            proof {
                assert(self.blocked@[before.len() as int] == producer);
                assert forall|other: u64| #[trigger] self.blocked@.contains(other) <==> (other == producer || before.contains(other)) by {
                    if before.contains(other) {
                        let i = choose|i: int| 0 <= i < before.len() && before[i] == other;
                        assert(self.blocked@[i] == other);
                    }
                    if self.blocked@.contains(other) {
                        let j = choose|j: int| 0 <= j < self.blocked@.len() && self.blocked@[j] == other;
                        if j < before.len() {
                            assert(before[j] == other);
                        }
                    }
                }
            }
        }
    }
}

/// A producer never works longer than its time for the frame: whatever
/// job comes up, the time it has left afterwards is at most what it had
/// (or was given fresh).
pub proof fn law_production_time_never_grows(
    budgets: Seq<(u64, u64)>,
    blocked: Seq<u64>,
    producer: u64,
    remaining_ms: u64,
    product_known: bool,
    producer_present: bool,
    fresh_ms: u64,
)
    ensures
        budget_of(budgets_after(budgets, blocked, producer, remaining_ms, product_known, producer_present, fresh_ms), producer, fresh_ms)
            <= budget_of(budgets, producer, fresh_ms),
        forall|other: u64| other != producer ==> #[trigger] lookup(budgets_after(budgets, blocked, producer, remaining_ms, product_known, producer_present, fresh_ms), other)
            == lookup(budgets, other),
{
    let budget = budget_of(budgets, producer, fresh_ms);
    let left: u64 = if remaining_ms < budget { (budget - remaining_ms) as u64 } else { 0u64 };
    lemma_insert_lookup(budgets, producer, left, producer);
    assert forall|other: u64| other != producer implies #[trigger] lookup(budgets_after(budgets, blocked, producer, remaining_ms, product_known, producer_present, fresh_ms), other)
        == lookup(budgets, other) by {
        lemma_insert_lookup(budgets, producer, left, other);
    }
}

/// The ids of the match's entities that belong to `team`, in order (each
/// entity is given with its team).
pub open spec fn team_entities(entities: Seq<(u64, Team)>, team: Team) -> Seq<u64>
    decreases entities.len(),
{
    if entities.len() == 0 {
        Seq::empty()
    } else {
        let earlier = team_entities(entities.drop_last(), team);
        if entities.last().1 == team { earlier.push(entities.last().0) } else { earlier }
    }
}

/// A disconnected player's grace ran out: when the match gives them a team,
/// every job that team queued is dropped without refund and the ids of the
/// team's entities (units, structures, pending paradrops) are returned for
/// removal; a player without a team changes nothing and gets `None`.
pub fn forfeit_disconnected_player<P>(
    config: &MatchConfig,
    player_id: u64,
    jobs: &mut Vec<BuildJob<P>>,
    entities: &Vec<(u64, Team)>,
) -> (removed: Option<Vec<u64>>)
    ensures
        match runtime_team_spec(config@, player_id) {
            Some(team) => {
                &&& final(jobs)@ == jobs_kept(old(jobs)@, team, None)
                &&& removed matches Some(ids) && ids@ == team_entities(entities@, team)
            },
            None => final(jobs)@ == old(jobs)@ && removed is None,
        },
{
    let team = match config.runtime_team_for_player(player_id) {
        Some(team) => team,
        None => return None,
    };
    remove_team_jobs(jobs, team);
    let mut ids: Vec<u64> = Vec::new();
    let mut k: usize = 0;
    while k < entities.len()
        invariant
            k <= entities@.len(),
            ids@ == team_entities(entities@.take(k as int), team),
        decreases entities@.len() - k,
    {
        assert(entities@.take(k + 1).drop_last() =~= entities@.take(k as int));
        let (id, entity_team) = entities[k];
        if entity_team == team {
            ids.push(id);
        }
        k = k + 1;
    }
    assert(entities@.take(entities@.len() as int) =~= entities@);
    Some(ids)
}

/// What a player may do to one of their structures.
#[derive(Clone, Copy, Debug, PartialEq, Eq, Structural)]
pub enum StructureAction {
    Sell,
    Repair,
    CancelConstruction,
}

/// What the host knows of a structure a player acts on (its owner and that
/// it stands are checked before): its cost if it is still a foundation,
/// what selling it finished pays, whether it lacks health, whether a paid
/// repair already runs on it, and what a repair costs now.
#[derive(Clone, Copy, Debug, PartialEq, Eq, Structural)]
pub struct StructureActionFacts {
    pub entity: u64,
    pub construction_cost: Option<Cost>,
    pub sell_refund: Cost,
    pub damaged: bool,
    pub being_repaired: bool,
    pub repair_cost: Cost,
}

/// Whether the action can be carried out on the structure: any structure
/// may be sold; a repair needs a finished, damaged structure without a
/// running repair and a team that can pay; only a foundation can be
/// cancelled.
pub open spec fn structure_action_allowed(action: StructureAction, facts: StructureActionFacts, economy: TeamEconomy) -> bool {
    match action {
        StructureAction::Sell => true,
        StructureAction::Repair => facts.construction_cost is None && facts.damaged && !facts.being_repaired
            && affords(economy, facts.repair_cost),
        StructureAction::CancelConstruction => facts.construction_cost is Some,
    }
}

/// The action takes effect: the structure was not acted on earlier in this
/// tick, and the action is allowed.
pub open spec fn structure_action_takes_effect(acted: Seq<u64>, action: StructureAction, facts: StructureActionFacts, economy: TeamEconomy) -> bool {
    !acted.contains(facts.entity) && structure_action_allowed(action, facts, economy)
}

/// What selling or cancelling pays back: a foundation its cost, a finished
/// structure its sale price; a repair pays nothing back.
pub open spec fn action_refund(action: StructureAction, facts: StructureActionFacts) -> Cost {
    match action {
        StructureAction::Repair => Cost { ore: 0, crystal: 0 },
        _ => match facts.construction_cost {
            Some(cost) => cost,
            None => facts.sell_refund,
        },
    }
}

/// Carry out a player's action on one of their structures, at most once per
/// structure in a tick (`acted` lists the structures acted on so far).
/// Selling or cancelling pays the refund, cancels the jobs queued at the
/// structure with their refunds, and the caller removes the structure; a
/// repair is paid for and the caller starts it. Returns whether it took
/// effect.
pub fn apply_structure_action<P>(
    team: Team,
    action: StructureAction,
    facts: &StructureActionFacts,
    acted: &mut Vec<u64>,
    jobs: &mut Vec<BuildJob<P>>,
    economy: &mut TeamEconomy,
) -> (applied: bool)
    requires
        costs_valid(old(jobs)@),
        cost_valid(action_refund(action, *facts)),
        cost_valid(facts.repair_cost),
        holdings_fit(*old(economy), old(jobs)@, team),
        fits_i32(team_holdings(*old(economy), old(jobs)@, team).0 + action_refund(action, *facts).ore),
        fits_i32(team_holdings(*old(economy), old(jobs)@, team).1 + action_refund(action, *facts).crystal),
    ensures
        applied == structure_action_takes_effect(old(acted)@, action, *facts, *old(economy)),
        applied ==> final(acted)@ == old(acted)@.push(facts.entity),
        !applied ==> final(acted)@ == old(acted)@ && final(jobs)@ == old(jobs)@ && *final(economy) == *old(economy),
        applied && action != StructureAction::Repair ==> final(jobs)@ == jobs_kept(old(jobs)@, team, Some(facts.entity))
            && team_holdings(*final(economy), final(jobs)@, team) == (
                team_holdings(*old(economy), old(jobs)@, team).0 + action_refund(action, *facts).ore,
                team_holdings(*old(economy), old(jobs)@, team).1 + action_refund(action, *facts).crystal,
            ),
        applied && action == StructureAction::Repair ==> final(jobs)@ == old(jobs)@
            && *final(economy) == after_spending(*old(economy), facts.repair_cost),
        costs_valid(final(jobs)@),
{
    if contains_u64(acted, facts.entity) {
        return false;
    }
    match action {
        StructureAction::Repair => {
            if facts.construction_cost.is_some() || !facts.damaged || facts.being_repaired {
                return false;
            }
            if !economy.spend(facts.repair_cost) {
                return false;
            }
        },
        StructureAction::CancelConstruction => {
            if facts.construction_cost.is_none() {
                return false;
            }
            let candidate = SaleCandidate {
                entity: facts.entity,
                team,
                alive: true,
                construction_cost: facts.construction_cost,
                sell_refund: facts.sell_refund,
            };
            sell_structure(team, &candidate, jobs, economy);
        },
        StructureAction::Sell => {
            let candidate = SaleCandidate {
                entity: facts.entity,
                team,
                alive: true,
                construction_cost: facts.construction_cost,
                sell_refund: facts.sell_refund,
            };
            sell_structure(team, &candidate, jobs, economy);
        },
    }
    acted.push(facts.entity);
    true
}

/// A structure is acted on at most once per tick: once an action took
/// effect on it, no action on it takes effect again in the same tick.
pub proof fn law_structures_act_once_per_tick(
    acted: Seq<u64>,
    first: StructureAction,
    second: StructureAction,
    facts: StructureActionFacts,
    economy: TeamEconomy,
    later_economy: TeamEconomy,
)
    requires
        structure_action_takes_effect(acted, first, facts, economy),
    ensures
        !structure_action_takes_effect(acted.push(facts.entity), second, facts, later_economy),
{
    assert(acted.push(facts.entity)[acted.len() as int] == facts.entity);
}

/// A queued job with the build time it still needs.
pub struct TimedJob<P> {
    pub job: BuildJob<P>,
    pub remaining_ms: u64,
}

/// What became of a job this frame, once the world answered for a ready
/// one.
#[derive(Clone, Copy, Debug, PartialEq, Eq, Structural)]
pub enum JobOutcome {
    /// Cancelled: it leaves the queue and its cost is paid back.
    Cancel,
    /// Untouched.
    Hold,
    /// It progressed and needs this much more.
    Progress(u64),
    /// Its product appeared: it leaves the queue.
    Spawned,
    /// Its product found no room: it stays, done, and waits.
    Blocked,
}

/// The economy of the team that queued `job` after paying the job back;
/// teams without an economy in `economies` get nothing.
pub open spec fn economies_after_refund<P>(economies: Seq<TeamEconomy>, job: BuildJob<P>) -> Seq<TeamEconomy> {
    match job.team {
        Team::Player(i) => if i < economies.len() {
            economies.update(i as int, TeamEconomy {
                ore: (economies[i as int].ore + job.cost.ore) as i32,
                crystal: (economies[i as int].crystal + job.cost.crystal) as i32,
            })
        } else {
            economies
        },
        Team::Neutral => economies,
    }
}

/// The refund of `job` fits in its team's economy.
pub open spec fn job_refund_fits<P>(economies: Seq<TeamEconomy>, job: BuildJob<P>) -> bool {
    match job.team {
        Team::Player(i) => i < economies.len() ==> refund_fits(economies[i as int], job.cost),
        Team::Neutral => true,
    }
}

/// Apply to the queue what the frame decided for the job at `index`. Jobs
/// that stay keep their order.
pub fn settle_queued_job<P>(
    queue: &mut Vec<TimedJob<P>>,
    index: usize,
    outcome: JobOutcome,
    economies: &mut Vec<TeamEconomy>,
)
    requires
        index < old(queue)@.len(),
        outcome == JobOutcome::Cancel ==> job_refund_fits(old(economies)@, old(queue)@[index as int].job),
    ensures
        match outcome {
            JobOutcome::Cancel | JobOutcome::Spawned => final(queue)@ == old(queue)@.remove(index as int),
            JobOutcome::Hold => final(queue)@ == old(queue)@,
            JobOutcome::Progress(ms) => final(queue)@.len() == old(queue)@.len()
                && final(queue)@[index as int].job == old(queue)@[index as int].job
                && final(queue)@[index as int].remaining_ms == ms
                && forall|i: int| 0 <= i < old(queue)@.len() && i != index ==> #[trigger] final(queue)@[i] == old(queue)@[i],
            JobOutcome::Blocked => final(queue)@.len() == old(queue)@.len()
                && final(queue)@[index as int].job == old(queue)@[index as int].job
                && final(queue)@[index as int].remaining_ms == 0
                && forall|i: int| 0 <= i < old(queue)@.len() && i != index ==> #[trigger] final(queue)@[i] == old(queue)@[i],
        },
        final(economies)@ == if outcome == JobOutcome::Cancel {
            economies_after_refund(old(economies)@, old(queue)@[index as int].job)
        } else {
            old(economies)@
        },
{
    match outcome {
        JobOutcome::Hold => {},
        JobOutcome::Cancel => {
            let removed = queue.remove(index);
            match removed.job.team {
                Team::Player(i) => {
                    if i < economies.len() {
                        let mut economy = economies[i];
                        economy.refund(removed.job.cost);
                        economies.set(i, economy);
                    }
                },
                Team::Neutral => {},
            }
        },
        JobOutcome::Spawned => {
            queue.remove(index);
        },
        JobOutcome::Progress(ms) => {
            let mut entry = queue.remove(index);
            entry.remaining_ms = ms;
            queue.insert(index, entry);
        },
        JobOutcome::Blocked => {
            let mut entry = queue.remove(index);
            entry.remaining_ms = 0;
            queue.insert(index, entry);
        },
    }
}

/// Settling a job keeps the order of the jobs that stay: after a job
/// leaves, those before it keep their places and those after it move up by
/// one.
pub proof fn law_settled_queue_keeps_order<P>(queue: Seq<TimedJob<P>>, index: int)
    requires
        0 <= index < queue.len(),
    ensures
        forall|i: int| 0 <= i < queue.len() - 1 ==> #[trigger] queue.remove(index)[i] == if i < index { queue[i] } else { queue[i + 1] },
{
}

} // verus!
