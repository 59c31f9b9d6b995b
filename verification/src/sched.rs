//! The collection scheduler: one pass fetches the top-level group
//! listing, then fans out per-group sub-collections under a fixed
//! concurrency cap. The scheduler is an event-driven state machine:
//! it decides, the caller performs the fetches and hands back each
//! outcome. A failure inside one group's task is isolated: it loses
//! only that step's emissions and never touches a sibling task.
use vstd::prelude::*;
use crate::FetchError;
use crate::json::parse_doc;
use crate::mapper::{
    Emission,
    EmV,
    ems_model,
    em_model,
    map_user_listing,
    map_change_status,
    user_listing_emissions,
    status_emission,
};
use crate::paths::{
    groups_path,
    groups_path_spec,
    users_path,
    users_path_spec,
    clusters_path,
    clusters_path_spec,
    status_path,
    status_path_spec,
};
use crate::schema::{
    Group,
    GroupListing,
    groups_model,
    strings_model,
    users_model,
    dec_group_listing,
    dec_cluster_listing,
    dec_user_listing,
    dec_change_status,
    decode_group_listing,
    decode_cluster_listing,
    decode_user_listing,
    decode_change_status,
};

verus! {

broadcast use vstd::std_specs::vec::group_vec_axioms, vstd::seq::axiom_seq_index_decreases;

/// The phase of one collection pass.
pub enum PassState {
    Idle,
    FetchingTopLevel,
    FanningOut,
    Draining,
}

/// The phase of one group's sub-collection task. The fixed step order
/// is users, then clusters, then one status fetch per cluster.
pub enum TaskPhase {
    Waiting,
    AwaitUsers,
    AwaitClusters,
    AwaitStatus { next: usize },
    Done,
}

/// Which step a requested fetch belongs to.
pub enum StepKind {
    Users,
    Clusters,
    Status,
}

/// A fetch the caller must perform: the group it belongs to, the step
/// it drives, and the relative path to get.
pub struct FetchReq {
    pub entity: usize,
    pub step: StepKind,
    pub path: String,
}

/// The newly started tasks that a completion hands back: one user
/// fetch per started task, in listing order, each task now awaiting
/// its user fetch.
pub open spec fn started_users(o: Scheduler, n: Scheduler, reqs: Seq<FetchReq>) -> bool {
    &&& o.next_unscheduled <= n.next_unscheduled <= n.entities@.len()
    &&& reqs.len() == n.next_unscheduled - o.next_unscheduled
    &&& (forall|t: int|
        0 <= t < reqs.len() ==> ((#[trigger] reqs[t]).entity == o.next_unscheduled + t
            && reqs[t].step is Users && reqs[t].path@ == users_path_spec(
            o.entities@[o.next_unscheduled + t].id@,
        ) && n.tasks@[o.next_unscheduled + t] is AwaitUsers))
}

/// The pass state after a completion settled: still fanning out while
/// tasks wait, draining while started tasks run, idle once everything
/// finished.
pub open spec fn settled_state(n: Scheduler) -> PassState {
    if n.next_unscheduled < n.entities@.len() {
        PassState::FanningOut
    } else if n.in_flight > 0 {
        PassState::Draining
    } else {
        PassState::Idle
    }
}

/// A task holds a concurrency slot while it awaits a fetch.
pub open spec fn is_active(p: TaskPhase) -> bool {
    p is AwaitUsers || p is AwaitClusters || p is AwaitStatus
}

/// How many tasks hold a slot.
pub open spec fn count_active(ts: Seq<TaskPhase>) -> int
    decreases ts.len(),
{
    if ts.len() == 0 {
        0
    } else {
        count_active(ts.drop_last()) + if is_active(ts.last()) {
            1int
        } else {
            0int
        }
    }
}

proof fn lemma_count_active_push(ts: Seq<TaskPhase>, p: TaskPhase)
    ensures
        count_active(ts.push(p)) == count_active(ts) + if is_active(p) {
            1int
        } else {
            0int
        },
{
    assert(ts.push(p).drop_last() =~= ts);
}

proof fn lemma_count_active_update(ts: Seq<TaskPhase>, i: int, p: TaskPhase)
    requires
        0 <= i < ts.len(),
    ensures
        count_active(ts.update(i, p)) == count_active(ts) - (if is_active(ts[i]) {
            1int
        } else {
            0int
        }) + (if is_active(p) {
            1int
        } else {
            0int
        }),
    decreases ts.len(),
{
    let upd = ts.update(i, p);
    if i == ts.len() - 1 {
        assert(upd.drop_last() =~= ts.drop_last());
    } else {
        assert(upd.drop_last() =~= ts.drop_last().update(i, p));
        lemma_count_active_update(ts.drop_last(), i, p);
    }
}

proof fn lemma_count_active_at(ts: Seq<TaskPhase>, i: int)
    requires
        0 <= i < ts.len(),
        is_active(ts[i]),
    ensures
        count_active(ts) >= 1,
    decreases ts.len(),
{
    if i < ts.len() - 1 {
        lemma_count_active_at(ts.drop_last(), i);
        lemma_count_active_nonneg(ts.drop_last());
    } else {
        lemma_count_active_nonneg(ts.drop_last());
    }
}

proof fn lemma_count_active_nonneg(ts: Seq<TaskPhase>)
    ensures
        count_active(ts) >= 0,
    decreases ts.len(),
{
    if ts.len() > 0 {
        lemma_count_active_nonneg(ts.drop_last());
    }
}

/// The collection scheduler. One value drives one pass at a time.
pub struct Scheduler {
    pub state: PassState,
    pub cap: usize,
    pub entities: Vec<Group>,
    pub tasks: Vec<TaskPhase>,
    pub clusters: Vec<Vec<String>>,
    pub next_unscheduled: usize,
    pub in_flight: usize,
    pub emissions: Vec<Emission>,
}

impl Scheduler {
    /// The scheduler's invariant. In particular, the number of tasks
    /// holding a slot never exceeds the concurrency cap.
    pub open spec fn wf(self) -> bool {
        &&& self.cap >= 1
        &&& self.tasks@.len() == self.entities@.len()
        &&& self.clusters@.len() == self.entities@.len()
        &&& self.next_unscheduled <= self.entities@.len()
        &&& self.in_flight == count_active(self.tasks@)
        &&& self.in_flight <= self.cap
        &&& (forall|j: int|
            self.next_unscheduled <= j < self.tasks@.len() ==> self.tasks@[j] is Waiting)
        &&& (forall|j: int| 0 <= j < self.next_unscheduled ==> !(self.tasks@[j] is Waiting))
        &&& (forall|j: int|
            0 <= j < self.tasks@.len() ==> (match #[trigger] self.tasks@[j] {
                TaskPhase::AwaitStatus { next } => next < self.clusters@[j]@.len(),
                _ => true,
            }))
        &&& (self.state is Idle ==> self.in_flight == 0)
        &&& (self.state is FetchingTopLevel ==> self.in_flight == 0 && self.tasks@.len() == 0
            && self.emissions@.len() == 0)
        &&& (self.state is Draining ==> self.next_unscheduled == self.entities@.len())
    }

    /// The concurrency cap property: in every reachable scheduler
    /// state, the number of simultaneously active per-group tasks is
    /// at most the cap.
    pub proof fn lemma_concurrency_cap(self)
        requires
            self.wf(),
        ensures
            count_active(self.tasks@) <= self.cap,
    {
    }

    /// A fresh, idle scheduler with the given concurrency cap.
    pub fn new(cap: usize) -> (r: Scheduler)
        requires
            cap >= 1,
        ensures
            r.wf(),
            r.state is Idle,
            r.cap == cap,
            r.emissions@.len() == 0,
    {
        Scheduler {
            state: PassState::Idle,
            cap,
            entities: Vec::new(),
            tasks: Vec::new(),
            clusters: Vec::new(),
            next_unscheduled: 0,
            in_flight: 0,
            emissions: Vec::new(),
        }
    }

    /// Starts a pass: the caller must fetch the returned top-level
    /// listing path.
    pub fn begin_pass(&mut self) -> (path: String)
        requires
            old(self).wf(),
            old(self).state is Idle,
        ensures
            final(self).wf(),
            final(self).state is FetchingTopLevel,
            final(self).cap == old(self).cap,
            final(self).emissions@.len() == 0,
            path@ == groups_path_spec(),
    {
        self.entities = Vec::new();
        self.tasks = Vec::new();
        self.clusters = Vec::new();
        self.next_unscheduled = 0;
        self.in_flight = 0;
        self.emissions = Vec::new();
        self.state = PassState::FetchingTopLevel;
        groups_path()
    }

    /// Starts waiting tasks while slots are free, in listing order.
    /// Returns the user fetches of the newly started tasks.
    #[verifier::loop_isolation(false)]
    fn schedule_ready(&mut self) -> (reqs: Vec<FetchReq>)
        requires
            old(self).wf(),
            old(self).state is FanningOut || old(self).state is Draining,
        ensures
            final(self).wf(),
            final(self).state == old(self).state,
            final(self).cap == old(self).cap,
            final(self).entities == old(self).entities,
            final(self).clusters == old(self).clusters,
            final(self).emissions == old(self).emissions,
            old(self).next_unscheduled <= final(self).next_unscheduled,
            final(self).in_flight == old(self).in_flight + final(self).next_unscheduled - old(self).next_unscheduled,
            final(self).next_unscheduled < final(self).entities@.len() ==> final(self).in_flight
                == final(self).cap,
            forall|j: int|
                0 <= j < old(self).next_unscheduled ==> final(self).tasks@[j] == old(self).tasks@[j],
            forall|j: int|
                old(self).next_unscheduled <= j < final(self).next_unscheduled ==> final(self).tasks@[j] is AwaitUsers,
            reqs@.len() == final(self).next_unscheduled - old(self).next_unscheduled,
            forall|t: int|
                0 <= t < reqs@.len() ==> (#[trigger] reqs@[t]).entity == old(self).next_unscheduled + t && reqs@[t].step is Users && reqs@[t].path@
                    == users_path_spec(
                    old(self).entities@[old(self).next_unscheduled + t].id@,
                ),
    {
        let mut reqs: Vec<FetchReq> = Vec::new();
        while self.in_flight < self.cap && self.next_unscheduled < self.entities.len()
            invariant
                self.wf(),
                self.state == old(self).state,
                self.cap == old(self).cap,
                self.entities == old(self).entities,
                self.clusters == old(self).clusters,
                self.emissions == old(self).emissions,
                old(self).next_unscheduled <= self.next_unscheduled,
                self.in_flight == old(self).in_flight + self.next_unscheduled - old(self).next_unscheduled,
                forall|j: int|
                    0 <= j < old(self).next_unscheduled ==> self.tasks@[j] == old(self).tasks@[j],
                forall|j: int|
                    old(self).next_unscheduled <= j < self.next_unscheduled ==> self.tasks@[j] is AwaitUsers,
                reqs@.len() == self.next_unscheduled - old(self).next_unscheduled,
                forall|t: int|
                    0 <= t < reqs@.len() ==> (#[trigger] reqs@[t]).entity == old(self).next_unscheduled + t && reqs@[t].step is Users && reqs@[t].path@
                        == users_path_spec(
                        old(self).entities@[old(self).next_unscheduled + t].id@,
                    ),
            decreases self.entities@.len() - self.next_unscheduled,
        {
            let i = self.next_unscheduled;
            let ghost ts0 = self.tasks@;
            self.tasks[i] = TaskPhase::AwaitUsers;
            proof {
                lemma_count_active_update(ts0, i as int, TaskPhase::AwaitUsers);
            }
            self.in_flight = self.in_flight + 1;
            self.next_unscheduled = i + 1;
            let path = users_path(self.entities[i].id.as_str());
            reqs.push(FetchReq { entity: i, step: StepKind::Users, path });
        }
        reqs
    }

    /// Settles the pass state after scheduling: still fanning out
    /// while tasks wait, draining while started tasks run, idle once
    /// everything finished.
    fn settle_state(&mut self)
        requires
            old(self).wf(),
            !(old(self).state is FetchingTopLevel),
        ensures
            final(self).wf(),
            final(self).cap == old(self).cap,
            final(self).entities == old(self).entities,
            final(self).tasks == old(self).tasks,
            final(self).clusters == old(self).clusters,
            final(self).next_unscheduled == old(self).next_unscheduled,
            final(self).in_flight == old(self).in_flight,
            final(self).emissions == old(self).emissions,
            final(self).state == (if old(self).next_unscheduled < old(self).entities@.len() {
                PassState::FanningOut
            } else if old(self).in_flight > 0 {
                PassState::Draining
            } else {
                PassState::Idle
            }),
    {
        if self.next_unscheduled < self.entities.len() {
            self.state = PassState::FanningOut;
        } else if self.in_flight > 0 {
            self.state = PassState::Draining;
        } else {
            self.state = PassState::Idle;
        }
    }

    /// What the top-level listing decodes to, if it does.
    pub open spec fn groups_of_resp(resp: Result<String, FetchError>) -> Option<
        Seq<(Seq<char>, Seq<char>)>,
    > {
        match resp {
            Ok(body) => match parse_doc(body@) {
                Some(d) => match dec_group_listing(d) {
                    Some(gl) => Some(gl.0),
                    None => None,
                },
                None => None,
            },
            Err(_) => None,
        }
    }

    /// Feeds the top-level listing outcome in. On failure the whole
    /// pass aborts with the error and nothing was emitted; on success
    /// every group gets a task and the first `cap` of them start.
    pub fn top_level_done(&mut self, resp: Result<String, FetchError>) -> (r: Result<
        Vec<FetchReq>,
        FetchError,
    >)
        requires
            old(self).wf(),
            old(self).state is FetchingTopLevel,
        ensures
            final(self).wf(),
            final(self).cap == old(self).cap,
            r matches Err(e) ==> ({
                &&& Self::groups_of_resp(resp) is None
                &&& final(self).state is Idle
                &&& final(self).emissions@.len() == 0
                &&& (resp matches Err(e0) ==> e == e0)
                &&& (resp is Ok ==> e is Malformed)
            }),
            r matches Ok(reqs) ==> ({
                &&& Self::groups_of_resp(resp) == Some(groups_model(final(self).entities@))
                &&& final(self).emissions@.len() == 0
                &&& final(self).next_unscheduled == reqs@.len()
                &&& final(self).in_flight == reqs@.len()
                &&& (final(self).next_unscheduled < final(self).entities@.len() ==> final(self).in_flight == final(self).cap)
                &&& (forall|t: int|
                    0 <= t < reqs@.len() ==> (#[trigger] reqs@[t]).entity == t
                        && reqs@[t].step is Users && reqs@[t].path@ == users_path_spec(
                        final(self).entities@[t].id@,
                    ))
                &&& (forall|t: int|
                    0 <= t < final(self).next_unscheduled ==> final(self).tasks@[t] is AwaitUsers)
                &&& final(self).state == (if final(self).next_unscheduled < final(self).entities@.len() {
                    PassState::FanningOut
                } else if final(self).in_flight > 0 {
                    PassState::Draining
                } else {
                    PassState::Idle
                })
            }),
    {
        let body = match resp {
            Ok(b) => b,
            Err(e) => {
                self.state = PassState::Idle;
                return Err(e);
            },
        };
        let listing: GroupListing = match decode_group_listing(body.as_str()) {
            Ok(l) => l,
            Err(_) => {
                self.state = PassState::Idle;
                return Err(FetchError::Malformed);
            },
        };
        let n = listing.results.len();
        self.entities = listing.results;
        let mut tasks: Vec<TaskPhase> = Vec::new();
        let mut clusters: Vec<Vec<String>> = Vec::new();
        let mut k: usize = 0;
        proof {
            assert(count_active(tasks@) == 0);
        }
        while k < n
            invariant
                k <= n,
                tasks@.len() == k,
                clusters@.len() == k,
                count_active(tasks@) == 0,
                forall|j: int| 0 <= j < k ==> tasks@[j] is Waiting,
            decreases n - k,
        {
            let ghost ts0 = tasks@;
            tasks.push(TaskPhase::Waiting);
            clusters.push(Vec::new());
            proof {
                lemma_count_active_push(ts0, TaskPhase::Waiting);
            }
            k = k + 1;
        }
        self.tasks = tasks;
        self.clusters = clusters;
        self.next_unscheduled = 0;
        self.in_flight = 0;
        self.state = PassState::FanningOut;
        let reqs = self.schedule_ready();
        self.settle_state();
        Ok(reqs)
    }

    /// What a user-listing outcome adds to the emissions: the user
    /// metrics on success, nothing on a fetch or decode failure.
    pub open spec fn new_user_emissions(project: Seq<char>, resp: Result<String, FetchError>) -> Seq<
        EmV,
    > {
        match resp {
            Ok(body) => match parse_doc(body@) {
                Some(d) => match dec_user_listing(d) {
                    Some(um) => user_listing_emissions(project, um),
                    None => Seq::empty(),
                },
                None => Seq::empty(),
            },
            Err(_) => Seq::empty(),
        }
    }

    /// Feeds one group's user-listing outcome in. Whatever the
    /// outcome, the task moves on to its cluster listing: a failure
    /// here loses only this step's emissions, and no other task or
    /// earlier emission is touched.
    pub fn users_done(&mut self, entity: usize, resp: Result<String, FetchError>) -> (r: FetchReq)
        requires
            old(self).wf(),
            entity < old(self).tasks@.len(),
            old(self).tasks@[entity as int] is AwaitUsers,
        ensures
            final(self).wf(),
            final(self).state == old(self).state,
            final(self).cap == old(self).cap,
            final(self).entities == old(self).entities,
            final(self).clusters == old(self).clusters,
            final(self).in_flight == old(self).in_flight,
            final(self).next_unscheduled == old(self).next_unscheduled,
            final(self).tasks@ == old(self).tasks@.update(entity as int, TaskPhase::AwaitClusters),
            ems_model(final(self).emissions@) == ems_model(old(self).emissions@)
                + Self::new_user_emissions(old(self).entities@[entity as int].name@, resp),
            r.entity == entity,
            r.step is Clusters,
            r.path@ == clusters_path_spec(old(self).entities@[entity as int].id@),
    {
        let ghost old_ems = ems_model(self.emissions@);
        let ghost project = self.entities@[entity as int].name@;
        match resp {
            Ok(body) => {
                match decode_user_listing(body.as_str()) {
                    Ok(ul) => {
                        let mut ems = map_user_listing(self.entities[entity].name.as_str(), &ul);
                        let ghost emsv = ems@;
                        self.emissions.append(&mut ems);
                        proof {
                            assert(ems_model(self.emissions@) =~= old_ems + ems_model(emsv));
                        }
                    },
                    Err(_) => {
                        proof {
                            assert(ems_model(self.emissions@) + Seq::<EmV>::empty() =~= ems_model(
                                self.emissions@,
                            ));
                        }
                    },
                }
            },
            Err(_) => {
                proof {
                    assert(ems_model(self.emissions@) + Seq::<EmV>::empty() =~= ems_model(
                        self.emissions@,
                    ));
                }
            },
        }
        let ghost ts0 = self.tasks@;
        self.tasks[entity] = TaskPhase::AwaitClusters;
        proof {
            lemma_count_active_update(ts0, entity as int, TaskPhase::AwaitClusters);
        }
        FetchReq {
            entity,
            step: StepKind::Clusters,
            path: clusters_path(self.entities[entity].id.as_str()),
        }
    }

    /// What a cluster-listing outcome names, if it decodes.
    pub open spec fn clusters_of_resp(resp: Result<String, FetchError>) -> Option<Seq<Seq<char>>> {
        match resp {
            Ok(body) => match parse_doc(body@) {
                Some(d) => dec_cluster_listing(d),
                None => None,
            },
            Err(_) => None,
        }
    }

    /// Finishes one group's task: its slot is released, and waiting
    /// tasks are started while slots are free.
    fn finish_entity(&mut self, entity: usize) -> (reqs: Vec<FetchReq>)
        requires
            old(self).wf(),
            entity < old(self).tasks@.len(),
            is_active(old(self).tasks@[entity as int]),
            !(old(self).state is FetchingTopLevel),
        ensures
            final(self).wf(),
            final(self).cap == old(self).cap,
            final(self).entities == old(self).entities,
            final(self).clusters == old(self).clusters,
            final(self).emissions == old(self).emissions,
            final(self).tasks@[entity as int] is Done,
            forall|j: int|
                0 <= j < old(self).tasks@.len() && j != entity ==> (final(self).tasks@[j] == old(self).tasks@[j] || (old(self).tasks@[j] is Waiting && final(self).tasks@[j] is AwaitUsers)),
            started_users(*old(self), *final(self), reqs@),
            final(self).state == settled_state(*final(self)),
    {
        let ghost ts0 = self.tasks@;
        self.tasks[entity] = TaskPhase::Done;
        proof {
            lemma_count_active_update(ts0, entity as int, TaskPhase::Done);
            lemma_count_active_at(ts0, entity as int);
        }
        self.in_flight = self.in_flight - 1;
        let ghost mid = *self;
        proof {
            assert(!(self.state is Idle));
        }
        let reqs = self.schedule_ready();
        proof {
            assert(forall|j: int|
                0 <= j < mid.next_unscheduled ==> self.tasks@[j] == mid.tasks@[j]);
        }
        self.settle_state();
        reqs
    }

    /// Feeds one group's cluster-listing outcome in. On a non-empty
    /// listing the task turns to the first cluster's status fetch; on
    /// an empty listing, a fetch failure or a decode failure the
    /// status lookups are skipped and the task finishes. Nothing is
    /// emitted here and no earlier emission or sibling task is
    /// touched.
    pub fn clusters_done(&mut self, entity: usize, resp: Result<String, FetchError>) -> (reqs: Vec<
        FetchReq,
    >)
        requires
            old(self).wf(),
            entity < old(self).tasks@.len(),
            old(self).tasks@[entity as int] is AwaitClusters,
            !(old(self).state is FetchingTopLevel),
        ensures
            final(self).wf(),
            final(self).cap == old(self).cap,
            final(self).entities == old(self).entities,
            ems_model(final(self).emissions@) == ems_model(old(self).emissions@),
            forall|j: int|
                0 <= j < old(self).tasks@.len() && j != entity ==> (final(self).tasks@[j] == old(self).tasks@[j] || (old(self).tasks@[j] is Waiting && final(self).tasks@[j] is AwaitUsers)),
            forall|j: int|
                0 <= j < old(self).clusters@.len() && j != entity ==> final(self).clusters@[j]
                    == old(self).clusters@[j],
            (match Self::clusters_of_resp(resp) {
                Some(cs) => cs.len() > 0 ==> ({
                    &&& final(self).tasks@[entity as int] matches TaskPhase::AwaitStatus {
                        next,
                    } && next == 0
                    &&& strings_model(final(self).clusters@[entity as int]@) == cs
                    &&& final(self).state == old(self).state
                    &&& final(self).in_flight == old(self).in_flight
                    &&& final(self).next_unscheduled == old(self).next_unscheduled
                    &&& reqs@.len() == 1
                    &&& reqs@[0].entity == entity
                    &&& reqs@[0].step is Status
                    &&& reqs@[0].path@ == status_path_spec(
                        old(self).entities@[entity as int].id@,
                        cs[0],
                    )
                }),
                None => true,
            }),
            (Self::clusters_of_resp(resp) is None || Self::clusters_of_resp(resp) == Some(
                Seq::<Seq<char>>::empty(),
            )) ==> ({
                &&& final(self).tasks@[entity as int] is Done
                &&& started_users(*old(self), *final(self), reqs@)
                &&& final(self).state == settled_state(*final(self))
            }),
    {
        let cl = match resp {
            Ok(body) => match decode_cluster_listing(body.as_str()) {
                Ok(cl) => Some(cl),
                Err(_) => None,
            },
            Err(_) => None,
        };
        match cl {
            Some(cl) => {
                if cl.results.len() > 0 {
                    let path = status_path(
                        self.entities[entity].id.as_str(),
                        cl.results[0].as_str(),
                    );
                    self.clusters[entity] = cl.results;
                    let ghost ts0 = self.tasks@;
                    self.tasks[entity] = TaskPhase::AwaitStatus { next: 0 };
                    proof {
                        lemma_count_active_update(
                            ts0,
                            entity as int,
                            TaskPhase::AwaitStatus { next: 0 },
                        );
                    }
                    let mut reqs: Vec<FetchReq> = Vec::new();
                    reqs.push(FetchReq { entity, step: StepKind::Status, path });
                    reqs
                } else {
                    self.finish_entity(entity)
                }
            },
            None => self.finish_entity(entity),
        }
    }

    /// What a status outcome adds to the emissions: one
    /// `cluster_status` gauge on success, nothing on failure.
    pub open spec fn new_status_emissions(
        project: Seq<char>,
        cluster: Seq<char>,
        resp: Result<String, FetchError>,
    ) -> Seq<EmV> {
        match resp {
            Ok(body) => match parse_doc(body@) {
                Some(d) => match dec_change_status(d) {
                    Some(st) => seq![status_emission(project, cluster, st)],
                    None => Seq::empty(),
                },
                None => Seq::empty(),
            },
            Err(_) => Seq::empty(),
        }
    }

    /// Feeds one cluster's status outcome in. The emission, if any,
    /// concerns this group's cluster alone; then the task turns to
    /// the next cluster, or finishes after the last one.
    pub fn status_done(&mut self, entity: usize, resp: Result<String, FetchError>) -> (reqs: Vec<
        FetchReq,
    >)
        requires
            old(self).wf(),
            entity < old(self).tasks@.len(),
            old(self).tasks@[entity as int] matches TaskPhase::AwaitStatus { next },
            !(old(self).state is FetchingTopLevel),
        ensures
            final(self).wf(),
            final(self).cap == old(self).cap,
            final(self).entities == old(self).entities,
            final(self).clusters == old(self).clusters,
            forall|j: int|
                0 <= j < old(self).tasks@.len() && j != entity ==> (final(self).tasks@[j] == old(self).tasks@[j] || (old(self).tasks@[j] is Waiting && final(self).tasks@[j] is AwaitUsers)),
            ({
                let next = old(self).tasks@[entity as int]->AwaitStatus_next;
                let cs = strings_model(old(self).clusters@[entity as int]@);
                &&& ems_model(final(self).emissions@) == ems_model(old(self).emissions@)
                    + Self::new_status_emissions(
                    old(self).entities@[entity as int].name@,
                    cs[next as int],
                    resp,
                )
                &&& (next + 1 < cs.len() ==> ({
                    &&& final(self).tasks@[entity as int] matches TaskPhase::AwaitStatus {
                        next: n2,
                    } && n2 == next + 1
                    &&& final(self).state == old(self).state
                    &&& final(self).in_flight == old(self).in_flight
                    &&& final(self).next_unscheduled == old(self).next_unscheduled
                    &&& reqs@.len() == 1
                    &&& reqs@[0].entity == entity
                    &&& reqs@[0].step is Status
                    &&& reqs@[0].path@ == status_path_spec(
                        old(self).entities@[entity as int].id@,
                        cs[next + 1],
                    )
                }))
                &&& (next + 1 == cs.len() ==> ({
                    &&& final(self).tasks@[entity as int] is Done
                    &&& started_users(*old(self), *final(self), reqs@)
                    &&& final(self).state == settled_state(*final(self))
                }))
            }),
    {
        let next = match &self.tasks[entity] {
            TaskPhase::AwaitStatus { next } => *next,
            _ => {
                proof {
                    assert(false);
                }
                0
            },
        };
        let ghost old_ems = ems_model(self.emissions@);
        match resp {
            Ok(body) => {
                match decode_change_status(body.as_str()) {
                    Ok(st) => {
                        let e = map_change_status(
                            self.entities[entity].name.as_str(),
                            self.clusters[entity][next].as_str(),
                            &st,
                        );
                        let ghost ev = em_model(e);
                        self.emissions.push(e);
                        proof {
                            assert(strings_model(self.clusters@[entity as int]@)[next as int]
                                == self.clusters@[entity as int]@[next as int]@);
                            assert(ems_model(self.emissions@) =~= old_ems + seq![ev]);
                        }
                    },
                    Err(_) => {
                        proof {
                            assert(ems_model(self.emissions@) + Seq::<EmV>::empty() =~= ems_model(
                                self.emissions@,
                            ));
                        }
                    },
                }
            },
            Err(_) => {
                proof {
                    assert(ems_model(self.emissions@) + Seq::<EmV>::empty() =~= ems_model(
                        self.emissions@,
                    ));
                }
            },
        }
        let m = self.clusters[entity].len();
        proof {
            assert(next < self.clusters@[entity as int]@.len());
        }
        if next + 1 < m {
            let path = status_path(
                self.entities[entity].id.as_str(),
                self.clusters[entity][next + 1].as_str(),
            );
            let ghost ts0 = self.tasks@;
            self.tasks[entity] = TaskPhase::AwaitStatus { next: next + 1 };
            proof {
                lemma_count_active_update(
                    ts0,
                    entity as int,
                    TaskPhase::AwaitStatus { next: (next + 1) as usize },
                );
                assert(strings_model(self.clusters@[entity as int]@)[next + 1]
                    == self.clusters@[entity as int]@[next + 1]@);
            }
            let mut reqs: Vec<FetchReq> = Vec::new();
            reqs.push(FetchReq { entity, step: StepKind::Status, path });
            reqs
        } else {
            self.finish_entity(entity)
        }
    }
}

} // verus!
