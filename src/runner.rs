//! The reconciliation engine: it classifies an application's runtime state and decides,
//! from that state, which runtime requests to make and in which order.
use vstd::prelude::*;
use crate::app::App;
use crate::containers::{runtime_name, AppContainer, AppContainerIdentity};
use crate::docker::{
    ContainerCreationConfig, ContainerMount, ContainerRestartPolicy, ExistingContainer,
    ExistingContainerStatus, APP_ID_LABEL, APP_NAME_LABEL, CONTAINER_ID_LABEL,
    CONTAINER_NAME_LABEL,
};
use crate::env::AppRunnerEnvironment;
use crate::existing::{
    decodes_as, is_managed, label_value, labels_readable, stripped_name, ExistingAppContainer,
};
use crate::ids::{b62_text, b62_value, ContainerId};
use crate::templates::{AppVolume, AppVolumeType};
use crate::text::text_eq;

verus! {

/// The reconciled state of an application.
#[derive(Debug, Clone, Copy, PartialEq, Eq, Structural)]
pub enum AppRunningStatus {
    /// No container of the application exists.
    NotCreated,
    /// Some containers exist, not all.
    PartiallyCreated,
    /// All exist and at least one is dead.
    Zombie,
    /// All exist, none is dead, and at least one is paused, being removed or restarting.
    Intermediary,
    /// All exist and every one is created or exited.
    Stopped,
    /// All exist, some run and at least one has exited.
    PartiallyRunning,
    /// All exist and run.
    FullyRunning,
}

/// Why the runner refused an operation.
#[derive(Debug, Clone)]
pub enum RunnerError {
    /// The operation does not fit the application's current state, given here.
    InvalidState(AppRunningStatus),
    /// The dependencies leave no container that can go first among those left.
    DependencyCycle,
    /// Runtime containers of the application still exist.
    ContainersRemain,
}

/// A runner bound to one application snapshot and the host directory layout.
#[derive(Debug, Clone)]
pub struct AppRunner {
    pub env: AppRunnerEnvironment,
    pub app: App,
}

/// The record belongs to the application and to one of its declared containers.
pub open spec fn record_matches(app: App, e: ExistingAppContainer) -> bool {
    e.app_id == app.id && exists|i: int|
        0 <= i < app.containers@.len() && (#[trigger] app.containers@[i]).id == e.container_id
}

/// The declared container `i` has a runtime record.
pub open spec fn is_created(app: App, ex: Seq<ExistingAppContainer>, i: int) -> bool {
    exists|k: int|
        0 <= k < ex.len() && (#[trigger] ex[k]).app_id == app.id && ex[k].container_id
            == app.containers@[i].id
}

/// Some matched record has this status.
pub open spec fn any_status(app: App, ex: Seq<ExistingAppContainer>, s: ExistingContainerStatus) -> bool {
    exists|k: int| 0 <= k < ex.len() && record_matches(app, #[trigger] ex[k]) && ex[k].status == s
}

/// Every matched record is created or exited.
pub open spec fn all_stopped(app: App, ex: Seq<ExistingAppContainer>) -> bool {
    forall|k: int|
        0 <= k < ex.len() && record_matches(app, #[trigger] ex[k]) ==> (ex[k].status
            == ExistingContainerStatus::Created || ex[k].status == ExistingContainerStatus::Exited)
}

/// The classification of an application against the runtime records, first match
/// wins: none created, some created, dead, transitional, all stopped, some exited,
/// all running.
pub open spec fn classify(app: App, ex: Seq<ExistingAppContainer>) -> AppRunningStatus {
    if forall|i: int| 0 <= i < app.containers@.len() ==> !is_created(app, ex, i) {
        AppRunningStatus::NotCreated
    } else if !(forall|i: int| 0 <= i < app.containers@.len() ==> is_created(app, ex, i)) {
        AppRunningStatus::PartiallyCreated
    } else if any_status(app, ex, ExistingContainerStatus::Dead) {
        AppRunningStatus::Zombie
    } else if any_status(app, ex, ExistingContainerStatus::Paused) || any_status(
        app,
        ex,
        ExistingContainerStatus::Removing,
    ) || any_status(app, ex, ExistingContainerStatus::Restarting) {
        AppRunningStatus::Intermediary
    } else if all_stopped(app, ex) {
        AppRunningStatus::Stopped
    } else if any_status(app, ex, ExistingContainerStatus::Exited) {
        AppRunningStatus::PartiallyRunning
    } else {
        AppRunningStatus::FullyRunning
    }
}

/// Container `a` lists the name of container `b` among its dependencies.
pub open spec fn depends(app: App, a: int, b: int) -> bool {
    exists|k: int|
        0 <= k < app.containers@[a].depends_on@.len() && (
        #[trigger] app.containers@[a].depends_on@[k])@ == app.containers@[b].name@
}

/// `order` lists every container once, and no container comes before one it depends on.
pub open spec fn valid_order(app: App, order: Seq<usize>) -> bool {
    let n = app.containers@.len();
    &&& order.len() == n
    &&& forall|i: int| 0 <= i < n ==> (#[trigger] order[i]) < n
    &&& forall|i: int, j: int| 0 <= i < j < n ==> (#[trigger] order[i]) != (#[trigger] order[j])
    &&& forall|i: int, j: int|
        0 <= i < j < n ==> !depends(app, #[trigger] order[i] as int, #[trigger] order[j] as int)
}

/// A non-empty set of containers none of which can go first among them: each depends
/// on another member of the set.
pub open spec fn dependency_knot(app: App) -> bool {
    exists|s: Set<int>|
        #![trigger s.len()]
        s.len() > 0 && s.finite() && (forall|c: int| #[trigger] s.contains(c) ==> 0 <= c
            < app.containers@.len()) && forall|c: int| #[trigger]
            s.contains(c) ==> exists|b: int| s.contains(b) && b != c && depends(app, c, b)
}

/// Container `c` is not placed and depends on no other container that is not placed.
pub open spec fn ready_in(app: App, placed: Seq<bool>, c: int) -> bool {
    0 <= c < placed.len() && !placed[c] && forall|b: int|
        0 <= b < placed.len() && !(#[trigger] placed[b]) && b != c ==> !depends(app, c, b)
}

/// The first ready container in declaration order, if any.
#[verifier::opaque]
pub open spec fn first_ready(app: App, placed: Seq<bool>) -> Option<int> {
    if exists|c: int| ready_in(app, placed, c) {
        Some(
            choose|c: int|
                ready_in(app, placed, c) && forall|d: int| 0 <= d < c ==> !ready_in(app, placed, d),
        )
    } else {
        None
    }
}

/// The order built by placing, `steps` times, the first ready container.
pub open spec fn greedy_order(app: App, placed: Seq<bool>, steps: nat) -> Option<Seq<usize>>
    decreases steps,
{
    if steps == 0 {
        Some(seq![])
    } else {
        match first_ready(app, placed) {
            None => None,
            Some(c) => match greedy_order(app, placed.update(c, true), (steps - 1) as nat) {
                None => None,
                Some(rest) => Some(seq![c as usize] + rest),
            },
        }
    }
}

/// The dependency order of the application's containers: repeatedly, the first declared
/// container that depends on no container left goes next. `None` when none can go.
pub open spec fn dependency_order(app: App) -> Option<Seq<usize>> {
    greedy_order(
        app,
        Seq::new(app.containers@.len(), |i: int| false),
        app.containers@.len() as nat,
    )
}

/// `prefix` followed by what the greedy order gives from `placed` on.
#[verifier::opaque]
pub open spec fn extend_order(app: App, prefix: Seq<usize>, placed: Seq<bool>, steps: nat) -> Option<Seq<usize>> {
    match greedy_order(app, placed, steps) {
        None => None,
        Some(rest) => Some(prefix + rest),
    }
}

/// The first ready container is the ready one before which none is ready.
proof fn lemma_first_ready_is(app: App, placed: Seq<bool>, c: int)
    requires
        ready_in(app, placed, c),
        forall|d: int| 0 <= d < c ==> !ready_in(app, placed, d),
    ensures
        first_ready(app, placed) == Some(c),
{
    reveal(first_ready);
    let c2 = choose|x: int|
        ready_in(app, placed, x) && forall|d: int| 0 <= d < x ==> !ready_in(app, placed, d);
    assert(c2 == c);
}

/// Placing the first ready container extends the order by it.
proof fn lemma_greedy_step(app: App, prefix: Seq<usize>, placed: Seq<bool>, c: int, m: nat)
    requires
        m > 0,
        first_ready(app, placed) == Some(c),
    ensures
        extend_order(app, prefix, placed, m) == extend_order(
            app,
            prefix.push(c as usize),
            placed.update(c, true),
            (m - 1) as nat,
        ),
{
    reveal(extend_order);
    match greedy_order(app, placed.update(c, true), (m - 1) as nat) {
        None => {},
        Some(rest) => {
            assert(prefix + (seq![c as usize] + rest) =~= prefix.push(c as usize) + rest);
        },
    }
}

/// With no ready container, no order can be built.
proof fn lemma_greedy_stuck(app: App, prefix: Seq<usize>, placed: Seq<bool>, m: nat)
    requires
        m > 0,
        forall|x: int| !ready_in(app, placed, x),
    ensures
        extend_order(app, prefix, placed, m) is None,
{
    reveal(first_ready);
    reveal(extend_order);
}

/// The order from the start is the dependency order.
proof fn lemma_extend_start(app: App, placed: Seq<bool>)
    requires
        placed == Seq::new(app.containers@.len(), |i: int| false),
    ensures
        extend_order(app, seq![], placed, app.containers@.len() as nat) == dependency_order(app),
{
    reveal(extend_order);
    match greedy_order(app, placed, app.containers@.len() as nat) {
        None => {},
        Some(rest) => {
            assert(Seq::<usize>::empty() + rest =~= rest);
        },
    }
}

/// With no step left, the order is the prefix.
proof fn lemma_extend_end(app: App, prefix: Seq<usize>, placed: Seq<bool>)
    ensures
        extend_order(app, prefix, placed, 0) == Some(prefix),
{
    reveal(extend_order);
    assert(prefix + seq![] =~= prefix);
}

/// A record as plain values: runtime id, runtime name, application id and name,
/// container id and name, status.
pub open spec fn record_view(e: ExistingAppContainer) -> (Seq<char>, Seq<char>, nat, Seq<char>, nat, Seq<char>, ExistingContainerStatus) {
    (
        e.docker_container_id@,
        e.docker_container_name@,
        e.app_id.0 as nat,
        e.app_name@,
        e.container_id.0 as nat,
        e.container_name@,
        e.status,
    )
}

/// What a managed, readable runtime container reads as, in the form of `record_view`.
pub open spec fn decoded_view(c: ExistingContainer) -> (Seq<char>, Seq<char>, nat, Seq<char>, nat, Seq<char>, ExistingContainerStatus) {
    let l = c.labels@;
    (
        c.docker_container_id@,
        stripped_name(c.names@[0]@),
        b62_value(label_value(l, APP_ID_LABEL@)->Some_0),
        label_value(l, APP_NAME_LABEL@)->Some_0,
        b62_value(label_value(l, CONTAINER_ID_LABEL@)->Some_0),
        label_value(l, CONTAINER_NAME_LABEL@)->Some_0,
        c.status,
    )
}

/// The records of the application's runtime containers, in listing order, one per
/// container that belongs to it.
pub open spec fn expected_records(app: App, raw: Seq<ExistingContainer>) -> Seq<(Seq<char>, Seq<char>, nat, Seq<char>, nat, Seq<char>, ExistingContainerStatus)>
    decreases raw.len(),
{
    if raw.len() == 0 {
        seq![]
    } else {
        let rest = expected_records(app, raw.drop_last());
        if belongs_to(app, raw.last()) {
            rest.push(decoded_view(raw.last()))
        } else {
            rest
        }
    }
}

/// The identity a container reports.
pub open spec fn identity_of(c: AppContainer) -> AppContainerIdentity {
    AppContainerIdentity { id: c.id, name: c.name, app: c.app }
}

/// The names of the volumes that become anonymous runtime-managed volumes.
pub open spec fn anon_volumes_of(vols: Seq<AppVolume>) -> Seq<Seq<char>>
    decreases vols.len(),
{
    if vols.len() == 0 {
        seq![]
    } else {
        let rest = anon_volumes_of(vols.drop_last());
        match vols.last().variant {
            AppVolumeType::Disposable | AppVolumeType::Internal => rest.push(vols.last().name@),
            _ => rest,
        }
    }
}

/// A mount as host path, container path and read-only flag.
pub open spec fn mount_view(m: ContainerMount) -> (Seq<char>, Seq<char>, bool) {
    (m.in_host@, m.in_container@, m.readonly)
}

/// The bind mounts of a container's volumes: external volumes from their internal
/// directory, bound paths from the path the operator chose.
pub open spec fn mounts_of(
    env: AppRunnerEnvironment,
    ident: AppContainerIdentity,
    vols: Seq<AppVolume>,
) -> Seq<(Seq<char>, Seq<char>, bool)>
    decreases vols.len(),
{
    if vols.len() == 0 {
        seq![]
    } else {
        let rest = mounts_of(env, ident, vols.drop_last());
        let v = vols.last();
        match v.variant {
            AppVolumeType::External { container_path, readonly } => rest.push(
                (env.spec_internal_volume_dir(ident, v.name@), container_path@, readonly),
            ),
            AppVolumeType::BindToPath { real_path, container_path, readonly } => rest.push(
                (real_path@, container_path@, readonly),
            ),
            _ => rest,
        }
    }
}

/// `cfg` is the creation request for container `c`.
pub open spec fn config_for(env: AppRunnerEnvironment, c: AppContainer, cfg: ContainerCreationConfig) -> bool {
    let l = cfg.labels@;
    &&& cfg.name@ == runtime_name(c.app.id.0, c.id.0, c.name@)
    &&& cfg.image == c.image
    &&& cfg.env@ == c.env_vars@
    &&& cfg.port_bindings@ == c.port_bindings@
    &&& cfg.anon_volumes@.map_values(|s: String| s@) == anon_volumes_of(c.volumes@)
    &&& cfg.mounts@.map_values(|m: ContainerMount| mount_view(m)) == mounts_of(
        env,
        identity_of(c),
        c.volumes@,
    )
    &&& l.len() == 4
    &&& l[0].0@ == APP_ID_LABEL@ && l[0].1@ == b62_text(c.app.id.0 as nat)
    &&& l[1].0@ == APP_NAME_LABEL@ && l[1].1@ == c.app.name@
    &&& l[2].0@ == CONTAINER_ID_LABEL@ && l[2].1@ == b62_text(c.id.0 as nat)
    &&& l[3].0@ == CONTAINER_NAME_LABEL@ && l[3].1@ == c.name@
    &&& cfg.restart_policy == ContainerRestartPolicy::UnlessStopped
}

/// The runtime ids of the records that belong to the application, in listing order.
pub open spec fn stop_ids(app: App, ex: Seq<ExistingAppContainer>) -> Seq<Seq<char>>
    decreases ex.len(),
{
    if ex.len() == 0 {
        seq![]
    } else {
        let rest = stop_ids(app, ex.drop_last());
        if ex.last().app_id == app.id {
            rest.push(ex.last().docker_container_id@)
        } else {
            rest
        }
    }
}

/// The runtime container is managed, readable, and labelled with the application's id.
pub open spec fn belongs_to(app: App, c: ExistingContainer) -> bool {
    is_managed(c) && labels_readable(c.labels@) && b62_value(
        label_value(c.labels@, APP_ID_LABEL@)->Some_0,
    ) == app.id.0
}

/// `e` is the record of a runtime container of the list that belongs to the application.
pub open spec fn read_from(app: App, raw: Seq<ExistingContainer>, e: ExistingAppContainer) -> bool {
    exists|i: int| 0 <= i < raw.len() && belongs_to(app, raw[i]) && decodes_as(raw[i], e)
}

/// With no record matching a declared container of the application, the application
/// is not created.
pub proof fn lemma_status_no_record(app: App, ex: Seq<ExistingAppContainer>)
    requires
        forall|k: int| 0 <= k < ex.len() ==> !record_matches(app, #[trigger] ex[k]),
    ensures
        classify(app, ex) == AppRunningStatus::NotCreated,
{
    assert forall|i: int| 0 <= i < app.containers@.len() implies !is_created(app, ex, i) by {
        if is_created(app, ex, i) {
            let k = choose|k: int|
                0 <= k < ex.len() && (#[trigger] ex[k]).app_id == app.id && ex[k].container_id
                    == app.containers@[i].id;
            assert(record_matches(app, ex[k]));
        }
    }
}

/// When some declared containers have a record and others have none, the application
/// is partially created, whatever the statuses.
pub proof fn lemma_status_partial(app: App, ex: Seq<ExistingAppContainer>, some: int, missing: int)
    requires
        0 <= some < app.containers@.len(),
        0 <= missing < app.containers@.len(),
        is_created(app, ex, some),
        !is_created(app, ex, missing),
    ensures
        classify(app, ex) == AppRunningStatus::PartiallyCreated,
{
}

/// With every declared container created: a dead record makes a zombie whatever the
/// other statuses; all records created or exited make it stopped; all running makes it
/// fully running.
pub proof fn lemma_status_all_created(app: App, ex: Seq<ExistingAppContainer>)
    requires
        app.containers@.len() > 0,
        forall|i: int| 0 <= i < app.containers@.len() ==> is_created(app, ex, i),
    ensures
        any_status(app, ex, ExistingContainerStatus::Dead) ==> classify(app, ex)
            == AppRunningStatus::Zombie,
        all_stopped(app, ex) ==> classify(app, ex) == AppRunningStatus::Stopped,
        (forall|k: int|
            0 <= k < ex.len() && record_matches(app, #[trigger] ex[k]) ==> ex[k].status
                == ExistingContainerStatus::Running) ==> classify(app, ex)
            == AppRunningStatus::FullyRunning,
{
    assert(is_created(app, ex, 0));
    if all_stopped(app, ex) {
        assert forall|k: int|
            0 <= k < ex.len() && record_matches(app, #[trigger] ex[k]) implies ex[k].status
            != ExistingContainerStatus::Dead && ex[k].status != ExistingContainerStatus::Paused
            && ex[k].status != ExistingContainerStatus::Removing && ex[k].status
            != ExistingContainerStatus::Restarting by {}
    }
    if forall|k: int|
        0 <= k < ex.len() && record_matches(app, #[trigger] ex[k]) ==> ex[k].status
            == ExistingContainerStatus::Running {
        let k = choose|k: int|
            0 <= k < ex.len() && (#[trigger] ex[k]).app_id == app.id && ex[k].container_id
                == app.containers@[0].id;
        assert(record_matches(app, ex[k]));
        assert(!all_stopped(app, ex));
    }
}

/// A valid order lists every container.
proof fn lemma_order_covers(app: App, order: Seq<usize>, c: int)
    requires
        valid_order(app, order),
        0 <= c < app.containers@.len(),
    ensures
        exists|j: int| 0 <= j < order.len() && order[j] as int == c,
{
    let n = app.containers@.len();
    let ints = order.map_values(|v: usize| v as int);
    assert(ints.no_duplicates()) by {
        assert forall|i: int, j: int| 0 <= i < ints.len() && 0 <= j < ints.len() && i != j implies ints[i] != ints[j] by {
            if i < j {
                assert(order[i] != order[j]);
            } else {
                assert(order[j] != order[i]);
            }
        }
    }
    ints.unique_seq_to_set();
    let range = vstd::set_lib::set_int_range(0, n as int);
    vstd::set_lib::lemma_int_range(0, n as int);
    if !(exists|j: int| 0 <= j < order.len() && order[j] as int == c) {
        let rest = range.remove(c);
        assert forall|x: int| #[trigger] ints.to_set().contains(x) implies rest.contains(x) by {
            let j = choose|j: int| 0 <= j < ints.len() && ints[j] == x;
            assert(order[j] < n);
        }
        assert(rest.len() == n - 1);
        vstd::set_lib::lemma_len_subset(ints.to_set(), rest);
    }
}

/// No valid order has its first member of a knot at position `k` or later.
proof fn lemma_knot_scan(app: App, order: Seq<usize>, s: Set<int>, k: int)
    requires
        s.len() > 0,
        s.finite(),
        forall|c: int| #[trigger] s.contains(c) ==> 0 <= c < app.containers@.len(),
        forall|c: int| #[trigger]
            s.contains(c) ==> exists|b: int| s.contains(b) && b != c && depends(app, c, b),
        0 <= k <= order.len(),
        forall|j: int| 0 <= j < k ==> !s.contains(#[trigger] order[j] as int),
    ensures
        !valid_order(app, order),
    decreases order.len() - k,
{
    if !valid_order(app, order) {
    } else if k == order.len() {
        if !(exists|c: int| s.contains(c)) {
            assert(s =~= Set::<int>::empty());
        }
        let c = choose|c: int| s.contains(c);
        lemma_order_covers(app, order, c);
        let j = choose|j: int| 0 <= j < order.len() && order[j] as int == c;
        assert(!s.contains(order[j] as int));
    } else if s.contains(order[k] as int) {
        let c = order[k] as int;
        let b = choose|b: int| s.contains(b) && b != c && depends(app, c, b);
        lemma_order_covers(app, order, b);
        let j = choose|j: int| 0 <= j < order.len() && order[j] as int == b;
        if j < k {
            assert(!s.contains(order[j] as int));
        } else {
            assert(j != k);
            assert(!depends(app, order[k] as int, order[j] as int));
        }
    } else {
        lemma_knot_scan(app, order, s, k + 1);
    }
}

/// An application whose dependencies form a knot has no valid order.
pub proof fn lemma_knot_excludes_order(app: App, order: Seq<usize>)
    requires
        dependency_knot(app),
    ensures
        !valid_order(app, order),
{
    if valid_order(app, order) {
        let s = choose|s: Set<int>|
            #![trigger s.len()]
            s.len() > 0 && s.finite() && (forall|c: int| #[trigger] s.contains(c) ==> 0 <= c
                < app.containers@.len()) && forall|c: int| #[trigger]
                s.contains(c) ==> exists|b: int| s.contains(b) && b != c && depends(app, c, b);
        lemma_knot_scan(app, order, s, 0);
    }
}

impl AppRunner {
    /// Binds a runner to an application snapshot.
    pub fn new(env: AppRunnerEnvironment, app: App) -> (r: AppRunner)
        ensures
            r.env == env && r.app == app,
    {
        AppRunner { env, app }
    }

    /// Whether a declared container has this id.
    fn is_declared(&self, id: ContainerId) -> (r: bool)
        ensures
            r == exists|i: int|
                0 <= i < self.app.containers@.len() && (#[trigger] self.app.containers@[i]).id == id,
    {
        let n = self.app.containers.len();
        let mut i: usize = 0;
        while i < n
            invariant
                n == self.app.containers@.len(),
                i <= n,
                forall|j: int| 0 <= j < i ==> (#[trigger] self.app.containers@[j]).id != id,
            decreases n - i,
        {
            if self.app.containers[i].id.0 == id.0 {
                return true;
            }
            i += 1;
        }
        false
    }

    /// Whether the declared container `i` has a runtime record.
    fn has_record(&self, existing: &Vec<ExistingAppContainer>, i: usize) -> (r: bool)
        requires
            i < self.app.containers@.len(),
        ensures
            r == is_created(self.app, existing@, i as int),
    {
        let id = self.app.containers[i].id;
        let n = existing.len();
        let mut k: usize = 0;
        while k < n
            invariant
                n == existing@.len(),
                k <= n,
                id == self.app.containers@[i as int].id,
                forall|j: int|
                    0 <= j < k ==> !((#[trigger] existing@[j]).app_id == self.app.id
                        && existing@[j].container_id == id),
            decreases n - k,
        {
            if existing[k].app_id.0 == self.app.id.0 && existing[k].container_id.0 == id.0 {
                return true;
            }
            k += 1;
        }
        false
    }

    /// The reconciled state of the application against the records the runtime listed.
    pub fn status(&self, existing: &Vec<ExistingAppContainer>) -> (r: AppRunningStatus)
        ensures
            r == classify(self.app, existing@),
    {
        let ghost ex = existing@;
        let ghost app = self.app;
        let n = self.app.containers.len();
        let mut any_created = false;
        let mut all_created = true;
        let mut i: usize = 0;
        while i < n
            invariant
                n == app.containers@.len(),
                ex == existing@,
                app == self.app,
                i <= n,
                any_created == exists|j: int| 0 <= j < i && is_created(app, ex, j),
                all_created == forall|j: int| 0 <= j < i ==> is_created(app, ex, j),
            decreases n - i,
        {
            if self.has_record(existing, i) {
                any_created = true;
            } else {
                all_created = false;
            }
            i += 1;
        }
        if !any_created {
            return AppRunningStatus::NotCreated;
        }
        if !all_created {
            return AppRunningStatus::PartiallyCreated;
        }
        let m = existing.len();
        let mut dead = false;
        let mut transitional = false;
        let mut exited = false;
        let mut stopped = true;
        let mut k: usize = 0;
        while k < m
            invariant
                m == ex.len(),
                ex == existing@,
                app == self.app,
                k <= m,
                dead == exists|j: int|
                    0 <= j < k && record_matches(app, #[trigger] ex[j]) && ex[j].status
                        == ExistingContainerStatus::Dead,
                transitional == exists|j: int|
                    0 <= j < k && record_matches(app, #[trigger] ex[j]) && (ex[j].status
                        == ExistingContainerStatus::Paused || ex[j].status
                        == ExistingContainerStatus::Removing || ex[j].status
                        == ExistingContainerStatus::Restarting),
                exited == exists|j: int|
                    0 <= j < k && record_matches(app, #[trigger] ex[j]) && ex[j].status
                        == ExistingContainerStatus::Exited,
                stopped == forall|j: int|
                    0 <= j < k && record_matches(app, #[trigger] ex[j]) ==> (ex[j].status
                        == ExistingContainerStatus::Created || ex[j].status
                        == ExistingContainerStatus::Exited),
            decreases m - k,
        {
            let e = &existing[k];
            if e.app_id.0 == self.app.id.0 && self.is_declared(e.container_id) {
                match e.status {
                    ExistingContainerStatus::Dead => {
                        dead = true;
                        stopped = false;
                    },
                    ExistingContainerStatus::Paused
                    | ExistingContainerStatus::Removing
                    | ExistingContainerStatus::Restarting => {
                        transitional = true;
                        stopped = false;
                    },
                    ExistingContainerStatus::Exited => {
                        exited = true;
                    },
                    ExistingContainerStatus::Created => {},
                    ExistingContainerStatus::Running => {
                        stopped = false;
                    },
                }
            }
            k += 1;
        }
        if dead {
            AppRunningStatus::Zombie
        } else if transitional {
            AppRunningStatus::Intermediary
        } else if stopped {
            AppRunningStatus::Stopped
        } else if exited {
            AppRunningStatus::PartiallyRunning
        } else {
            AppRunningStatus::FullyRunning
        }
    }

    /// Whether container `a` depends on container `b`.
    fn depends_on_index(&self, a: usize, b: usize) -> (r: bool)
        requires
            a < self.app.containers@.len(),
            b < self.app.containers@.len(),
        ensures
            r == depends(self.app, a as int, b as int),
    {
        let deps = &self.app.containers[a].depends_on;
        let name = self.app.containers[b].name.as_str();
        let n = deps.len();
        let mut k: usize = 0;
        while k < n
            invariant
                n == deps@.len(),
                *deps == self.app.containers@[a as int].depends_on,
                name@ == self.app.containers@[b as int].name@,
                k <= n,
                forall|j: int| 0 <= j < k ==> (#[trigger] deps@[j])@ != name@,
            decreases n - k,
        {
            if text_eq(deps[k].as_str(), name) {
                return true;
            }
            k += 1;
        }
        false
    }

    /// Whether container `c` depends on no container that is not yet placed.
    fn is_ready(&self, placed: &Vec<bool>, c: usize) -> (r: bool)
        requires
            placed@.len() == self.app.containers@.len(),
            c < placed@.len(),
        ensures
            r == forall|b: int|
                0 <= b < placed@.len() && !(#[trigger] placed@[b]) && b != c ==> !depends(
                    self.app,
                    c as int,
                    b,
                ),
    {
        let n = placed.len();
        let mut b: usize = 0;
        while b < n
            invariant
                n == placed@.len(),
                n == self.app.containers@.len(),
                c < n,
                b <= n,
                forall|x: int|
                    0 <= x < b && !(#[trigger] placed@[x]) && x != c ==> !depends(self.app, c as int, x),
            decreases n - b,
        {
            if !placed[b] && b != c && self.depends_on_index(c, b) {
                return false;
            }
            b += 1;
        }
        true
    }

    /// An order of the containers in which each comes after the containers it depends
    /// on; among the containers that can go next, the first declared goes first.
    pub fn sort_containers_by_deps(&self) -> (r: Result<Vec<usize>, RunnerError>)
        ensures
            r is Ok <==> !dependency_knot(self.app),
            r is Ok <==> dependency_order(self.app) is Some,
            r matches Ok(order) ==> valid_order(self.app, order@) && dependency_order(self.app)
                == Some(order@),
            r matches Err(e) ==> e is DependencyCycle,
    {
        let ghost app = self.app;
        let n = self.app.containers.len();
        let mut placed: Vec<bool> = Vec::new();
        while placed.len() < n
            invariant
                placed@.len() <= n,
                forall|x: int| 0 <= x < placed@.len() ==> !(#[trigger] placed@[x]),
            decreases n - placed@.len(),
        {
            placed.push(false);
        }
        assert(placed@ =~= Seq::new(n as nat, |i: int| false));
        let mut order: Vec<usize> = Vec::new();
        proof {
            assert(order@ =~= seq![]);
            lemma_extend_start(app, placed@);
        }
        while order.len() < n
            invariant
                app == self.app,
                n == app.containers@.len(),
                placed@.len() == n,
                order@.len() <= n,
                forall|i: int| 0 <= i < order@.len() ==> (#[trigger] order@[i]) < n && placed@[order@[i] as int],
                forall|x: int| 0 <= x < n && #[trigger] placed@[x] ==> order@.contains(x as usize),
                forall|i: int, j: int|
                    0 <= i < j < order@.len() ==> (#[trigger] order@[i]) != (#[trigger] order@[j]),
                forall|i: int, j: int|
                    0 <= i < j < order@.len() ==> !depends(app, #[trigger] order@[i] as int, #[trigger] order@[j] as int),
                forall|p: int, u: int|
                    0 <= p < n && 0 <= u < n && #[trigger] placed@[p] && !(#[trigger] placed@[u]) ==> !depends(app, p, u),
                extend_order(app, order@, placed@, (n - order@.len()) as nat) == dependency_order(app),
            decreases n - order@.len(),
        {
            let mut c: usize = 0;
            let mut found = false;
            let mut chosen: usize = 0;
            while c < n
                invariant
                    app == self.app,
                    n == app.containers@.len(),
                    placed@.len() == n,
                    c <= n,
                    found ==> c == n && chosen < n && !placed@[chosen as int] && forall|b: int|
                        0 <= b < n && !(#[trigger] placed@[b]) && b != chosen ==> !depends(
                            app,
                            chosen as int,
                            b,
                        ),
                    found ==> forall|x: int|
                        0 <= x < chosen && !(#[trigger] placed@[x]) ==> exists|b: int|
                            0 <= b < n && !placed@[b] && b != x && depends(app, x, b),
                    !found ==> forall|x: int|
                        0 <= x < c && !(#[trigger] placed@[x]) ==> exists|b: int|
                            0 <= b < n && !placed@[b] && b != x && depends(app, x, b),
                decreases n - c,
            {
                if !placed[c] && self.is_ready(&placed, c) {
                    found = true;
                    chosen = c;
                    c = n;
                } else {
                    c += 1;
                }
            }
            let c = chosen;
            if !found {
                proof {
                    let s = Set::new(|x: int| 0 <= x < n && !placed@[x]);
                    let full = vstd::set_lib::set_int_range(0, n as int);
                    assert(s <= full);
                    vstd::set_lib::lemma_int_range(0, n as int);
                    vstd::set_lib::lemma_len_subset(s, full);
                    if s.len() == 0 {
                        s.lemma_len0_is_empty();
                        let ints = order@.map_values(|v: usize| v as int);
                        assert forall|x: int| #[trigger] full.contains(x) implies ints.to_set().contains(x) by {
                            assert(!s.contains(x));
                            assert(placed@[x]);
                            assert(order@.contains(x as usize));
                            let i = choose|i: int| 0 <= i < order@.len() && order@[i] == x as usize;
                            assert(ints[i] == x);
                        }
                        ints.lemma_cardinality_of_set();
                        vstd::set_lib::lemma_len_subset(full, ints.to_set());
                        assert(false);
                    }
                    assert(s.len() > 0 && s.finite());
                    assert forall|x: int| #[trigger] s.contains(x) implies exists|b: int|
                        s.contains(b) && b != x && depends(app, x, b) by {
                        let b = choose|b: int| 0 <= b < n && !placed@[b] && b != x && depends(app, x, b);
                        assert(s.contains(b));
                    }
                }
                proof {
                    assert forall|x: int| !ready_in(app, placed@, x) by {
                        if ready_in(app, placed@, x) {
                            let b = choose|b: int| 0 <= b < n && !placed@[b] && b != x && depends(app, x, b);
                        }
                    }
                    lemma_greedy_stuck(app, order@, placed@, (n - order@.len()) as nat);
                }
                return Err(RunnerError::DependencyCycle);
            }
            proof {
                assert(ready_in(app, placed@, c as int));
                assert forall|d: int| 0 <= d < c implies !ready_in(app, placed@, d) by {
                    if ready_in(app, placed@, d) && !placed@[d] {
                        let b = choose|b: int| 0 <= b < n && !placed@[b] && b != d && depends(app, d, b);
                    }
                }
                lemma_first_ready_is(app, placed@, c as int);
                lemma_greedy_step(app, order@, placed@, c as int, (n - order@.len()) as nat);
                assert forall|i: int| 0 <= i < order@.len() implies !depends(app, #[trigger] order@[i] as int, c as int) by {
                    assert(placed@[order@[i] as int]);
                }
                assert forall|i: int| 0 <= i < order@.len() implies #[trigger] order@[i] != c by {
                    assert(placed@[order@[i] as int]);
                }
            }
            let ghost old_placed = placed@;
            let ghost old_order = order@;
            placed.set(c, true);
            order.push(c);
            proof {
                assert(placed@ == old_placed.update(c as int, true));
                assert(order@ == old_order.push(c));
                assert forall|x: int| 0 <= x < n && #[trigger] placed@[x] implies order@.contains(x as usize) by {
                    if x == c {
                        assert(order@[old_order.len() as int] == c);
                    } else {
                        assert(old_placed[x]);
                        let i = choose|i: int| 0 <= i < old_order.len() && old_order[i] == x as usize;
                        assert(order@[i] == x as usize);
                    }
                }
                assert forall|p: int, u: int|
                    0 <= p < n && 0 <= u < n && #[trigger] placed@[p] && !(#[trigger] placed@[u]) implies !depends(app, p, u) by {
                    assert(!old_placed[u]);
                    if p != c {
                        assert(old_placed[p]);
                    }
                }
            }
        }
        proof {
            if dependency_knot(app) {
                lemma_knot_excludes_order(app, order@);
            }
            lemma_extend_end(app, order@, placed@);
        }
        Ok(order)
    }

    /// The creation request for one container: its runtime name, image, environment
    /// and port bindings; disposable and internal volumes as anonymous volumes; external
    /// volumes mounted from their internal directory and bound paths from their path;
    /// the four identity labels; restart unless stopped.
    pub fn generate_container_config(&self, c: &AppContainer) -> (r: ContainerCreationConfig)
        ensures
            config_for(self.env, *c, r),
    {
        let ident = c.identity();
        assert(ident == identity_of(*c));
        let vols = &c.volumes;
        let n = vols.len();
        let mut anon: Vec<String> = Vec::new();
        let mut mounts: Vec<ContainerMount> = Vec::new();
        let mut i: usize = 0;
        while i < n
            invariant
                n == vols@.len(),
                *vols == c.volumes,
                ident == identity_of(*c),
                i <= n,
                anon@.map_values(|s: String| s@) == anon_volumes_of(vols@.subrange(0, i as int)),
                mounts@.map_values(|m: ContainerMount| mount_view(m)) == mounts_of(
                    self.env,
                    ident,
                    vols@.subrange(0, i as int),
                ),
            decreases n - i,
        {
            let ghost pre = vols@.subrange(0, i as int);
            let ghost next = vols@.subrange(0, i as int + 1);
            assert(next.drop_last() =~= pre);
            assert(next.last() == vols@[i as int]);
            let v = &vols[i];
            match &v.variant {
                AppVolumeType::Disposable | AppVolumeType::Internal => {
                    anon.push(v.name.clone());
                },
                AppVolumeType::External { container_path, readonly } => {
                    let host = self.env.app_container_internal_volume_dir(&ident, v.name.as_str());
                    mounts.push(
                        ContainerMount {
                            in_host: host,
                            in_container: container_path.clone(),
                            readonly: *readonly,
                        },
                    );
                },
                AppVolumeType::BindToPath { real_path, container_path, readonly } => {
                    mounts.push(
                        ContainerMount {
                            in_host: real_path.clone(),
                            in_container: container_path.clone(),
                            readonly: *readonly,
                        },
                    );
                },
            }
            i += 1;
            assert(anon@.map_values(|s: String| s@) =~= anon_volumes_of(next));
            assert(mounts@.map_values(|m: ContainerMount| mount_view(m)) =~= mounts_of(
                self.env,
                ident,
                next,
            ));
        }
        assert(vols@.subrange(0, n as int) =~= vols@);
        let mut labels: Vec<(String, String)> = Vec::new();
        labels.push((String::from_str(APP_ID_LABEL), c.app.id.encode()));
        labels.push((String::from_str(APP_NAME_LABEL), c.app.name.clone()));
        labels.push((String::from_str(CONTAINER_ID_LABEL), c.id.encode()));
        labels.push((String::from_str(CONTAINER_NAME_LABEL), c.name.clone()));
        ContainerCreationConfig {
            name: c.docker_container_name(),
            image: c.image.clone(),
            env: crate::templates::copy_env_vars(&c.env_vars),
            anon_volumes: anon,
            mounts,
            port_bindings: crate::templates::copy_port_bindings(&c.port_bindings),
            labels,
            restart_policy: ContainerRestartPolicy::UnlessStopped,
        }
    }

    /// The creation requests, in dependency order. Only an application with no
    /// container created yet may be created.
    pub fn plan_creation(&self, status: AppRunningStatus) -> (r: Result<
        Vec<ContainerCreationConfig>,
        RunnerError,
    >)
        ensures
            status != AppRunningStatus::NotCreated ==> (r matches Err(RunnerError::InvalidState(s))
                && s == status),
            status == AppRunningStatus::NotCreated ==> (r is Ok <==> !dependency_knot(self.app)),
            r matches Err(RunnerError::DependencyCycle) ==> dependency_knot(self.app),
            r matches Ok(cfgs) ==> exists|order: Seq<usize>|
                dependency_order(self.app) == Some(order) && valid_order(self.app, order)
                    && cfgs@.len() == order.len() && forall|i: int|
                    0 <= i < order.len() ==> config_for(
                        self.env,
                        self.app.containers@[#[trigger] order[i] as int],
                        cfgs@[i],
                    ),
    {
        if status != AppRunningStatus::NotCreated {
            return Err(RunnerError::InvalidState(status));
        }
        let order = match self.sort_containers_by_deps() {
            Ok(o) => o,
            Err(e) => return Err(e),
        };
        let n = order.len();
        let mut cfgs: Vec<ContainerCreationConfig> = Vec::new();
        let mut i: usize = 0;
        while i < n
            invariant
                n == order@.len(),
                valid_order(self.app, order@),
                i <= n,
                cfgs@.len() == i,
                forall|j: int|
                    0 <= j < i ==> config_for(
                        self.env,
                        self.app.containers@[#[trigger] order@[j] as int],
                        cfgs@[j],
                    ),
            decreases n - i,
        {
            assert(order@[i as int] < self.app.containers@.len());
            cfgs.push(self.generate_container_config(&self.app.containers[order[i]]));
            i += 1;
        }
        Ok(cfgs)
    }

    /// The runtime names of the containers to start, in dependency order: none when all
    /// run already; only a stopped or partially running application may be started.
    pub fn plan_start(&self, status: AppRunningStatus) -> (r: Result<Vec<String>, RunnerError>)
        ensures
            (status == AppRunningStatus::NotCreated || status == AppRunningStatus::PartiallyCreated
                || status == AppRunningStatus::Zombie || status == AppRunningStatus::Intermediary)
                ==> (r matches Err(RunnerError::InvalidState(s)) && s == status),
            status == AppRunningStatus::FullyRunning ==> (r matches Ok(v) && v@.len() == 0),
            (status == AppRunningStatus::Stopped || status == AppRunningStatus::PartiallyRunning)
                ==> (r is Ok <==> !dependency_knot(self.app)),
            r matches Err(RunnerError::DependencyCycle) ==> dependency_knot(self.app),
            status != AppRunningStatus::FullyRunning ==> (r matches Ok(names) ==> exists|
                order: Seq<usize>,
            |
                dependency_order(self.app) == Some(order) && valid_order(self.app, order)
                    && names@.len() == order.len() && forall|i: int|
                    0 <= i < order.len() ==> (#[trigger] names@[i])@ == runtime_name(
                        self.app.containers@[order[i] as int].app.id.0,
                        self.app.containers@[order[i] as int].id.0,
                        self.app.containers@[order[i] as int].name@,
                    )),
    {
        match status {
            AppRunningStatus::NotCreated
            | AppRunningStatus::PartiallyCreated
            | AppRunningStatus::Zombie
            | AppRunningStatus::Intermediary => {
                return Err(RunnerError::InvalidState(status));
            },
            AppRunningStatus::FullyRunning => {
                return Ok(Vec::new());
            },
            AppRunningStatus::Stopped | AppRunningStatus::PartiallyRunning => {},
        }
        let order = match self.sort_containers_by_deps() {
            Ok(o) => o,
            Err(e) => return Err(e),
        };
        let n = order.len();
        let mut names: Vec<String> = Vec::new();
        let mut i: usize = 0;
        while i < n
            invariant
                n == order@.len(),
                valid_order(self.app, order@),
                i <= n,
                names@.len() == i,
                forall|j: int|
                    0 <= j < i ==> (#[trigger] names@[j])@ == runtime_name(
                        self.app.containers@[order@[j] as int].app.id.0,
                        self.app.containers@[order@[j] as int].id.0,
                        self.app.containers@[order@[j] as int].name@,
                    ),
            decreases n - i,
        {
            assert(order@[i as int] < self.app.containers@.len());
            names.push(self.app.containers[order[i]].docker_container_name());
            i += 1;
        }
        Ok(names)
    }

    /// The runtime ids of every record of the application, whatever its status: each
    /// gets one stop request, all issued together.
    pub fn stop_targets(&self, existing: &Vec<ExistingAppContainer>) -> (r: Vec<String>)
        ensures
            r@.map_values(|s: String| s@) == stop_ids(self.app, existing@),
    {
        let n = existing.len();
        let mut r: Vec<String> = Vec::new();
        let mut i: usize = 0;
        while i < n
            invariant
                n == existing@.len(),
                i <= n,
                r@.map_values(|s: String| s@) == stop_ids(self.app, existing@.subrange(0, i as int)),
            decreases n - i,
        {
            let ghost next = existing@.subrange(0, i as int + 1);
            assert(next.drop_last() =~= existing@.subrange(0, i as int));
            if existing[i].app_id.0 == self.app.id.0 {
                r.push(existing[i].docker_container_id.clone());
            }
            i += 1;
            assert(r@.map_values(|s: String| s@) =~= stop_ids(self.app, next));
        }
        assert(existing@.subrange(0, n as int) =~= existing@);
        r
    }

    /// Succeeds only when no runtime record of the application remains.
    pub fn ensure_can_be_removed(&self, existing: &Vec<ExistingAppContainer>) -> (r: Result<(), RunnerError>)
        ensures
            r is Ok <==> forall|k: int| 0 <= k < existing@.len() ==> (#[trigger] existing@[k]).app_id != self.app.id,
            r matches Err(e) ==> e is ContainersRemain,
    {
        let n = existing.len();
        let mut i: usize = 0;
        while i < n
            invariant
                n == existing@.len(),
                i <= n,
                forall|k: int| 0 <= k < i ==> (#[trigger] existing@[k]).app_id != self.app.id,
            decreases n - i,
        {
            if existing[i].app_id.0 == self.app.id.0 {
                return Err(RunnerError::ContainersRemain);
            }
            i += 1;
        }
        Ok(())
    }

    /// The records of this application among the runtime's containers, in listing
    /// order; containers that are not managed, belong elsewhere or cannot be read are
    /// left out.
    #[verifier::rlimit(60)]
    pub fn existing_records(&self, raw: Vec<ExistingContainer>) -> (r: Vec<ExistingAppContainer>)
        ensures
            r@.map_values(|e: ExistingAppContainer| record_view(e)) == expected_records(self.app, raw@),
            forall|k: int| 0 <= k < r@.len() ==> read_from(self.app, raw@, #[trigger] r@[k]),
            forall|i: int|
                0 <= i < raw@.len() && belongs_to(self.app, #[trigger] raw@[i]) ==> exists|k: int|
                    0 <= k < r@.len() && decodes_as(raw@[i], r@[k]),
    {
        let ghost rs = raw@;
        let n = raw.len();
        let mut rest = raw;
        let mut found: Vec<ExistingAppContainer> = Vec::new();
        let ghost mut src: Seq<int> = seq![];
        let ghost mut dst: Seq<int> = seq![];
        let mut t: usize = 0;
        while t < n
            invariant
                n == rs.len(),
                rs == raw@,
                t <= n,
                rest@ == rs.subrange(t as int, n as int),
                src.len() == found@.len(),
                dst.len() == t,
                found@.map_values(|e: ExistingAppContainer| record_view(e)) == expected_records(
                    self.app,
                    rs.subrange(0, t as int),
                ),
                forall|k: int|
                    0 <= k < found@.len() ==> 0 <= #[trigger] src[k] < t && belongs_to(self.app, rs[src[k]])
                        && decodes_as(rs[src[k]], found@[k]),
                forall|i: int|
                    0 <= i < t && belongs_to(self.app, rs[i]) ==> 0 <= #[trigger] dst[i] < found@.len()
                        && decodes_as(rs[i], found@[dst[i]]),
            decreases n - t,
        {
            let c = rest.remove(0);
            assert(c == rs[t as int]);
            let ghost before = found@;
            let ghost next = rs.subrange(0, t as int + 1);
            assert(next.drop_last() =~= rs.subrange(0, t as int));
            assert(next.last() == rs[t as int]);
            match self.app.decode_container(c) {
                Ok(Some(e)) => {
                    found.push(e);
                    proof {
                        src = src.push(t as int);
                        dst = dst.push(before.len() as int);
                        assert(record_view(e) == decoded_view(rs[t as int]));
                        assert(found@.map_values(|e: ExistingAppContainer| record_view(e)) =~= expected_records(self.app, next));
                        assert forall|k: int| 0 <= k < before.len() implies found@[k] == before[k] by {}
                    }
                },
                _ => {
                    proof {
                        dst = dst.push(0);
                        assert(found@.map_values(|e: ExistingAppContainer| record_view(e)) =~= expected_records(self.app, next));
                    }
                },
            }
            t += 1;
        }
        assert(rs.subrange(0, n as int) =~= rs);
        assert forall|k: int| 0 <= k < found@.len() implies read_from(self.app, raw@, #[trigger] found@[k]) by {
            let i = src[k];
            assert(0 <= i < raw@.len() && belongs_to(self.app, raw@[i]) && decodes_as(raw@[i], found@[k]));
        }
        assert forall|i: int|
            0 <= i < raw@.len() && belongs_to(self.app, #[trigger] raw@[i]) implies exists|k: int|
                0 <= k < found@.len() && decodes_as(raw@[i], found@[k]) by {
            let k = dst[i];
            assert(0 <= k < found@.len() && decodes_as(raw@[i], found@[k]));
        }
        found
    }
}

/// The outcome of issuing every stop request together: the position of the first that
/// failed, or `None` when all succeeded. Every request runs to its end either way.
pub fn first_failure(succeeded: &Vec<bool>) -> (r: Option<usize>)
    ensures
        r is None <==> forall|i: int| 0 <= i < succeeded@.len() ==> #[trigger] succeeded@[i],
        r matches Some(i) ==> i < succeeded@.len() && !succeeded@[i as int] && forall|j: int|
            0 <= j < i ==> #[trigger] succeeded@[j],
{
    let n = succeeded.len();
    let mut i: usize = 0;
    while i < n
        invariant
            n == succeeded@.len(),
            i <= n,
            forall|j: int| 0 <= j < i ==> #[trigger] succeeded@[j],
        decreases n - i,
    {
        if !succeeded[i] {
            return Some(i);
        }
        i += 1;
    }
    None
}

} // verus!
