//! The registry of applications and the decisions of its debounced persistence.
//!
//! Every write access to the registry marks it modified when it ends, whether or not
//! it changed anything. A background loop polls once per interval; the decision of each
//! poll is `saver_step`: a modification seen on a poll postpones the save by one full
//! interval, so a burst of modifications leads to a single write.
use vstd::prelude::*;
use crate::app::{App, app_error_is, app_template_valid, built_from, same_app};
use crate::containers::ValidationError;
use crate::existing::ExistingAppContainer;
use crate::ids::AppId;
use crate::runner::{AppRunner, RunnerError};
use crate::templates::AppTemplate;
use crate::text::text_eq;

verus! {

/// The persisted user data: every application.
#[derive(Debug, Clone)]
pub struct UserData {
    pub apps: Vec<App>,
}

impl UserData {
    /// No application.
    pub fn new() -> (r: UserData)
        ensures
            r.apps@.len() == 0,
    {
        UserData { apps: Vec::new() }
    }
}

impl Default for UserData {
    fn default() -> (r: UserData)
        ensures
            r.apps@.len() == 0,
    {
        UserData::new()
    }
}

/// Where the user data stands with respect to the last save.
#[derive(Debug, Clone, Copy, PartialEq, Eq, Structural)]
pub enum UserDataSavingState {
    /// No modification since the last save.
    Unchanged,
    /// Modified since the last poll.
    Modified,
    /// Modified earlier, and a full interval is being waited without modification.
    WaitingForSave,
}

/// What the save loop does after a poll.
#[derive(Debug, Clone, Copy, PartialEq, Eq, Structural)]
pub enum SaverAction {
    /// Sleep one interval.
    Sleep,
    /// Write the user data, then sleep one interval.
    Save,
}

/// One poll: unchanged data waits; fresh modifications start a quiet interval; a quiet
/// interval that passed without modification leads to the write.
pub open spec fn saver_transition(s: UserDataSavingState) -> (SaverAction, UserDataSavingState) {
    match s {
        UserDataSavingState::Unchanged => (SaverAction::Sleep, UserDataSavingState::Unchanged),
        UserDataSavingState::Modified => (SaverAction::Sleep, UserDataSavingState::WaitingForSave),
        UserDataSavingState::WaitingForSave => (SaverAction::Save, UserDataSavingState::Unchanged),
    }
}

/// The decision of one poll of the save loop, and the state it leaves.
pub fn saver_step(s: UserDataSavingState) -> (r: (SaverAction, UserDataSavingState))
    ensures
        r == saver_transition(s),
{
    match s {
        UserDataSavingState::Unchanged => (SaverAction::Sleep, UserDataSavingState::Unchanged),
        UserDataSavingState::Modified => (SaverAction::Sleep, UserDataSavingState::WaitingForSave),
        UserDataSavingState::WaitingForSave => (SaverAction::Save, UserDataSavingState::Unchanged),
    }
}

/// What happens to the registry between polls.
#[derive(Debug, Clone, Copy, PartialEq, Eq, Structural)]
pub enum SaverEvent {
    /// A write access ended.
    Modify,
    /// The save loop polled.
    Tick,
}

/// The saving state and the number of writes after a sequence of events.
pub open spec fn run_events(s: UserDataSavingState, events: Seq<SaverEvent>) -> (UserDataSavingState, nat)
    decreases events.len(),
{
    if events.len() == 0 {
        (s, 0)
    } else {
        let (t, n) = run_events(s, events.drop_last());
        match events.last() {
            SaverEvent::Modify => (UserDataSavingState::Modified, n),
            SaverEvent::Tick => {
                let (a, u) = saver_transition(t);
                (u, if a == SaverAction::Save { n + 1 } else { n })
            },
        }
    }
}

/// A poll right after a modification never writes: the write waits for a whole
/// interval without modification.
pub proof fn lemma_modification_postpones_save(s: UserDataSavingState, events: Seq<SaverEvent>)
    requires
        events.len() > 0,
        events.last() == SaverEvent::Modify,
    ensures
        run_events(s, events.push(SaverEvent::Tick)).1 == run_events(s, events).1,
        run_events(s, events.push(SaverEvent::Tick)).0 == UserDataSavingState::WaitingForSave,
{
    assert(events.push(SaverEvent::Tick).drop_last() =~= events);
}

/// `n` modifications in a row.
pub open spec fn modifications(n: nat) -> Seq<SaverEvent> {
    Seq::new(n, |i: int| SaverEvent::Modify)
}

/// `n` polls in a row.
pub open spec fn polls(n: nat) -> Seq<SaverEvent> {
    Seq::new(n, |i: int| SaverEvent::Tick)
}

/// After modifications the state is modified and no write happened meanwhile.
proof fn lemma_after_modifications(s: UserDataSavingState, pre: Seq<SaverEvent>, n: nat)
    requires
        n >= 1,
    ensures
        run_events(s, pre + modifications(n)) == (UserDataSavingState::Modified, run_events(s, pre).1),
    decreases n,
{
    let e = pre + modifications(n);
    assert(e.last() == SaverEvent::Modify);
    if n == 1 {
        assert(e.drop_last() =~= pre);
    } else {
        lemma_after_modifications(s, pre, (n - 1) as nat);
        assert(e.drop_last() =~= pre + modifications((n - 1) as nat));
    }
}

/// From a modified state, two or more polls make exactly one write and leave the data
/// unchanged.
proof fn lemma_polls_after_modification(s: UserDataSavingState, pre: Seq<SaverEvent>, n: nat)
    requires
        n >= 2,
        run_events(s, pre).0 == UserDataSavingState::Modified,
    ensures
        run_events(s, pre + polls(n)) == (UserDataSavingState::Unchanged, run_events(s, pre).1 + 1),
    decreases n,
{
    let e = pre + polls(n);
    assert(e.last() == SaverEvent::Tick);
    if n == 2 {
        let e1 = pre + polls(1);
        assert(e1.drop_last() =~= pre);
        assert(e1.last() == SaverEvent::Tick);
        assert(run_events(s, e1) == (UserDataSavingState::WaitingForSave, run_events(s, pre).1));
        assert(e.drop_last() =~= e1);
        assert(run_events(s, e) == (UserDataSavingState::Unchanged, run_events(s, pre).1 + 1));
    } else {
        lemma_polls_after_modification(s, pre, (n - 1) as nat);
        assert(e.drop_last() =~= pre + polls((n - 1) as nat));
        assert(run_events(s, e) == (UserDataSavingState::Unchanged, run_events(s, pre).1 + 1));
    }
}

/// Any burst of modifications that comes between two polls, followed by polls, leads to
/// exactly one write: the burst's modifications are coalesced.
pub proof fn lemma_burst_saved_once(s: UserDataSavingState, burst: nat, n: nat)
    requires
        burst >= 1,
        n >= 2,
    ensures
        run_events(s, modifications(burst) + polls(n)) == (UserDataSavingState::Unchanged, 1nat),
{
    lemma_after_modifications(s, seq![], burst);
    assert(Seq::<SaverEvent>::empty() + modifications(burst) =~= modifications(burst));
    lemma_polls_after_modification(s, modifications(burst), n);
}

/// A burst that one poll splits in two, followed by polls, also leads to exactly one
/// write: the poll inside the burst sees a fresh modification and only starts the quiet
/// interval, which the second part of the burst restarts.
pub proof fn lemma_split_burst_saved_once(s: UserDataSavingState, first: nat, second: nat, n: nat)
    requires
        first >= 1,
        second >= 1,
        n >= 2,
    ensures
        run_events(s, modifications(first) + polls(1) + modifications(second) + polls(n)) == (
            UserDataSavingState::Unchanged,
            1nat,
        ),
{
    let a = modifications(first);
    lemma_after_modifications(s, seq![], first);
    assert(Seq::<SaverEvent>::empty() + a =~= a);
    let b = a + polls(1);
    assert(b.drop_last() =~= a);
    assert(b.last() == SaverEvent::Tick);
    assert(run_events(s, b) == (UserDataSavingState::WaitingForSave, 0nat));
    lemma_after_modifications(s, b, second);
    lemma_polls_after_modification(s, b + modifications(second), n);
}

/// Why a registry operation was refused.
#[derive(Debug, Clone)]
pub enum RegistryError {
    /// An application of this name already exists.
    DuplicateAppName,
    /// No application has this id.
    AppNotFound,
    /// The application template is invalid.
    Validation(ValidationError),
    /// The runner refused.
    Runner(RunnerError),
}

/// The single registry of applications with its saving state.
#[derive(Debug)]
pub struct Registry {
    user_data: UserData,
    saving_state: UserDataSavingState,
}

/// Some application has this name.
pub open spec fn has_app_named(apps: Seq<App>, n: Seq<char>) -> bool {
    exists|i: int| 0 <= i < apps.len() && (#[trigger] apps[i]).name@ == n
}

/// Some application has this id.
pub open spec fn has_app_id(apps: Seq<App>, id: AppId) -> bool {
    exists|i: int| 0 <= i < apps.len() && (#[trigger] apps[i]).id == id
}

impl Registry {
    pub closed spec fn apps(&self) -> Seq<App> {
        self.user_data.apps@
    }

    pub closed spec fn state(&self) -> UserDataSavingState {
        self.saving_state
    }

    /// Every application is well formed.
    pub open spec fn wf(&self) -> bool {
        forall|i: int| 0 <= i < self.apps().len() ==> (#[trigger] self.apps()[i]).wf()
    }

    /// Whether every application is well formed.
    pub fn is_well_formed(&self) -> (r: bool)
        ensures
            r == self.wf(),
    {
        let n = self.user_data.apps.len();
        let mut i: usize = 0;
        while i < n
            invariant
                n == self.apps().len(),
                i <= n,
                forall|k: int| 0 <= k < i ==> (#[trigger] self.apps()[k]).wf(),
            decreases n - i,
        {
            if !self.user_data.apps[i].is_well_formed() {
                return false;
            }
            i += 1;
        }
        true
    }

    /// A registry over the loaded user data, or over none; nothing to save yet.
    pub fn new(user_data: Option<UserData>) -> (r: Registry)
        ensures
            user_data matches Some(d) ==> r.apps() == d.apps@,
            user_data is None ==> r.apps().len() == 0,
            r.state() == UserDataSavingState::Unchanged,
    {
        let user_data = match user_data {
            Some(d) => d,
            None => UserData::new(),
        };
        Registry { user_data, saving_state: UserDataSavingState::Unchanged }
    }

    /// Read access to the user data.
    pub fn user_data(&self) -> (r: &UserData)
        ensures
            r.apps@ == self.apps(),
    {
        &self.user_data
    }

    /// Every application.
    pub fn list_apps(&self) -> (r: &Vec<App>)
        ensures
            r@ == self.apps(),
    {
        &self.user_data.apps
    }

    /// The saving state.
    pub fn saving_state(&self) -> (r: UserDataSavingState)
        ensures
            r == self.state(),
    {
        self.saving_state
    }

    /// The end of a write access: the data counts as modified.
    pub fn mark_modified(&mut self)
        ensures
            final(self).apps() == old(self).apps(),
            final(self).state() == UserDataSavingState::Modified,
    {
        self.saving_state = UserDataSavingState::Modified;
    }

    /// One poll of the save loop: its decision, with the state updated.
    pub fn saver_tick(&mut self) -> (r: SaverAction)
        ensures
            (r, final(self).state()) == saver_transition(old(self).state()),
            final(self).apps() == old(self).apps(),
    {
        let (a, s) = saver_step(self.saving_state);
        self.saving_state = s;
        a
    }

    /// The position of the application with this id.
    pub fn find_app(&self, id: AppId) -> (r: Option<usize>)
        ensures
            r is None <==> !has_app_id(self.apps(), id),
            r matches Some(i) ==> i < self.apps().len() && self.apps()[i as int].id == id,
    {
        let n = self.user_data.apps.len();
        let mut i: usize = 0;
        while i < n
            invariant
                n == self.apps().len(),
                i <= n,
                forall|k: int| 0 <= k < i ==> (#[trigger] self.apps()[k]).id != id,
            decreases n - i,
        {
            if self.user_data.apps[i].id.0 == id.0 {
                return Some(i);
            }
            i += 1;
        }
        None
    }

    /// The application with this id.
    pub fn get_app(&self, id: AppId) -> (r: Option<&App>)
        ensures
            r is None <==> !has_app_id(self.apps(), id),
            r matches Some(a) ==> a.id == id && exists|i: int|
                0 <= i < self.apps().len() && self.apps()[i] == *a,
    {
        match self.find_app(id) {
            Some(i) => Some(&self.user_data.apps[i]),
            None => None,
        }
    }

    /// Creates an application from a template and adds it. The write access marks the
    /// registry modified, whatever the outcome.
    pub fn create_app(&mut self, input: AppTemplate, created_on: u64) -> (r: Result<AppId, RegistryError>)
        requires
            old(self).wf(),
        ensures
            final(self).wf(),
            final(self).state() == UserDataSavingState::Modified,
            has_app_named(old(self).apps(), input.name@) ==> (r matches Err(
                RegistryError::DuplicateAppName,
            ) && final(self).apps() == old(self).apps()),
            !has_app_named(old(self).apps(), input.name@) ==> (r is Ok <==> app_template_valid(
                input,
            )),
            r matches Err(RegistryError::Validation(e)) ==> app_error_is(input, e)
                && final(self).apps() == old(self).apps(),
            r matches Ok(id) ==> exists|app: App|
                final(self).apps() == old(self).apps().push(app) && app.id == id && built_from(
                    app,
                    input,
                    created_on,
                ),
    {
        self.saving_state = UserDataSavingState::Modified;
        let n = self.user_data.apps.len();
        let mut i: usize = 0;
        while i < n
            invariant
                n == self.apps().len(),
                self.apps() == old(self).apps(),
                self.wf(),
                self.state() == UserDataSavingState::Modified,
                i <= n,
                forall|k: int| 0 <= k < i ==> (#[trigger] self.apps()[k]).name@ != input.name@,
            decreases n - i,
        {
            if text_eq(self.user_data.apps[i].name.as_str(), input.name.as_str()) {
                return Err(RegistryError::DuplicateAppName);
            }
            i += 1;
        }
        match App::new(input, created_on) {
            Err(e) => Err(RegistryError::Validation(e)),
            Ok(app) => {
                let id = app.id;
                let ghost before = self.apps();
                self.user_data.apps.push(app);
                assert(self.apps() == before.push(app));
                assert forall|k: int| 0 <= k < self.apps().len() implies (#[trigger] self.apps()[k]).wf() by {
                    if k < before.len() {
                        assert(self.apps()[k] == before[k]);
                        assert(before[k].wf());
                    }
                }
                Ok(id)
            },
        }
    }

    /// Removes an application, only when none of its runtime containers remain. The
    /// write access, and the mark, happen only once both checks passed.
    pub fn remove_app(&mut self, id: AppId, existing: &Vec<ExistingAppContainer>) -> (r: Result<
        (),
        RegistryError,
    >)
        requires
            old(self).wf(),
        ensures
            final(self).wf(),
            !has_app_id(old(self).apps(), id) ==> (r matches Err(RegistryError::AppNotFound)),
            r is Err ==> *final(self) == *old(self),
            r matches Err(RegistryError::Runner(e)) ==> e is ContainersRemain && exists|k: int|
                0 <= k < existing@.len() && (#[trigger] existing@[k]).app_id == id,
            has_app_id(old(self).apps(), id) && (forall|k: int|
                0 <= k < existing@.len() ==> (#[trigger] existing@[k]).app_id != id) ==> r is Ok,
            r is Ok ==> forall|k: int| 0 <= k < existing@.len() ==> (#[trigger] existing@[k]).app_id != id,
            r is Ok ==> final(self).state() == UserDataSavingState::Modified && exists|i: int|
                0 <= i < old(self).apps().len() && old(self).apps()[i].id == id && final(self).apps()
                    == old(self).apps().remove(i),
    {
        let i = match self.find_app(id) {
            None => return Err(RegistryError::AppNotFound),
            Some(i) => i,
        };
        let n = existing.len();
        let mut k: usize = 0;
        while k < n
            invariant
                n == existing@.len(),
                *self == *old(self),
                self.wf(),
                i < self.apps().len(),
                self.apps()[i as int].id == id,
                k <= n,
                forall|j: int| 0 <= j < k ==> (#[trigger] existing@[j]).app_id != id,
            decreases n - k,
        {
            if existing[k].app_id.0 == id.0 {
                return Err(RegistryError::Runner(RunnerError::ContainersRemain));
            }
            k += 1;
        }
        let ghost before = self.apps();
        self.saving_state = UserDataSavingState::Modified;
        self.user_data.apps.remove(i);
        assert forall|j: int| 0 <= j < self.apps().len() implies (#[trigger] self.apps()[j]).wf() by {
            if j < i {
                assert(self.apps()[j] == before[j]);
            } else {
                assert(self.apps()[j] == before[j + 1]);
            }
        }
        Ok(())
    }

    /// A runner for the application with this id.
    pub fn get_runner_for(&self, env: crate::env::AppRunnerEnvironment, id: AppId) -> (r: Result<AppRunner, RegistryError>)
        ensures
            r is Err <==> !has_app_id(self.apps(), id),
            r matches Err(e) ==> e is AppNotFound,
            r matches Ok(runner) ==> runner.env == env && runner.app.id == id && exists|i: int|
                0 <= i < self.apps().len() && same_app(runner.app, self.apps()[i]),
    {
        match self.find_app(id) {
            None => Err(RegistryError::AppNotFound),
            Some(i) => Ok(AppRunner::new(env, self.user_data.apps[i].duplicate())),
        }
    }
}

} // verus!
