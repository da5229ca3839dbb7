//! Host-side directory layout for the volumes that the runner manages.
use vstd::prelude::*;
use crate::app::AppIdentity;
use crate::containers::AppContainerIdentity;
use crate::ids::b62_text;
use crate::text::concat;

verus! {

/// Where the runner keeps its data.
#[derive(Debug, Clone)]
pub struct AppRunnerConfig {
    pub data_dir: String,
}

/// The runner's directory layout.
#[derive(Debug, Clone)]
pub struct AppRunnerEnvironment {
    pub apps_dir: String,
}

/// `a/b`.
pub open spec fn join(a: Seq<char>, b: Seq<char>) -> Seq<char> {
    a + seq!['/'] + b
}

/// `name-id`, with the id in base 62.
pub open spec fn dir_name(name: Seq<char>, id: u64) -> Seq<char> {
    name + seq!['-'] + b62_text(id as nat)
}

/// Joins two path parts with `/`.
pub fn join_path(a: &str, b: &str) -> (r: String)
    ensures
        r@ == join(a@, b@),
{
    proof {
        reveal_strlit("/");
    }
    let s = concat(a, "/");
    assert("/"@ =~= seq!['/']);
    concat(s.as_str(), b)
}

/// `name-id`, from a name and the text of an id.
pub fn dir_name_of(name: &str, id_text: &str) -> (r: String)
    ensures
        r@ == name@ + seq!['-'] + id_text@,
{
    proof {
        reveal_strlit("-");
    }
    let s = concat(name, "-");
    assert("-"@ =~= seq!['-']);
    concat(s.as_str(), id_text)
}

impl AppRunnerEnvironment {
    pub open spec fn spec_app_dir(&self, app: AppIdentity) -> Seq<char> {
        join(self.apps_dir@, dir_name(app.name@, app.id.0))
    }

    pub open spec fn spec_app_containers_dir(&self, app: AppIdentity) -> Seq<char> {
        join(self.spec_app_dir(app), "containers"@)
    }

    pub open spec fn spec_app_container_dir(&self, c: AppContainerIdentity) -> Seq<char> {
        join(self.spec_app_containers_dir(c.app), dir_name(c.name@, c.id.0))
    }

    pub open spec fn spec_internal_volumes_dir(&self, c: AppContainerIdentity) -> Seq<char> {
        join(self.spec_app_container_dir(c), "internal-volumes"@)
    }

    pub open spec fn spec_internal_volume_dir(&self, c: AppContainerIdentity, volume: Seq<char>) -> Seq<char> {
        join(self.spec_internal_volumes_dir(c), volume)
    }

    /// The layout under `data_dir/apps`.
    pub fn new(config: AppRunnerConfig) -> (r: AppRunnerEnvironment)
        ensures
            r.apps_dir@ == join(config.data_dir@, "apps"@),
    {
        AppRunnerEnvironment { apps_dir: join_path(config.data_dir.as_str(), "apps") }
    }

    /// `apps/<name>-<id>`.
    pub fn app_dir(&self, app: &AppIdentity) -> (r: String)
        ensures
            r@ == self.spec_app_dir(*app),
    {
        let d = dir_name_of(app.name.as_str(), app.id.encode().as_str());
        join_path(self.apps_dir.as_str(), d.as_str())
    }

    /// `apps/<app>/containers`.
    pub fn app_containers_dir(&self, app: &AppIdentity) -> (r: String)
        ensures
            r@ == self.spec_app_containers_dir(*app),
    {
        join_path(self.app_dir(app).as_str(), "containers")
    }

    /// `apps/<app>/containers/<name>-<id>`.
    pub fn app_container_dir(&self, container: &AppContainerIdentity) -> (r: String)
        ensures
            r@ == self.spec_app_container_dir(*container),
    {
        let d = dir_name_of(container.name.as_str(), container.id.encode().as_str());
        join_path(self.app_containers_dir(&container.app).as_str(), d.as_str())
    }

    /// `apps/<app>/containers/<container>/internal-volumes`.
    pub fn app_container_internal_volumes_dir(&self, container: &AppContainerIdentity) -> (r: String)
        ensures
            r@ == self.spec_internal_volumes_dir(*container),
    {
        join_path(self.app_container_dir(container).as_str(), "internal-volumes")
    }

    /// `apps/<app>/containers/<container>/internal-volumes/<volume>`.
    pub fn app_container_internal_volume_dir(
        &self,
        container: &AppContainerIdentity,
        volume_name: &str,
    ) -> (r: String)
        ensures
            r@ == self.spec_internal_volume_dir(*container, volume_name@),
    {
        join_path(self.app_container_internal_volumes_dir(container).as_str(), volume_name)
    }
}

} // verus!
