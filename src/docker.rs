//! What the library knows of the container runtime: the records it lists, the naming
//! and label conventions, and the requests it is sent.
use vstd::prelude::*;
use crate::networking::ContainerPortBinding;
use crate::templates::ContainerEnvironmentVar;

verus! {

/// The prefix of the name of every runtime container that this system manages.
pub const NAME_PREFIX: &'static str = "onix_";

/// Label holding the encoded application id.
pub const APP_ID_LABEL: &'static str = "onix.app-id";

/// Label holding the application name.
pub const APP_NAME_LABEL: &'static str = "onix.app-name";

/// Label holding the encoded container id.
pub const CONTAINER_ID_LABEL: &'static str = "onix.container-id";

/// Label holding the container name.
pub const CONTAINER_NAME_LABEL: &'static str = "onix.container-name";

pub open spec fn name_prefix() -> Seq<char> {
    seq!['o', 'n', 'i', 'x', '_']
}

/// The status of a runtime container.
#[derive(Debug, Clone, Copy, PartialEq, Eq, Structural)]
pub enum ExistingContainerStatus {
    Created,
    Restarting,
    Running,
    Removing,
    Paused,
    Exited,
    Dead,
}

/// The runtime's state token for each status.
pub open spec fn status_token(s: ExistingContainerStatus) -> Seq<char> {
    match s {
        ExistingContainerStatus::Created => seq!['c', 'r', 'e', 'a', 't', 'e', 'd'],
        ExistingContainerStatus::Restarting => seq!['r', 'e', 's', 't', 'a', 'r', 't', 'i', 'n', 'g'],
        ExistingContainerStatus::Running => seq!['r', 'u', 'n', 'n', 'i', 'n', 'g'],
        ExistingContainerStatus::Removing => seq!['r', 'e', 'm', 'o', 'v', 'i', 'n', 'g'],
        ExistingContainerStatus::Paused => seq!['p', 'a', 'u', 's', 'e', 'd'],
        ExistingContainerStatus::Exited => seq!['e', 'x', 'i', 't', 'e', 'd'],
        ExistingContainerStatus::Dead => seq!['d', 'e', 'a', 'd'],
    }
}

/// A state token that is none of the known ones.
#[derive(Debug, Clone, PartialEq, Eq)]
pub struct UnknownStatus {
    pub token: String,
}

impl ExistingContainerStatus {
    /// Reads a runtime state token.
    pub fn decode(input: &str) -> (r: Result<ExistingContainerStatus, UnknownStatus>)
        ensures
            r matches Ok(s) ==> status_token(s) == input@,
            r is Err <==> (forall|s: ExistingContainerStatus| status_token(s) != input@),
            r matches Err(e) ==> e.token@ == input@,
    {
        proof {
            reveal_strlit("created");
            reveal_strlit("running");
            reveal_strlit("paused");
            reveal_strlit("restarting");
            reveal_strlit("removing");
            reveal_strlit("exited");
            reveal_strlit("dead");
        }
        if crate::text::text_eq(input, "created") {
            assert("created"@ =~= status_token(ExistingContainerStatus::Created));
            Ok(ExistingContainerStatus::Created)
        } else if crate::text::text_eq(input, "running") {
            assert("running"@ =~= status_token(ExistingContainerStatus::Running));
            Ok(ExistingContainerStatus::Running)
        } else if crate::text::text_eq(input, "paused") {
            assert("paused"@ =~= status_token(ExistingContainerStatus::Paused));
            Ok(ExistingContainerStatus::Paused)
        } else if crate::text::text_eq(input, "restarting") {
            assert("restarting"@ =~= status_token(ExistingContainerStatus::Restarting));
            Ok(ExistingContainerStatus::Restarting)
        } else if crate::text::text_eq(input, "removing") {
            assert("removing"@ =~= status_token(ExistingContainerStatus::Removing));
            Ok(ExistingContainerStatus::Removing)
        } else if crate::text::text_eq(input, "exited") {
            assert("exited"@ =~= status_token(ExistingContainerStatus::Exited));
            Ok(ExistingContainerStatus::Exited)
        } else if crate::text::text_eq(input, "dead") {
            assert("dead"@ =~= status_token(ExistingContainerStatus::Dead));
            Ok(ExistingContainerStatus::Dead)
        } else {
            assert forall|s: ExistingContainerStatus| status_token(s) != input@ by {
                assert("created"@ =~= status_token(ExistingContainerStatus::Created));
                assert("running"@ =~= status_token(ExistingContainerStatus::Running));
                assert("paused"@ =~= status_token(ExistingContainerStatus::Paused));
                assert("restarting"@ =~= status_token(ExistingContainerStatus::Restarting));
                assert("removing"@ =~= status_token(ExistingContainerStatus::Removing));
                assert("exited"@ =~= status_token(ExistingContainerStatus::Exited));
                assert("dead"@ =~= status_token(ExistingContainerStatus::Dead));
            }
            Err(UnknownStatus { token: String::from_str(input) })
        }
    }

    /// Whether the container holds or may soon hold a running process.
    pub fn running_like(&self) -> (r: bool)
        ensures
            r == (*self == ExistingContainerStatus::Created || *self
                == ExistingContainerStatus::Restarting || *self == ExistingContainerStatus::Running
                || *self == ExistingContainerStatus::Paused),
    {
        match self {
            ExistingContainerStatus::Created
            | ExistingContainerStatus::Restarting
            | ExistingContainerStatus::Running
            | ExistingContainerStatus::Paused => true,
            ExistingContainerStatus::Removing
            | ExistingContainerStatus::Exited
            | ExistingContainerStatus::Dead => false,
        }
    }
}

/// One container as the runtime lists it.
#[derive(Debug, Clone)]
pub struct ExistingContainer {
    pub docker_container_id: String,
    pub names: Vec<String>,
    /// Label keys and values; where a key repeats, its first entry counts.
    pub labels: Vec<(String, String)>,
    pub status: ExistingContainerStatus,
}

/// A bind mount of a host path into a container.
#[derive(Debug, Clone)]
pub struct ContainerMount {
    pub in_host: String,
    pub in_container: String,
    pub readonly: bool,
}

/// When the runtime restarts a container.
#[derive(Debug, Clone, Copy, PartialEq, Eq, Structural)]
pub enum ContainerRestartPolicy {
    Never,
    UnlessStopped,
    Always,
}

/// Everything the runtime needs to create one container.
#[derive(Debug, Clone)]
pub struct ContainerCreationConfig {
    pub name: String,
    pub image: String,
    pub env: Vec<ContainerEnvironmentVar>,
    pub anon_volumes: Vec<String>,
    pub mounts: Vec<ContainerMount>,
    pub port_bindings: Vec<ContainerPortBinding>,
    pub labels: Vec<(String, String)>,
    pub restart_policy: ContainerRestartPolicy,
}

} // verus!
