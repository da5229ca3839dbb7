//! The declarative description of applications and containers, as an operator writes it.
use vstd::prelude::*;
use crate::networking::ContainerPortBinding;

verus! {

/// An environment variable of a container.
#[derive(Debug, Clone)]
pub struct ContainerEnvironmentVar {
    pub name: String,
    pub value: String,
}

/// How a volume's data is held.
#[derive(Debug, Clone)]
pub enum AppVolumeType {
    /// Runtime-managed and ephemeral: its data can be lost.
    Disposable,
    /// Runtime-managed and persistent, not meant to be edited by the user.
    Internal,
    /// Bound to a runtime-managed host directory derived from the application, the
    /// container and the volume.
    External { container_path: String, readonly: bool },
    /// Bound to a host path that the operator chose.
    BindToPath { real_path: String, container_path: String, readonly: bool },
}

/// A named volume of a container.
#[derive(Debug, Clone)]
pub struct AppVolume {
    pub name: String,
    pub variant: AppVolumeType,
}

/// The description of one container of an application.
#[derive(Debug, Clone)]
pub struct AppContainerTemplate {
    pub name: String,
    pub image: String,
    pub env_vars: Vec<ContainerEnvironmentVar>,
    pub port_bindings: Vec<ContainerPortBinding>,
    pub volumes: Vec<AppVolume>,
    pub depends_on: Vec<String>,
}

/// The description of an application: its name and its containers.
#[derive(Debug, Clone)]
pub struct AppTemplate {
    pub name: String,
    pub containers: Vec<AppContainerTemplate>,
}

/// A copy of a list of environment variables.
pub fn copy_env_vars(v: &Vec<ContainerEnvironmentVar>) -> (r: Vec<ContainerEnvironmentVar>)
    ensures
        r@ == v@,
{
    let mut r: Vec<ContainerEnvironmentVar> = Vec::new();
    let n = v.len();
    let mut i: usize = 0;
    while i < n
        invariant
            n == v@.len(),
            i <= n,
            r@ == v@.subrange(0, i as int),
        decreases n - i,
    {
        r.push(
            ContainerEnvironmentVar {
                name: v[i].name.clone(),
                value: v[i].value.clone(),
            },
        );
        i += 1;
        assert(r@ =~= v@.subrange(0, i as int));
    }
    assert(v@.subrange(0, n as int) =~= v@);
    r
}

/// A copy of a list of port bindings.
pub fn copy_port_bindings(v: &Vec<ContainerPortBinding>) -> (r: Vec<ContainerPortBinding>)
    ensures
        r@ == v@,
{
    let mut r: Vec<ContainerPortBinding> = Vec::new();
    let n = v.len();
    let mut i: usize = 0;
    while i < n
        invariant
            n == v@.len(),
            i <= n,
            r@ == v@.subrange(0, i as int),
        decreases n - i,
    {
        r.push(v[i]);
        i += 1;
        assert(r@ =~= v@.subrange(0, i as int));
    }
    assert(v@.subrange(0, n as int) =~= v@);
    r
}

/// A copy of a list of texts.
pub fn copy_texts(v: &Vec<String>) -> (r: Vec<String>)
    ensures
        r@ == v@,
{
    let mut r: Vec<String> = Vec::new();
    let n = v.len();
    let mut i: usize = 0;
    while i < n
        invariant
            n == v@.len(),
            i <= n,
            r@ == v@.subrange(0, i as int),
        decreases n - i,
    {
        r.push(v[i].clone());
        i += 1;
        assert(r@ =~= v@.subrange(0, i as int));
    }
    assert(v@.subrange(0, n as int) =~= v@);
    r
}

/// A copy of a volume.
pub fn copy_volume(v: &AppVolume) -> (r: AppVolume)
    ensures
        r == *v,
{
    let variant = match &v.variant {
        AppVolumeType::Disposable => AppVolumeType::Disposable,
        AppVolumeType::Internal => AppVolumeType::Internal,
        AppVolumeType::External { container_path, readonly } => AppVolumeType::External {
            container_path: container_path.clone(),
            readonly: *readonly,
        },
        AppVolumeType::BindToPath { real_path, container_path, readonly } => AppVolumeType::BindToPath {
            real_path: real_path.clone(),
            container_path: container_path.clone(),
            readonly: *readonly,
        },
    };
    AppVolume { name: v.name.clone(), variant }
}

/// A copy of a list of volumes.
pub fn copy_volumes(v: &Vec<AppVolume>) -> (r: Vec<AppVolume>)
    ensures
        r@ == v@,
{
    let mut r: Vec<AppVolume> = Vec::new();
    let n = v.len();
    let mut i: usize = 0;
    while i < n
        invariant
            n == v@.len(),
            i <= n,
            r@ == v@.subrange(0, i as int),
        decreases n - i,
    {
        r.push(copy_volume(&v[i]));
        i += 1;
        assert(r@ =~= v@.subrange(0, i as int));
    }
    assert(v@.subrange(0, n as int) =~= v@);
    r
}

} // verus!
