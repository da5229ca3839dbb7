//! Containers of an application: construction from a template, with its validation.
use vstd::prelude::*;
use crate::app::AppIdentity;
use crate::docker::{name_prefix, NAME_PREFIX};
use crate::ids::{b62_text, random_u64, ContainerId};
use crate::networking::{no_collision, bindings_collide, ContainerPortBinding};
use crate::templates::{
    copy_env_vars, copy_port_bindings, copy_texts, copy_volumes, AppContainerTemplate, AppVolume,
    ContainerEnvironmentVar,
};
use crate::text::{
    concat, first_repeat, is_blank, is_blank_text, is_valid_name, text_eq, valid_name,
};

verus! {

/// Why a template or an addition of containers was refused.
#[derive(Debug, Clone)]
pub enum ValidationError {
    /// The application name is empty or white space only.
    EmptyAppName,
    /// A container name is empty or white space only.
    EmptyContainerName,
    /// The container name does not match the identifier pattern.
    InvalidContainerName(String),
    /// The container (named here) has an empty image.
    EmptyImage(String),
    /// The container (named here) has an environment variable with an empty name.
    EmptyEnvName(String),
    /// This environment variable name does not match the identifier pattern.
    InvalidEnvName(String),
    /// This environment variable has an empty value.
    EmptyEnvValue(String),
    /// This environment variable is declared twice.
    DuplicateEnvVar(String),
    /// This dependency is listed twice.
    DuplicateDependency(String),
    /// Two volumes share this name.
    DuplicateVolume(String),
    /// These two port bindings collide.
    PortCollision(ContainerPortBinding, ContainerPortBinding),
    /// The application already has a container of this name.
    DuplicateContainer(String),
    /// The container depends on a container name that the application does not have.
    UnknownDependency { container: String, dependency: String },
}

/// The identity of a container, as read from a live container.
#[derive(Debug, Clone)]
pub struct AppContainerIdentity {
    pub id: ContainerId,
    pub name: String,
    pub app: AppIdentity,
}

/// A container of an application, validated.
#[derive(Debug, Clone)]
pub struct AppContainer {
    pub app: AppIdentity,
    pub id: ContainerId,
    pub name: String,
    pub image: String,
    pub env_vars: Vec<ContainerEnvironmentVar>,
    pub port_bindings: Vec<ContainerPortBinding>,
    pub volumes: Vec<AppVolume>,
    pub depends_on: Vec<String>,
    pub created_on: u64,
}

/// An environment variable with a well-formed name and a non-blank value.
pub open spec fn env_var_valid(v: ContainerEnvironmentVar) -> bool {
    is_valid_name(v.name@) && !is_blank_text(v.value@)
}

/// No two environment variables share a name.
pub open spec fn env_names_distinct(s: Seq<ContainerEnvironmentVar>) -> bool {
    forall|i: int, j: int| 0 <= i < j < s.len() ==> (#[trigger] s[i]).name@ != (#[trigger] s[j]).name@
}

/// No text of the sequence is listed twice.
pub open spec fn texts_distinct(s: Seq<String>) -> bool {
    forall|i: int, j: int| 0 <= i < j < s.len() ==> (#[trigger] s[i])@ != (#[trigger] s[j])@
}

/// No two volumes share a name.
pub open spec fn volume_names_distinct(s: Seq<AppVolume>) -> bool {
    forall|i: int, j: int| 0 <= i < j < s.len() ==> (#[trigger] s[i]).name@ != (#[trigger] s[j]).name@
}

/// Environment variable `i` is malformed, or repeats the name of an earlier one.
pub open spec fn env_defect(env: Seq<ContainerEnvironmentVar>, i: int) -> bool {
    !env_var_valid(env[i]) || exists|j: int| 0 <= j < i && (#[trigger] env[j]).name@ == env[i].name@
}

/// What a container template must satisfy.
pub open spec fn template_valid(t: AppContainerTemplate) -> bool {
    &&& is_valid_name(t.name@)
    &&& !is_blank_text(t.image@)
    &&& forall|i: int| 0 <= i < t.env_vars@.len() ==> !env_defect(t.env_vars@, i)
    &&& texts_distinct(t.depends_on@)
    &&& volume_names_distinct(t.volumes@)
    &&& no_collision(t.port_bindings@)
}

/// The error for the defective environment variable `i`: an empty name, a malformed
/// name, a blank value, or else a repeated name.
pub open spec fn env_error_is(t: AppContainerTemplate, i: int, e: ValidationError) -> bool {
    let v = t.env_vars@[i];
    if v.name@.len() == 0 {
        e matches ValidationError::EmptyEnvName(n) && n@ == t.name@
    } else if !is_valid_name(v.name@) {
        e matches ValidationError::InvalidEnvName(n) && n@ == v.name@
    } else if is_blank_text(v.value@) {
        e matches ValidationError::EmptyEnvValue(n) && n@ == v.name@
    } else {
        e matches ValidationError::DuplicateEnvVar(n) && n@ == v.name@
    }
}

/// The error a template gets: checks go in order (name, image, environment variables
/// in order, dependencies, volumes, port bindings) and the first failing one decides.
pub open spec fn template_error_is(t: AppContainerTemplate, e: ValidationError) -> bool {
    let env = t.env_vars@;
    if !is_valid_name(t.name@) {
        if is_blank_text(t.name@) {
            e is EmptyContainerName
        } else {
            e matches ValidationError::InvalidContainerName(n) && n@ == t.name@
        }
    } else if is_blank_text(t.image@) {
        e matches ValidationError::EmptyImage(n) && n@ == t.name@
    } else if exists|i: int| 0 <= i < env.len() && env_defect(env, i) {
        exists|i: int|
            0 <= i < env.len() && env_defect(env, i) && (forall|j: int|
                0 <= j < i ==> !env_defect(env, j)) && env_error_is(t, i, e)
    } else if !texts_distinct(t.depends_on@) {
        e matches ValidationError::DuplicateDependency(n) && exists|i: int, j: int|
            0 <= i < j < t.depends_on@.len() && (#[trigger] t.depends_on@[i])@ == n@ && (
            #[trigger] t.depends_on@[j])@ == n@
    } else if !volume_names_distinct(t.volumes@) {
        e matches ValidationError::DuplicateVolume(n) && exists|i: int, j: int|
            0 <= i < j < t.volumes@.len() && (#[trigger] t.volumes@[i]).name@ == n@ && (
            #[trigger] t.volumes@[j]).name@ == n@
    } else {
        e matches ValidationError::PortCollision(a, b) && exists|i: int, j: int|
            0 <= i < j < t.port_bindings@.len() && a == t.port_bindings@[i] && b
                == t.port_bindings@[j] && bindings_collide(a, b)
    }
}

/// Two containers hold the same values.
pub open spec fn same_container(a: AppContainer, b: AppContainer) -> bool {
    &&& a.app == b.app && a.id == b.id && a.name == b.name && a.image == b.image
    &&& a.env_vars@ == b.env_vars@ && a.port_bindings@ == b.port_bindings@
    &&& a.volumes@ == b.volumes@ && a.depends_on@ == b.depends_on@
    &&& a.created_on == b.created_on
}

/// The runtime name of a container: the prefix, the encoded application id, `_`, the
/// encoded container id, `_`, and the container name for a human reader.
pub open spec fn runtime_name(app_id: u64, id: u64, name: Seq<char>) -> Seq<char> {
    name_prefix() + b62_text(app_id as nat) + seq!['_'] + b62_text(id as nat) + seq!['_'] + name
}

/// Checks a container template, in this order: name, image, environment variables,
/// dependencies, volumes, port bindings.
pub fn validate_template(t: &AppContainerTemplate) -> (r: Result<(), ValidationError>)
    ensures
        r is Ok <==> template_valid(*t),
        r matches Err(e) ==> template_error_is(*t, e),
{
    if is_blank(t.name.as_str()) {
        return Err(ValidationError::EmptyContainerName);
    }
    if !valid_name(t.name.as_str()) {
        return Err(ValidationError::InvalidContainerName(t.name.clone()));
    }
    if is_blank(t.image.as_str()) {
        return Err(ValidationError::EmptyImage(t.name.clone()));
    }
    let ghost env = t.env_vars@;
    let n = t.env_vars.len();
    let mut i: usize = 0;
    while i < n
        invariant
            n == env.len(),
            env == t.env_vars@,
            is_valid_name(t.name@),
            !is_blank_text(t.image@),
            i <= n,
            forall|k: int| 0 <= k < i ==> !env_defect(env, k),
        decreases n - i,
    {
        let v = &t.env_vars[i];
        if v.name.unicode_len() == 0 {
            assert(!is_valid_name(env[i as int].name@));
            let err = ValidationError::EmptyEnvName(t.name.clone());
            assert(env_defect(env, i as int) && env_error_is(*t, i as int, err));
            return Err(err);
        }
        if !valid_name(v.name.as_str()) {
            let err = ValidationError::InvalidEnvName(v.name.clone());
            assert(env_defect(env, i as int) && env_error_is(*t, i as int, err));
            return Err(err);
        }
        if is_blank(v.value.as_str()) {
            let err = ValidationError::EmptyEnvValue(v.name.clone());
            assert(env_defect(env, i as int) && env_error_is(*t, i as int, err));
            return Err(err);
        }
        let mut k: usize = 0;
        while k < i
            invariant
                n == env.len(),
                env == t.env_vars@,
                k <= i < n,
                *v == env[i as int],
                is_valid_name(t.name@),
                !is_blank_text(t.image@),
                forall|x: int| 0 <= x < i ==> !env_defect(env, x),
                is_valid_name(v.name@),
                !is_blank_text(v.value@),
                v.name@.len() > 0,
                forall|a: int| 0 <= a < k ==> (#[trigger] env[a]).name@ != v.name@,
            decreases i - k,
        {
            if text_eq(t.env_vars[k].name.as_str(), v.name.as_str()) {
                assert(env[k as int].name@ == env[i as int].name@);
                let err = ValidationError::DuplicateEnvVar(v.name.clone());
                assert(env_defect(env, i as int) && env_error_is(*t, i as int, err));
                return Err(err);
            }
            k += 1;
        }
        assert(!env_defect(env, i as int));
        i += 1;
    }
    assert(!(exists|i: int| 0 <= i < env.len() && env_defect(env, i)));
    match first_repeat(&t.depends_on) {
        Some(j) => {
            return Err(ValidationError::DuplicateDependency(t.depends_on[j].clone()));
        },
        None => {},
    }
    let vols = &t.volumes;
    let m = vols.len();
    let mut j: usize = 0;
    while j < m
        invariant
            m == vols@.len(),
            *vols == t.volumes,
            is_valid_name(t.name@),
            !is_blank_text(t.image@),
            forall|k: int| 0 <= k < t.env_vars@.len() ==> !env_defect(t.env_vars@, k),
            texts_distinct(t.depends_on@),
            j <= m,
            forall|a: int, b: int| 0 <= a < b < j ==> (#[trigger] vols@[a]).name@ != (#[trigger] vols@[b]).name@,
        decreases m - j,
    {
        let mut k: usize = 0;
        while k < j
            invariant
                m == vols@.len(),
                *vols == t.volumes,
                is_valid_name(t.name@),
                !is_blank_text(t.image@),
                forall|x: int| 0 <= x < t.env_vars@.len() ==> !env_defect(t.env_vars@, x),
                texts_distinct(t.depends_on@),
                k <= j < m,
                forall|a: int| 0 <= a < k ==> (#[trigger] vols@[a]).name@ != vols@[j as int].name@,
            decreases j - k,
        {
            if text_eq(vols[k].name.as_str(), vols[j].name.as_str()) {
                assert(vols@[k as int].name@ == vols@[j as int].name@);
                assert(!volume_names_distinct(t.volumes@));
                return Err(ValidationError::DuplicateVolume(vols[j].name.clone()));
            }
            k += 1;
        }
        j += 1;
    }
    match ContainerPortBinding::find_collision(t.port_bindings.as_slice()) {
        Some(pair) => {
            return Err(ValidationError::PortCollision(pair.0, pair.1));
        },
        None => {},
    }
    Ok(())
}

impl AppContainer {
    /// Builds a container of `app` from a template, with a freshly drawn id; fails
    /// exactly when the template breaks one of the container rules.
    pub fn new(app: AppIdentity, input: AppContainerTemplate, created_on: u64) -> (r: Result<
        AppContainer,
        ValidationError,
    >)
        ensures
            r is Ok <==> template_valid(input),
            r matches Err(e) ==> template_error_is(input, e),
            r matches Ok(c) ==> c.app == app && c.name == input.name && c.image == input.image
                && c.env_vars == input.env_vars && c.port_bindings == input.port_bindings
                && c.volumes == input.volumes && c.depends_on == input.depends_on
                && c.created_on == created_on,
    {
        match validate_template(&input) {
            Err(e) => Err(e),
            Ok(()) => {
                let id = ContainerId(random_u64());
                let AppContainerTemplate { name, image, env_vars, port_bindings, volumes, depends_on } =
                    input;
                Ok(AppContainer {
                    app,
                    id,
                    name,
                    image,
                    env_vars,
                    port_bindings,
                    volumes,
                    depends_on,
                    created_on,
                })
            },
        }
    }

    /// The identity of this container.
    pub fn identity(&self) -> (r: AppContainerIdentity)
        ensures
            r.id == self.id && r.name == self.name && r.app == self.app,
    {
        AppContainerIdentity {
            id: self.id,
            name: self.name.clone(),
            app: self.app.identity_clone(),
        }
    }

    /// The name of the runtime container that stands for this container.
    pub fn docker_container_name(&self) -> (r: String)
        ensures
            r@ == runtime_name(self.app.id.0, self.id.0, self.name@),
    {
        proof {
            reveal_strlit("onix_");
            reveal_strlit("_");
        }
        let a = concat(NAME_PREFIX, self.app.id.encode().as_str());
        let b = concat(a.as_str(), "_");
        let c = concat(b.as_str(), self.id.encode().as_str());
        let d = concat(c.as_str(), "_");
        let r = concat(d.as_str(), self.name.as_str());
        assert(NAME_PREFIX@ =~= name_prefix());
        assert("_"@ =~= seq!['_']);
        r
    }

    /// A copy of this container.
    pub fn duplicate(&self) -> (r: AppContainer)
        ensures
            same_container(r, *self),
    {
        AppContainer {
            app: self.app.identity_clone(),
            id: self.id,
            name: self.name.clone(),
            image: self.image.clone(),
            env_vars: copy_env_vars(&self.env_vars),
            port_bindings: copy_port_bindings(&self.port_bindings),
            volumes: copy_volumes(&self.volumes),
            depends_on: copy_texts(&self.depends_on),
            created_on: self.created_on,
        }
    }

    /// The template this container was built from.
    pub fn to_template(self) -> (r: AppContainerTemplate)
        ensures
            r.name == self.name && r.image == self.image && r.env_vars == self.env_vars
                && r.port_bindings == self.port_bindings && r.volumes == self.volumes
                && r.depends_on == self.depends_on,
    {
        let AppContainer { name, image, env_vars, port_bindings, volumes, depends_on, .. } = self;
        AppContainerTemplate { name, image, env_vars, port_bindings, volumes, depends_on }
    }
}

} // verus!
