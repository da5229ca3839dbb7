//! Applications: a named, ordered collection of containers with unique names whose
//! dependencies resolve inside the application.
use vstd::prelude::*;
use crate::containers::{
    same_container, template_error_is, template_valid, AppContainer, ValidationError,
};
use crate::ids::{random_u64, AppId};
use crate::templates::{AppContainerTemplate, AppTemplate};
use crate::text::{is_blank, is_blank_text, text_eq};

verus! {

/// The identity of an application, as read from a live application.
#[derive(Debug, Clone)]
pub struct AppIdentity {
    pub id: AppId,
    pub name: String,
}

impl AppIdentity {
    /// A copy of this identity.
    pub fn identity_clone(&self) -> (r: AppIdentity)
        ensures
            r == *self,
    {
        AppIdentity { id: self.id, name: self.name.clone() }
    }
}

/// An application and its containers.
#[derive(Debug, Clone)]
pub struct App {
    pub id: AppId,
    pub name: String,
    pub containers: Vec<AppContainer>,
    pub created_on: u64,
}

/// Two applications hold the same values.
pub open spec fn same_app(a: App, b: App) -> bool {
    &&& a.id == b.id && a.name == b.name && a.created_on == b.created_on
    &&& a.containers@.len() == b.containers@.len()
    &&& forall|k: int| 0 <= k < a.containers@.len() ==> same_container(#[trigger] a.containers@[k], b.containers@[k])
}

/// `app` holds the template's name and, in order, one container per container template
/// with the template's fields, each carrying the application's id and name.
pub open spec fn built_from(app: App, t: AppTemplate, created_on: u64) -> bool {
    &&& app.name == t.name
    &&& app.created_on == created_on
    &&& app.containers@.len() == t.containers@.len()
    &&& forall|i: int|
        0 <= i < app.containers@.len() ==> {
            let c = #[trigger] app.containers@[i];
            let ct = t.containers@[i];
            &&& c.app.id == app.id && c.app.name == app.name
            &&& c.name == ct.name && c.image == ct.image && c.env_vars == ct.env_vars
            &&& c.port_bindings == ct.port_bindings && c.volumes == ct.volumes
            &&& c.depends_on == ct.depends_on && c.created_on == created_on
        }
}

/// No two containers share a name.
pub open spec fn names_distinct(cs: Seq<AppContainer>) -> bool {
    forall|i: int, j: int| 0 <= i < j < cs.len() ==> (#[trigger] cs[i]).name@ != (#[trigger] cs[j]).name@
}

/// Some container has this name.
pub open spec fn has_name(cs: Seq<AppContainer>, n: Seq<char>) -> bool {
    exists|i: int| 0 <= i < cs.len() && (#[trigger] cs[i]).name@ == n
}

/// Every dependency of every container of `cs` names a container of `pool`.
pub open spec fn deps_resolve(cs: Seq<AppContainer>, pool: Seq<AppContainer>) -> bool {
    forall|i: int, k: int|
        0 <= i < cs.len() && 0 <= k < cs[i].depends_on@.len() ==> has_name(
            pool,
            (#[trigger] cs[i].depends_on@[k])@,
        )
}

/// No two templates share a name.
pub open spec fn template_names_distinct(ts: Seq<AppContainerTemplate>) -> bool {
    forall|i: int, j: int| 0 <= i < j < ts.len() ==> (#[trigger] ts[i]).name@ != (#[trigger] ts[j]).name@
}

/// Some template has this name.
pub open spec fn template_has_name(ts: Seq<AppContainerTemplate>, n: Seq<char>) -> bool {
    exists|i: int| 0 <= i < ts.len() && (#[trigger] ts[i]).name@ == n
}

/// Every dependency of every template names one of the templates.
pub open spec fn template_deps_resolve(ts: Seq<AppContainerTemplate>) -> bool {
    forall|i: int, k: int|
        0 <= i < ts.len() && 0 <= k < ts[i].depends_on@.len() ==> template_has_name(
            ts,
            (#[trigger] ts[i].depends_on@[k])@,
        )
}

/// What an application template must satisfy.
pub open spec fn app_template_valid(t: AppTemplate) -> bool {
    &&& !is_blank_text(t.name@)
    &&& forall|i: int| 0 <= i < t.containers@.len() ==> template_valid(#[trigger] t.containers@[i])
    &&& template_names_distinct(t.containers@)
    &&& template_deps_resolve(t.containers@)
}

/// The error an application template gets: a blank name first; then the first
/// invalid container template, with that template's own error; then a repeated
/// container name; then a dependency that names no container.
pub open spec fn app_error_is(t: AppTemplate, e: ValidationError) -> bool {
    let ts = t.containers@;
    if is_blank_text(t.name@) {
        e is EmptyAppName
    } else if exists|i: int| 0 <= i < ts.len() && !template_valid(#[trigger] ts[i]) {
        exists|i: int|
            0 <= i < ts.len() && !template_valid(#[trigger] ts[i]) && (forall|j: int|
                0 <= j < i ==> template_valid(#[trigger] ts[j])) && template_error_is(ts[i], e)
    } else if !template_names_distinct(ts) {
        e matches ValidationError::DuplicateContainer(n) && exists|i: int, j: int|
            0 <= i < j < ts.len() && (#[trigger] ts[i]).name@ == n@ && (#[trigger] ts[j]).name@
                == n@
    } else {
        e matches ValidationError::UnknownDependency { container, dependency } && exists|
            i: int,
            k: int,
        |
            0 <= i < ts.len() && 0 <= k < ts[i].depends_on@.len() && ts[i].name@ == container@
                && (#[trigger] ts[i].depends_on@[k])@ == dependency@ && !template_has_name(
                ts,
                dependency@,
            )
    }
}

/// The error of adding `new` to `old`: a repeated name first, else a dependency that
/// names no container of the union.
pub open spec fn add_error_is(old: Seq<AppContainer>, new: Seq<AppContainer>, e: ValidationError) -> bool {
    let all = old + new;
    if !names_distinct(all) {
        e matches ValidationError::DuplicateContainer(n) && exists|i: int, j: int|
            0 <= i < j < all.len() && (#[trigger] all[i]).name@ == n@ && (#[trigger] all[j]).name@
                == n@
    } else {
        e matches ValidationError::UnknownDependency { container, dependency } && exists|
            i: int,
            k: int,
        |
            0 <= i < new.len() && 0 <= k < new[i].depends_on@.len() && new[i].name@ == container@
                && (#[trigger] new[i].depends_on@[k])@ == dependency@ && !has_name(all, dependency@)
    }
}

impl App {
    /// Container names are unique and every dependency resolves inside the application.
    pub open spec fn wf(&self) -> bool {
        names_distinct(self.containers@) && deps_resolve(self.containers@, self.containers@)
    }

    /// Creates an application from a template, with freshly drawn ids; fails exactly
    /// when the name is blank, a container template is invalid, two containers share a
    /// name or a dependency names no container of the template.
    pub fn new(input: AppTemplate, created_on: u64) -> (r: Result<App, ValidationError>)
        ensures
            r is Ok <==> app_template_valid(input),
            r matches Err(e) ==> app_error_is(input, e),
            r matches Ok(app) ==> app.wf() && built_from(app, input, created_on),
    {
        if is_blank(input.name.as_str()) {
            return Err(ValidationError::EmptyAppName);
        }
        let ghost ts = input.containers@;
        let AppTemplate { name, containers: templates } = input;
        let mut app = App { id: AppId(random_u64()), name, containers: Vec::new(), created_on };
        let mut templates = templates;
        let mut built: Vec<AppContainer> = Vec::new();
        let n = templates.len();
        while templates.len() > 0
            invariant
                n == ts.len(),
                ts == input.containers@,
                !is_blank_text(input.name@),
                built@.len() + templates@.len() == n,
                templates@ == ts.subrange(built@.len() as int, n as int),
                app.containers@.len() == 0,
                app.name == input.name,
                app.created_on == created_on,
                forall|i: int| 0 <= i < built@.len() ==> template_valid(#[trigger] ts[i]),
                forall|i: int|
                    0 <= i < built@.len() ==> {
                        let c = #[trigger] built@[i];
                        let t = ts[i];
                        &&& c.app.id == app.id && c.app.name == app.name
                        &&& c.name == t.name && c.image == t.image && c.env_vars == t.env_vars
                        &&& c.port_bindings == t.port_bindings && c.volumes == t.volumes
                        &&& c.depends_on == t.depends_on && c.created_on == created_on
                    },
            decreases templates@.len(),
        {
            let ghost k = built@.len() as int;
            let t = templates.remove(0);
            assert(t == ts[k]);
            match AppContainer::new(app.identity(), t, created_on) {
                Err(e) => {
                    assert(!template_valid(ts[k]));
                    assert(template_error_is(ts[k], e));
                    assert(forall|j: int| 0 <= j < k ==> template_valid(#[trigger] ts[j]));
                    assert(exists|i: int| 0 <= i < ts.len() && !template_valid(#[trigger] ts[i]));
                    return Err(e);
                },
                Ok(c) => {
                    built.push(c);
                },
            }
        }
        let ghost cs = built@;
        assert(forall|i: int| 0 <= i < cs.len() ==> (#[trigger] cs[i]).name@ == ts[i].name@);
        assert(forall|i: int| 0 <= i < cs.len() ==> (#[trigger] cs[i]).depends_on@ == ts[i].depends_on@);
        assert(app.containers@ + cs =~= cs);
        assert forall|nm: Seq<char>| has_name(cs, nm) <==> template_has_name(ts, nm) by {
            if has_name(cs, nm) {
                let i = choose|i: int| 0 <= i < cs.len() && (#[trigger] cs[i]).name@ == nm;
                assert(ts[i].name@ == nm);
            }
            if template_has_name(ts, nm) {
                let i = choose|i: int| 0 <= i < ts.len() && (#[trigger] ts[i]).name@ == nm;
                assert(cs[i].name@ == nm);
            }
        }
        match app.add_containers(built) {
            Err(e) => {
                assert(add_error_is(Seq::empty(), cs, e));
                assert(names_distinct(cs) <==> template_names_distinct(ts)) by {
                    if names_distinct(cs) {
                        assert forall|i: int, j: int| 0 <= i < j < ts.len() implies (
                        #[trigger] ts[i]).name@ != (#[trigger] ts[j]).name@ by {
                            assert(cs[i].name@ != cs[j].name@);
                        }
                    }
                    if template_names_distinct(ts) {
                        assert forall|i: int, j: int| 0 <= i < j < cs.len() implies (
                        #[trigger] cs[i]).name@ != (#[trigger] cs[j]).name@ by {
                            assert(ts[i].name@ != ts[j].name@);
                        }
                    }
                }
                proof {
                    if !names_distinct(cs) {
                        let nm = e->DuplicateContainer_0;
                        let (i, j) = choose|i: int, j: int|
                            0 <= i < j < cs.len() && (#[trigger] cs[i]).name@ == nm@ && (
                            #[trigger] cs[j]).name@ == nm@;
                        assert(ts[i].name@ == nm@ && ts[j].name@ == nm@);
                    } else {
                        let container = e->container;
                        let dependency = e->dependency;
                        let (i, k) = choose|i: int, k: int|
                            0 <= i < cs.len() && 0 <= k < cs[i].depends_on@.len() && cs[i].name@
                                == container@ && (#[trigger] cs[i].depends_on@[k])@ == dependency@
                                && !has_name(cs, dependency@);
                        assert(ts[i].depends_on@[k]@ == dependency@);
                        assert(!template_deps_resolve(ts));
                    }
                    assert(!(exists|i: int| 0 <= i < ts.len() && !template_valid(#[trigger] ts[i])));
                }
                Err(e)
            },
            Ok(()) => {
                assert(app.containers@ =~= cs);
                assert forall|i: int, j: int| 0 <= i < j < ts.len() implies (
                #[trigger] ts[i]).name@ != (#[trigger] ts[j]).name@ by {
                    assert(cs[i].name@ != cs[j].name@);
                }
                assert forall|i: int, k: int|
                    0 <= i < ts.len() && 0 <= k < ts[i].depends_on@.len() implies template_has_name(
                    ts,
                    (#[trigger] ts[i].depends_on@[k])@,
                ) by {
                    assert(cs[i].depends_on@[k]@ == ts[i].depends_on@[k]@);
                }
                Ok(app)
            },
        }
    }

    /// Whether container names are unique and every dependency resolves.
    pub fn is_well_formed(&self) -> (r: bool)
        ensures
            r == self.wf(),
    {
        let cs = &self.containers;
        let n = cs.len();
        let mut j: usize = 0;
        while j < n
            invariant
                n == cs@.len(),
                *cs == self.containers,
                j <= n,
                forall|a: int, b: int| 0 <= a < b < j ==> (#[trigger] cs@[a]).name@ != (#[trigger] cs@[b]).name@,
                forall|i: int, k: int|
                    0 <= i < j && 0 <= k < cs@[i].depends_on@.len() ==> has_name(
                        cs@,
                        (#[trigger] cs@[i].depends_on@[k])@,
                    ),
            decreases n - j,
        {
            if position_of_name(cs, cs[j].name.as_str(), j).is_some() {
                return false;
            }
            let deps = &cs[j].depends_on;
            let dn = deps.len();
            let mut d: usize = 0;
            while d < dn
                invariant
                    n == cs@.len(),
                    *cs == self.containers,
                    j < n,
                    *deps == cs@[j as int].depends_on,
                    dn == deps@.len(),
                    d <= dn,
                    forall|e: int| 0 <= e < d ==> has_name(cs@, (#[trigger] deps@[e])@),
                decreases dn - d,
            {
                match position_of_name(cs, deps[d].as_str(), n) {
                    None => {
                        assert(!has_name(cs@, deps@[d as int]@));
                        assert(!has_name(
                            self.containers@,
                            self.containers@[j as int].depends_on@[d as int]@,
                        ));
                        assert(!deps_resolve(self.containers@, self.containers@));
                        return false;
                    },
                    Some(w) => {
                        assert(cs@[w as int].name@ == deps@[d as int]@);
                    },
                }
                d += 1;
            }
            j += 1;
        }
        true
    }

    /// A copy of this application.
    pub fn duplicate(&self) -> (r: App)
        ensures
            same_app(r, *self),
    {
        let n = self.containers.len();
        let mut cs: Vec<AppContainer> = Vec::new();
        let mut i: usize = 0;
        while i < n
            invariant
                n == self.containers@.len(),
                i <= n,
                cs@.len() == i,
                forall|k: int| 0 <= k < i ==> same_container(#[trigger] cs@[k], self.containers@[k]),
            decreases n - i,
        {
            cs.push(self.containers[i].duplicate());
            i += 1;
        }
        App { id: self.id, name: self.name.clone(), containers: cs, created_on: self.created_on }
    }

    /// The identity of this application.
    pub fn identity(&self) -> (r: AppIdentity)
        ensures
            r.id == self.id && r.name == self.name,
    {
        AppIdentity { id: self.id, name: self.name.clone() }
    }

    /// The container of this name, if any.
    pub fn get_container(&self, name: &str) -> (r: Option<&AppContainer>)
        ensures
            r is None <==> !has_name(self.containers@, name@),
            r matches Some(c) ==> c.name@ == name@ && exists|i: int|
                0 <= i < self.containers@.len() && self.containers@[i] == *c,
    {
        let n = self.containers.len();
        let mut i: usize = 0;
        while i < n
            invariant
                n == self.containers@.len(),
                i <= n,
                forall|k: int| 0 <= k < i ==> (#[trigger] self.containers@[k]).name@ != name@,
            decreases n - i,
        {
            if text_eq(self.containers[i].name.as_str(), name) {
                return Some(&self.containers[i]);
            }
            i += 1;
        }
        None
    }

    /// Adds containers, checked against the union of the existing and the new ones:
    /// no name may repeat and every dependency must name a container of the union.
    /// On failure nothing is added.
    pub fn add_containers(&mut self, containers: Vec<AppContainer>) -> (r: Result<(), ValidationError>)
        requires
            old(self).wf(),
        ensures
            r is Ok <==> (names_distinct(old(self).containers@ + containers@) && deps_resolve(
                containers@,
                old(self).containers@ + containers@,
            )),
            r is Ok ==> final(self).containers@ == old(self).containers@ + containers@,
            r is Err ==> final(self).containers@ == old(self).containers@,
            r matches Err(e) ==> add_error_is(old(self).containers@, containers@, e),
            final(self).id == old(self).id,
            final(self).name == old(self).name,
            final(self).created_on == old(self).created_on,
            r is Ok ==> final(self).wf(),
    {
        let ghost olds = self.containers@;
        let ghost news = containers@;
        let ghost all = olds + news;
        let m = self.containers.len();
        let n = containers.len();
        let mut j: usize = 0;
        while j < n
            invariant
                m == olds.len(),
                n == news.len(),
                self.containers@ == olds,
                containers@ == news,
                all == olds + news,
                names_distinct(olds),
                j <= n,
                forall|a: int, b: int| 0 <= a < b < m + j ==> (#[trigger] all[a]).name@ != (#[trigger] all[b]).name@,
            decreases n - j,
        {
            let name = containers[j].name.as_str();
            let in_old = position_of_name(&self.containers, name, m);
            let in_new = position_of_name(&containers, name, j);
            if in_old.is_some() || in_new.is_some() {
                proof {
                    if in_old is Some {
                        let k = in_old->Some_0 as int;
                        assert(all[k] == olds[k]);
                        assert(all[m + j] == news[j as int]);
                    } else {
                        let k = in_new->Some_0 as int;
                        assert(all[m + k] == news[k]);
                        assert(all[m + j] == news[j as int]);
                    }
                }
                return Err(ValidationError::DuplicateContainer(containers[j].name.clone()));
            }
            proof {
                assert forall|a: int, b: int| 0 <= a < b < m + j + 1 implies (
                #[trigger] all[a]).name@ != (#[trigger] all[b]).name@ by {
                    if b == m + j {
                        if a < m {
                            assert(all[a] == olds[a]);
                        } else {
                            assert(all[a] == news[a - m]);
                        }
                        assert(all[b] == news[j as int]);
                    }
                }
            }
            j += 1;
        }
        assert(names_distinct(all));
        let mut j: usize = 0;
        while j < n
            invariant
                m == olds.len(),
                n == news.len(),
                self.containers@ == olds,
                containers@ == news,
                all == olds + news,
                names_distinct(all),
                j <= n,
                forall|i: int, d: int|
                    0 <= i < j && 0 <= d < news[i].depends_on@.len() ==> has_name(
                        all,
                        (#[trigger] news[i].depends_on@[d])@,
                    ),
            decreases n - j,
        {
            let deps = &containers[j].depends_on;
            let dn = deps.len();
            let mut d: usize = 0;
            while d < dn
                invariant
                    m == olds.len(),
                    n == news.len(),
                    self.containers@ == olds,
                    containers@ == news,
                    all == olds + news,
                    names_distinct(all),
                    j < n,
                    *deps == news[j as int].depends_on,
                    dn == deps@.len(),
                    d <= dn,
                    forall|i: int, e: int|
                        0 <= i < j && 0 <= e < news[i].depends_on@.len() ==> has_name(
                            all,
                            (#[trigger] news[i].depends_on@[e])@,
                        ),
                    forall|e: int| 0 <= e < d ==> has_name(all, (#[trigger] deps@[e])@),
                decreases dn - d,
            {
                let dep = deps[d].as_str();
                let in_old = position_of_name(&self.containers, dep, m);
                let in_new = position_of_name(&containers, dep, n);
                proof {
                    if in_old is Some {
                        let k = in_old->Some_0 as int;
                        assert(all[k] == olds[k]);
                    } else if in_new is Some {
                        let k = in_new->Some_0 as int;
                        assert(all[m + k] == news[k]);
                    } else {
                        assert forall|a: int| 0 <= a < all.len() implies (#[trigger] all[a]).name@ != dep@ by {
                            if a < m {
                                assert(all[a] == olds[a]);
                            } else {
                                assert(all[a] == news[a - m]);
                            }
                        }
                    }
                }
                if in_old.is_none() && in_new.is_none() {
                    assert(news[j as int].depends_on@[d as int]@ == dep@);
                    assert(!has_name(all, dep@));
                    let container = containers[j].name.clone();
                    let dependency = deps[d].clone();
                    assert(0 <= j < news.len() && 0 <= d < news[j as int].depends_on@.len()
                        && news[j as int].name@ == container@
                        && news[j as int].depends_on@[d as int]@ == dependency@
                        && !has_name(all, dependency@));
                    let err = ValidationError::UnknownDependency { container, dependency };
                    assert(olds == old(self).containers@);
                    assert(add_error_is(olds, news, err));
                    return Err(err);
                }
                d += 1;
            }
            j += 1;
        }
        let mut containers = containers;
        self.containers.append(&mut containers);
        assert(self.containers@ =~= all);
        proof {
            assert forall|i: int, k: int|
                0 <= i < all.len() && 0 <= k < all[i].depends_on@.len() implies has_name(
                all,
                (#[trigger] all[i].depends_on@[k])@,
            ) by {
                if i < m {
                    assert(all[i] == olds[i]);
                    let w = choose|w: int| 0 <= w < olds.len() && (#[trigger] olds[w]).name@ == olds[i].depends_on@[k]@;
                    assert(all[w] == olds[w]);
                } else {
                    assert(all[i] == news[i - m]);
                }
            }
        }
        Ok(())
    }

    /// The template this application was built from.
    pub fn to_template(self) -> (r: AppTemplate)
        ensures
            r.name == self.name,
            r.containers@.len() == self.containers@.len(),
            forall|i: int|
                0 <= i < r.containers@.len() ==> {
                    let t = #[trigger] r.containers@[i];
                    let c = self.containers@[i];
                    t.name == c.name && t.image == c.image && t.env_vars == c.env_vars
                        && t.port_bindings == c.port_bindings && t.volumes == c.volumes
                        && t.depends_on == c.depends_on
                },
    {
        let App { name, containers, .. } = self;
        let ghost cs = containers@;
        let mut containers = containers;
        let mut out: Vec<AppContainerTemplate> = Vec::new();
        while containers.len() > 0
            invariant
                out@.len() + containers@.len() == cs.len(),
                containers@ == cs.subrange(out@.len() as int, cs.len() as int),
                forall|i: int|
                    0 <= i < out@.len() ==> {
                        let t = #[trigger] out@[i];
                        let c = cs[i];
                        t.name == c.name && t.image == c.image && t.env_vars == c.env_vars
                            && t.port_bindings == c.port_bindings && t.volumes == c.volumes
                            && t.depends_on == c.depends_on
                    },
            decreases containers@.len(),
        {
            let c = containers.remove(0);
            out.push(c.to_template());
        }
        AppTemplate { name, containers: out }
    }
}

/// The position of the first of the first `limit` containers named `name`.
pub fn position_of_name(cs: &Vec<AppContainer>, name: &str, limit: usize) -> (r: Option<usize>)
    requires
        limit <= cs@.len(),
    ensures
        r is None <==> forall|k: int| 0 <= k < limit ==> (#[trigger] cs@[k]).name@ != name@,
        r matches Some(k) ==> k < limit && cs@[k as int].name@ == name@,
{
    let mut i: usize = 0;
    while i < limit
        invariant
            limit <= cs@.len(),
            i <= limit,
            forall|k: int| 0 <= k < i ==> (#[trigger] cs@[k]).name@ != name@,
        decreases limit - i,
    {
        if text_eq(cs[i].name.as_str(), name) {
            return Some(i);
        }
        i += 1;
    }
    None
}

} // verus!
