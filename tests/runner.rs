use onix::app::App;
use onix::docker::{
    ContainerRestartPolicy, ExistingContainer, ExistingContainerStatus, APP_ID_LABEL,
    APP_NAME_LABEL, CONTAINER_ID_LABEL, CONTAINER_NAME_LABEL,
};
use onix::env::{AppRunnerConfig, AppRunnerEnvironment};
use onix::existing::{DecodeError, ExistingAppContainer};
use onix::ids::{AppId, ContainerId};
use onix::runner::{first_failure, AppRunner, AppRunningStatus, RunnerError};
use onix::templates::{AppContainerTemplate, AppTemplate, AppVolume, AppVolumeType};

fn container(name: &str, deps: &[&str]) -> AppContainerTemplate {
    AppContainerTemplate {
        name: name.to_string(),
        image: format!("{name}:1"),
        env_vars: vec![],
        port_bindings: vec![],
        volumes: vec![],
        depends_on: deps.iter().map(|d| d.to_string()).collect(),
    }
}

fn env() -> AppRunnerEnvironment {
    AppRunnerEnvironment::new(AppRunnerConfig { data_dir: "/data".to_string() })
}

fn app_of(containers: Vec<AppContainerTemplate>) -> App {
    App::new(AppTemplate { name: "web".to_string(), containers }, 0).ok().unwrap()
}

fn record(app: &App, index: usize, status: ExistingContainerStatus) -> ExistingAppContainer {
    let c = &app.containers[index];
    ExistingAppContainer {
        docker_container_id: format!("docker-{index}"),
        docker_container_name: c.docker_container_name(),
        app_id: app.id,
        app_name: app.name.clone(),
        container_id: c.id,
        container_name: c.name.clone(),
        status,
    }
}

fn two_container_runner() -> AppRunner {
    AppRunner::new(env(), app_of(vec![container("db", &[]), container("api", &["db"])]))
}

#[test]
fn status_with_no_record_is_not_created() {
    let runner = two_container_runner();
    assert_eq!(runner.status(&vec![]), AppRunningStatus::NotCreated);
    let mut foreign = record(&runner.app, 0, ExistingContainerStatus::Running);
    foreign.app_id = AppId(runner.app.id.0.wrapping_add(1));
    assert_eq!(runner.status(&vec![foreign]), AppRunningStatus::NotCreated);
}

#[test]
fn status_with_one_of_two_is_partially_created() {
    let runner = two_container_runner();
    let r = record(&runner.app, 0, ExistingContainerStatus::Running);
    assert_eq!(runner.status(&vec![r]), AppRunningStatus::PartiallyCreated);
    let d = record(&runner.app, 1, ExistingContainerStatus::Dead);
    assert_eq!(runner.status(&vec![d]), AppRunningStatus::PartiallyCreated);
}

#[test]
fn status_classification_of_created_applications() {
    let runner = two_container_runner();
    let s = |a, b| runner.status(&vec![record(&runner.app, 0, a), record(&runner.app, 1, b)]);
    assert_eq!(s(ExistingContainerStatus::Exited, ExistingContainerStatus::Created), AppRunningStatus::Stopped);
    assert_eq!(s(ExistingContainerStatus::Exited, ExistingContainerStatus::Exited), AppRunningStatus::Stopped);
    assert_eq!(s(ExistingContainerStatus::Running, ExistingContainerStatus::Running), AppRunningStatus::FullyRunning);
    assert_eq!(s(ExistingContainerStatus::Dead, ExistingContainerStatus::Running), AppRunningStatus::Zombie);
    assert_eq!(s(ExistingContainerStatus::Paused, ExistingContainerStatus::Dead), AppRunningStatus::Zombie);
    assert_eq!(s(ExistingContainerStatus::Paused, ExistingContainerStatus::Running), AppRunningStatus::Intermediary);
    assert_eq!(s(ExistingContainerStatus::Removing, ExistingContainerStatus::Exited), AppRunningStatus::Intermediary);
    assert_eq!(s(ExistingContainerStatus::Restarting, ExistingContainerStatus::Created), AppRunningStatus::Intermediary);
    assert_eq!(s(ExistingContainerStatus::Running, ExistingContainerStatus::Exited), AppRunningStatus::PartiallyRunning);
    assert_eq!(s(ExistingContainerStatus::Running, ExistingContainerStatus::Created), AppRunningStatus::FullyRunning);
}

#[test]
fn status_ignores_records_of_undeclared_containers() {
    let runner = two_container_runner();
    let mut stray = record(&runner.app, 0, ExistingContainerStatus::Dead);
    stray.container_id = ContainerId(runner.app.containers[0].id.0 ^ runner.app.containers[1].id.0 ^ 1);
    let recs = vec![
        record(&runner.app, 0, ExistingContainerStatus::Running),
        record(&runner.app, 1, ExistingContainerStatus::Running),
        stray,
    ];
    assert_eq!(runner.status(&recs), AppRunningStatus::FullyRunning);
}

#[test]
fn creation_order_puts_dependencies_first() {
    let runner = AppRunner::new(env(), app_of(vec![container("api", &["db"]), container("db", &[])]));
    let cfgs = runner.plan_creation(AppRunningStatus::NotCreated).ok().unwrap();
    assert_eq!(cfgs.len(), 2);
    assert_eq!(cfgs[0].name, runner.app.containers[1].docker_container_name());
    assert_eq!(cfgs[0].image, "db:1");
    assert_eq!(cfgs[1].image, "api:1");
    let order = runner.sort_containers_by_deps().ok().unwrap();
    assert_eq!(order, vec![1, 0]);
}

#[test]
fn creation_order_for_a_chain() {
    let runner = AppRunner::new(
        env(),
        app_of(vec![container("a", &["b"]), container("b", &["c"]), container("c", &[])]),
    );
    assert_eq!(runner.sort_containers_by_deps().ok().unwrap(), vec![2, 1, 0]);
}

#[test]
fn dependency_cycle_is_reported() {
    let runner = AppRunner::new(env(), app_of(vec![container("a", &["b"]), container("b", &["a"])]));
    assert!(matches!(runner.sort_containers_by_deps(), Err(RunnerError::DependencyCycle)));
    assert!(matches!(
        runner.plan_creation(AppRunningStatus::NotCreated),
        Err(RunnerError::DependencyCycle)
    ));
}

#[test]
fn creation_requires_not_created() {
    let runner = two_container_runner();
    for s in [
        AppRunningStatus::PartiallyCreated,
        AppRunningStatus::Zombie,
        AppRunningStatus::Intermediary,
        AppRunningStatus::Stopped,
        AppRunningStatus::PartiallyRunning,
        AppRunningStatus::FullyRunning,
    ] {
        match runner.plan_creation(s) {
            Err(RunnerError::InvalidState(got)) => assert_eq!(got, s),
            other => panic!("unexpected {:?}", other.is_ok()),
        }
    }
}

#[test]
fn creation_config_of_a_container() {
    let mut c = container("db", &[]);
    c.volumes = vec![
        AppVolume { name: "cache".to_string(), variant: AppVolumeType::Disposable },
        AppVolume {
            name: "files".to_string(),
            variant: AppVolumeType::External { container_path: "/files".to_string(), readonly: true },
        },
        AppVolume { name: "state".to_string(), variant: AppVolumeType::Internal },
        AppVolume {
            name: "conf".to_string(),
            variant: AppVolumeType::BindToPath {
                real_path: "/etc/db".to_string(),
                container_path: "/conf".to_string(),
                readonly: false,
            },
        },
    ];
    let runner = AppRunner::new(env(), app_of(vec![c]));
    let app = &runner.app;
    let db = &app.containers[0];
    let cfg = runner.generate_container_config(db);
    assert_eq!(cfg.name, format!("onix_{}_{}_db", app.id.encode(), db.id.encode()));
    assert_eq!(cfg.anon_volumes, vec!["cache".to_string(), "state".to_string()]);
    assert_eq!(cfg.mounts.len(), 2);
    assert_eq!(
        cfg.mounts[0].in_host,
        format!(
            "/data/apps/web-{}/containers/db-{}/internal-volumes/files",
            app.id.encode(),
            db.id.encode()
        )
    );
    assert_eq!(cfg.mounts[0].in_container, "/files");
    assert!(cfg.mounts[0].readonly);
    assert_eq!(cfg.mounts[1].in_host, "/etc/db");
    assert_eq!(cfg.mounts[1].in_container, "/conf");
    assert!(!cfg.mounts[1].readonly);
    assert_eq!(cfg.restart_policy, ContainerRestartPolicy::UnlessStopped);
    assert_eq!(
        cfg.labels,
        vec![
            (APP_ID_LABEL.to_string(), app.id.encode()),
            (APP_NAME_LABEL.to_string(), "web".to_string()),
            (CONTAINER_ID_LABEL.to_string(), db.id.encode()),
            (CONTAINER_NAME_LABEL.to_string(), "db".to_string()),
        ]
    );
}

#[test]
fn start_when_not_created_is_invalid() {
    let runner = two_container_runner();
    let status = runner.status(&vec![]);
    match runner.plan_start(status) {
        Err(RunnerError::InvalidState(s)) => assert_eq!(s, AppRunningStatus::NotCreated),
        other => panic!("unexpected {:?}", other),
    }
    for s in [AppRunningStatus::PartiallyCreated, AppRunningStatus::Zombie, AppRunningStatus::Intermediary] {
        assert!(matches!(runner.plan_start(s), Err(RunnerError::InvalidState(got)) if got == s));
    }
}

#[test]
fn start_order_and_no_op() {
    let runner = AppRunner::new(env(), app_of(vec![container("api", &["db"]), container("db", &[])]));
    let names = runner.plan_start(AppRunningStatus::Stopped).ok().unwrap();
    assert_eq!(
        names,
        vec![
            runner.app.containers[1].docker_container_name(),
            runner.app.containers[0].docker_container_name()
        ]
    );
    assert_eq!(runner.plan_start(AppRunningStatus::PartiallyRunning).ok().unwrap().len(), 2);
    assert!(runner.plan_start(AppRunningStatus::FullyRunning).ok().unwrap().is_empty());
}

#[test]
fn stop_targets_every_record_of_the_application() {
    let runner = AppRunner::new(
        env(),
        app_of(vec![container("a", &[]), container("b", &[]), container("c", &[])]),
    );
    let mut foreign = record(&runner.app, 0, ExistingContainerStatus::Running);
    foreign.app_id = AppId(runner.app.id.0.wrapping_add(1));
    foreign.docker_container_id = "other".to_string();
    let recs = vec![
        record(&runner.app, 0, ExistingContainerStatus::Running),
        foreign,
        record(&runner.app, 1, ExistingContainerStatus::Exited),
        record(&runner.app, 2, ExistingContainerStatus::Dead),
    ];
    assert_eq!(
        runner.stop_targets(&recs),
        vec!["docker-0".to_string(), "docker-1".to_string(), "docker-2".to_string()]
    );
}

#[test]
fn stop_fails_when_one_request_fails() {
    assert_eq!(first_failure(&vec![true, false, true]), Some(1));
    assert_eq!(first_failure(&vec![true, true, true]), None);
    assert_eq!(first_failure(&vec![]), None);
    assert_eq!(first_failure(&vec![false, false]), Some(0));
}

#[test]
fn removal_needs_no_remaining_container() {
    let runner = two_container_runner();
    assert!(runner.ensure_can_be_removed(&vec![]).is_ok());
    let r = record(&runner.app, 0, ExistingContainerStatus::Exited);
    assert!(matches!(runner.ensure_can_be_removed(&vec![r]), Err(RunnerError::ContainersRemain)));
}

fn raw(app: &App, index: usize, name: &str) -> ExistingContainer {
    let c = &app.containers[index];
    ExistingContainer {
        docker_container_id: format!("id{index}"),
        names: vec![name.to_string()],
        labels: vec![
            (APP_ID_LABEL.to_string(), app.id.encode()),
            (APP_NAME_LABEL.to_string(), app.name.clone()),
            (CONTAINER_ID_LABEL.to_string(), c.id.encode()),
            (CONTAINER_NAME_LABEL.to_string(), c.name.clone()),
        ],
        status: ExistingContainerStatus::Running,
    }
}

#[test]
fn decode_runtime_container() {
    let runner = two_container_runner();
    let app = &runner.app;
    let name = format!("/{}", app.containers[1].docker_container_name());
    let e = ExistingAppContainer::decode(raw(app, 1, &name)).ok().unwrap().unwrap();
    assert_eq!(e.docker_container_id, "id1");
    assert_eq!(e.docker_container_name, app.containers[1].docker_container_name());
    assert_eq!(e.app_id, app.id);
    assert_eq!(e.app_name, "web");
    assert_eq!(e.container_id, app.containers[1].id);
    assert_eq!(e.container_name, "api");
    assert_eq!(e.status, ExistingContainerStatus::Running);
}

#[test]
fn decode_skips_unmanaged_containers() {
    let runner = two_container_runner();
    let app = &runner.app;
    assert!(matches!(ExistingAppContainer::decode(raw(app, 0, "/postgres")), Ok(None)));
    let mut two_names = raw(app, 0, "onix_a");
    two_names.names.push("onix_b".to_string());
    assert!(matches!(ExistingAppContainer::decode(two_names), Ok(None)));
    let mut no_name = raw(app, 0, "onix_a");
    no_name.names.clear();
    assert!(matches!(ExistingAppContainer::decode(no_name), Ok(None)));
}

#[test]
fn decode_errors_on_labels() {
    let runner = two_container_runner();
    let app = &runner.app;
    let mut missing = raw(app, 0, "onix_x");
    missing.labels.remove(1);
    match ExistingAppContainer::decode(missing) {
        Err(DecodeError::MissingLabel(k)) => assert_eq!(k, APP_NAME_LABEL),
        other => panic!("unexpected {:?}", other.is_ok()),
    }
    let mut bad = raw(app, 0, "onix_x");
    bad.labels[2].1 = "not-an-id".to_string();
    match ExistingAppContainer::decode(bad) {
        Err(DecodeError::InvalidId { label, .. }) => assert_eq!(label, CONTAINER_ID_LABEL),
        other => panic!("unexpected {:?}", other.is_ok()),
    }
}

#[test]
fn existing_records_keep_this_application_only() {
    let runner = two_container_runner();
    let other = app_of(vec![container("db", &[])]);
    let mut broken = raw(&runner.app, 0, "onix_broken");
    broken.labels.clear();
    let list = vec![
        raw(&runner.app, 0, "onix_a"),
        raw(&other, 0, "onix_b"),
        raw(&runner.app, 1, "postgres"),
        broken,
        raw(&runner.app, 1, "/onix_c"),
    ];
    let recs = runner.existing_records(list);
    assert_eq!(recs.len(), 2);
    assert_eq!(recs[0].docker_container_id, "id0");
    assert_eq!(recs[1].docker_container_name, "onix_c");
    assert_eq!(runner.status(&recs), AppRunningStatus::FullyRunning);
    assert!(runner.app.decode_container(raw(&other, 0, "onix_b")).ok().unwrap().is_none());
}

#[test]
fn status_tokens() {
    assert_eq!(ExistingContainerStatus::decode("created").ok(), Some(ExistingContainerStatus::Created));
    assert_eq!(ExistingContainerStatus::decode("running").ok(), Some(ExistingContainerStatus::Running));
    assert_eq!(ExistingContainerStatus::decode("paused").ok(), Some(ExistingContainerStatus::Paused));
    assert_eq!(ExistingContainerStatus::decode("restarting").ok(), Some(ExistingContainerStatus::Restarting));
    assert_eq!(ExistingContainerStatus::decode("removing").ok(), Some(ExistingContainerStatus::Removing));
    assert_eq!(ExistingContainerStatus::decode("exited").ok(), Some(ExistingContainerStatus::Exited));
    assert_eq!(ExistingContainerStatus::decode("dead").ok(), Some(ExistingContainerStatus::Dead));
    let e = ExistingContainerStatus::decode("Up 3 hours").err().unwrap();
    assert_eq!(e.token, "Up 3 hours");
    assert!(ExistingContainerStatus::Paused.running_like());
    assert!(!ExistingContainerStatus::Exited.running_like());
}

#[test]
fn environment_paths() {
    let runner = two_container_runner();
    let e = env();
    assert_eq!(e.apps_dir, "/data/apps");
    let app = &runner.app;
    let id = app.identity();
    assert_eq!(e.app_dir(&id), format!("/data/apps/web-{}", app.id.encode()));
    assert_eq!(e.app_containers_dir(&id), format!("/data/apps/web-{}/containers", app.id.encode()));
    let c = app.containers[0].identity();
    assert_eq!(
        e.app_container_dir(&c),
        format!("/data/apps/web-{}/containers/db-{}", app.id.encode(), c.id.encode())
    );
    assert_eq!(
        e.app_container_internal_volumes_dir(&c),
        format!("/data/apps/web-{}/containers/db-{}/internal-volumes", app.id.encode(), c.id.encode())
    );
}

#[test]
fn start_follows_the_creation_order() {
    let runner = AppRunner::new(
        env(),
        app_of(vec![container("web", &["api"]), container("api", &["db"]), container("db", &[]), container("cache", &[])]),
    );
    let created: Vec<String> =
        runner.plan_creation(AppRunningStatus::NotCreated).ok().unwrap().into_iter().map(|c| c.name).collect();
    let started = runner.plan_start(AppRunningStatus::Stopped).ok().unwrap();
    assert_eq!(created, started);
    assert_eq!(runner.sort_containers_by_deps().ok().unwrap(), vec![2, 1, 0, 3]);
}
