use onix::docker::ExistingContainerStatus;
use onix::env::{AppRunnerConfig, AppRunnerEnvironment};
use onix::existing::ExistingAppContainer;
use onix::registry::{saver_step, Registry, RegistryError, SaverAction, UserData, UserDataSavingState};
use onix::runner::RunnerError;
use onix::stores::{within_store_limit, StoreConfig, StoreContent, StoreInterface, MAX_STORE_SIZE};
use onix::templates::{AppContainerTemplate, AppTemplate};

fn template(name: &str) -> AppTemplate {
    AppTemplate {
        name: name.to_string(),
        containers: vec![AppContainerTemplate {
            name: "db".to_string(),
            image: "postgres".to_string(),
            env_vars: vec![],
            port_bindings: vec![],
            volumes: vec![],
            depends_on: vec![],
        }],
    }
}

#[test]
fn saver_transitions() {
    assert_eq!(saver_step(UserDataSavingState::Unchanged), (SaverAction::Sleep, UserDataSavingState::Unchanged));
    assert_eq!(saver_step(UserDataSavingState::Modified), (SaverAction::Sleep, UserDataSavingState::WaitingForSave));
    assert_eq!(saver_step(UserDataSavingState::WaitingForSave), (SaverAction::Save, UserDataSavingState::Unchanged));
}

#[test]
fn burst_of_modifications_is_saved_once() {
    let mut reg = Registry::new(None);
    reg.mark_modified();
    reg.mark_modified();
    reg.mark_modified();
    let mut saves = 0;
    for _ in 0..5 {
        if reg.saver_tick() == SaverAction::Save {
            saves += 1;
        }
    }
    assert_eq!(saves, 1);
    assert_eq!(reg.saving_state(), UserDataSavingState::Unchanged);
}

#[test]
fn modification_between_polls_postpones_the_save() {
    let mut reg = Registry::new(None);
    reg.mark_modified();
    assert_eq!(reg.saver_tick(), SaverAction::Sleep);
    reg.mark_modified();
    assert_eq!(reg.saver_tick(), SaverAction::Sleep);
    assert_eq!(reg.saver_tick(), SaverAction::Save);
    assert_eq!(reg.saver_tick(), SaverAction::Sleep);
}

#[test]
fn create_and_find_application() {
    let mut reg = Registry::new(Some(UserData::new()));
    assert_eq!(reg.saving_state(), UserDataSavingState::Unchanged);
    let id = reg.create_app(template("web"), 9).ok().unwrap();
    assert_eq!(reg.saving_state(), UserDataSavingState::Modified);
    assert_eq!(reg.list_apps().len(), 1);
    assert_eq!(reg.get_app(id).unwrap().name, "web");
    assert_eq!(reg.user_data().apps[0].created_on, 9);
    assert!(matches!(reg.create_app(template("web"), 0), Err(RegistryError::DuplicateAppName)));
    assert!(matches!(reg.create_app(template(""), 0), Err(RegistryError::Validation(_))));
    assert_eq!(reg.list_apps().len(), 1);
    let env = AppRunnerEnvironment::new(AppRunnerConfig { data_dir: "/d".to_string() });
    let runner = reg.get_runner_for(env, id).ok().unwrap();
    assert_eq!(runner.app.id, id);
    assert_eq!(runner.app.containers.len(), 1);
}

#[test]
fn remove_application() {
    let mut reg = Registry::new(None);
    let id = reg.create_app(template("web"), 0).ok().unwrap();
    let app = reg.get_app(id).unwrap();
    let rec = ExistingAppContainer {
        docker_container_id: "x".to_string(),
        docker_container_name: app.containers[0].docker_container_name(),
        app_id: id,
        app_name: "web".to_string(),
        container_id: app.containers[0].id,
        container_name: "db".to_string(),
        status: ExistingContainerStatus::Exited,
    };
    assert!(matches!(
        reg.remove_app(id, &vec![rec]),
        Err(RegistryError::Runner(RunnerError::ContainersRemain))
    ));
    assert_eq!(reg.list_apps().len(), 1);
    assert!(reg.remove_app(id, &vec![]).is_ok());
    assert!(reg.list_apps().is_empty());
    assert!(matches!(reg.remove_app(id, &vec![]), Err(RegistryError::AppNotFound)));
    let env = AppRunnerEnvironment::new(AppRunnerConfig { data_dir: "/d".to_string() });
    assert!(matches!(reg.get_runner_for(env, id), Err(RegistryError::AppNotFound)));
}

#[test]
fn store_values() {
    let store = StoreContent::new(vec![template("a"), template("b")], 3);
    assert_eq!(store.list_apps().len(), 2);
    assert_eq!(store.list_apps()[1].name, "b");
    assert_eq!(store.created_on, 3);
    assert!(within_store_limit(MAX_STORE_SIZE));
    assert!(!within_store_limit(MAX_STORE_SIZE + 1));
    assert_eq!(MAX_STORE_SIZE, 10 * 1024 * 1024);
    let s = StoreInterface::new(StoreConfig { url: "https://example.org/store".to_string() });
    assert_eq!(s.url, "https://example.org/store");
}

#[test]
fn default_user_data_is_empty() {
    let d = UserData::default();
    assert!(d.apps.is_empty());
    let reg = Registry::new(Some(d));
    assert!(reg.is_well_formed());
    assert!(reg.list_apps().is_empty());
}

#[test]
fn burst_split_by_a_poll_is_saved_once() {
    let mut reg = Registry::new(None);
    reg.mark_modified();
    reg.mark_modified();
    assert_eq!(reg.saver_tick(), SaverAction::Sleep);
    reg.mark_modified();
    let mut saves = 0;
    for _ in 0..4 {
        if reg.saver_tick() == SaverAction::Save {
            saves += 1;
        }
    }
    assert_eq!(saves, 1);
}

#[test]
fn created_application_holds_the_template_containers() {
    let mut reg = Registry::new(None);
    let id = reg.create_app(template("web"), 0).ok().unwrap();
    let app = reg.get_app(id).unwrap();
    assert_eq!(app.containers.len(), 1);
    assert_eq!(app.containers[0].name, "db");
    assert_eq!(app.containers[0].image, "postgres");
    assert_eq!(app.containers[0].app.id, id);
    assert_eq!(app.containers[0].app.name, "web");
}
