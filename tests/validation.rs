use onix::app::{App, AppIdentity};
use onix::containers::{AppContainer, ValidationError};
use onix::ids::AppId;
use onix::networking::{ContainerPortBinding, Port, PortType};
use onix::templates::{AppContainerTemplate, AppTemplate, AppVolume, AppVolumeType, ContainerEnvironmentVar};
use onix::text::{is_blank, valid_name};

fn container(name: &str, deps: &[&str]) -> AppContainerTemplate {
    AppContainerTemplate {
        name: name.to_string(),
        image: "nginx:latest".to_string(),
        env_vars: vec![],
        port_bindings: vec![],
        volumes: vec![],
        depends_on: deps.iter().map(|d| d.to_string()).collect(),
    }
}

fn env(name: &str, value: &str) -> ContainerEnvironmentVar {
    ContainerEnvironmentVar { name: name.to_string(), value: value.to_string() }
}

fn identity() -> AppIdentity {
    AppIdentity { id: AppId(7), name: "web".to_string() }
}

fn tcp(port: u16) -> Port {
    Port { port, port_type: PortType::Tcp }
}

#[test]
fn name_pattern() {
    assert!(valid_name("db_1-a"));
    assert!(valid_name("A"));
    assert!(!valid_name(""));
    assert!(!valid_name("my app"));
    assert!(!valid_name("x.y"));
    assert!(!valid_name("é"));
}

#[test]
fn blank_texts() {
    assert!(is_blank(""));
    assert!(is_blank("   "));
    assert!(is_blank(" \t\n"));
    assert!(!is_blank(" a "));
}

#[test]
fn new_application_keeps_the_template() {
    let t = AppTemplate {
        name: "web".to_string(),
        containers: vec![container("db", &[]), container("api", &["db"])],
    };
    let app = App::new(t, 42).ok().unwrap();
    assert_eq!(app.name, "web");
    assert_eq!(app.created_on, 42);
    assert_eq!(app.containers.len(), 2);
    assert_eq!(app.containers[0].name, "db");
    assert_eq!(app.containers[1].name, "api");
    assert_eq!(app.containers[1].depends_on, vec!["db".to_string()]);
    assert_eq!(app.containers[0].app.id, app.id);
    assert_eq!(app.containers[1].app.name, "web");
    assert!(app.get_container("api").is_some());
    assert!(app.get_container("cache").is_none());
}

#[test]
fn new_application_rejects_empty_name() {
    let t = AppTemplate { name: "".to_string(), containers: vec![container("db", &[])] };
    assert!(matches!(App::new(t, 0), Err(ValidationError::EmptyAppName)));
    let t = AppTemplate { name: "   ".to_string(), containers: vec![] };
    assert!(matches!(App::new(t, 0), Err(ValidationError::EmptyAppName)));
}

#[test]
fn new_application_rejects_invalid_container() {
    let mut c = container("db", &[]);
    c.image = " ".to_string();
    let t = AppTemplate { name: "web".to_string(), containers: vec![c] };
    match App::new(t, 0) {
        Err(ValidationError::EmptyImage(n)) => assert_eq!(n, "db"),
        other => panic!("unexpected {:?}", other),
    }
}

#[test]
fn duplicate_container_name_is_rejected() {
    let t = AppTemplate {
        name: "web".to_string(),
        containers: vec![container("x", &[]), container("x", &[])],
    };
    match App::new(t, 0) {
        Err(ValidationError::DuplicateContainer(n)) => assert_eq!(n, "x"),
        other => panic!("unexpected {:?}", other),
    }
}

#[test]
fn adding_existing_name_is_rejected_and_changes_nothing() {
    let t = AppTemplate { name: "web".to_string(), containers: vec![container("x", &[])] };
    let mut app = App::new(t, 0).ok().unwrap();
    let extra = AppContainer::new(app.identity(), container("x", &[]), 0).ok().unwrap();
    let other = AppContainer::new(app.identity(), container("y", &[]), 0).ok().unwrap();
    match app.add_containers(vec![other, extra]) {
        Err(ValidationError::DuplicateContainer(n)) => assert_eq!(n, "x"),
        other => panic!("unexpected {:?}", other),
    }
    assert_eq!(app.containers.len(), 1);
}

#[test]
fn adding_containers_checks_the_union() {
    let t = AppTemplate { name: "web".to_string(), containers: vec![container("db", &[])] };
    let mut app = App::new(t, 0).ok().unwrap();
    let api = AppContainer::new(app.identity(), container("api", &["db", "cache"]), 0).ok().unwrap();
    let cache = AppContainer::new(app.identity(), container("cache", &[]), 0).ok().unwrap();
    assert!(app.add_containers(vec![api, cache]).is_ok());
    assert_eq!(app.containers.len(), 3);
    assert_eq!(app.containers[2].name, "cache");
}

#[test]
fn unknown_dependency_is_rejected() {
    let t = AppTemplate {
        name: "web".to_string(),
        containers: vec![container("api", &["ghost"])],
    };
    match App::new(t, 0) {
        Err(ValidationError::UnknownDependency { container, dependency }) => {
            assert_eq!(container, "api");
            assert_eq!(dependency, "ghost");
        }
        other => panic!("unexpected {:?}", other),
    }
}

#[test]
fn empty_env_value_names_the_variable() {
    let mut c = container("db", &[]);
    c.env_vars = vec![env("USER", "admin"), env("PASSWORD", "  ")];
    match AppContainer::new(identity(), c, 0) {
        Err(ValidationError::EmptyEnvValue(n)) => assert_eq!(n, "PASSWORD"),
        other => panic!("unexpected {:?}", other),
    }
}

#[test]
fn env_name_errors() {
    let mut c = container("db", &[]);
    c.env_vars = vec![env("", "v")];
    assert!(matches!(AppContainer::new(identity(), c, 0), Err(ValidationError::EmptyEnvName(_))));
    let mut c = container("db", &[]);
    c.env_vars = vec![env("MY VAR", "v")];
    match AppContainer::new(identity(), c, 0) {
        Err(ValidationError::InvalidEnvName(n)) => assert_eq!(n, "MY VAR"),
        other => panic!("unexpected {:?}", other),
    }
    let mut c = container("db", &[]);
    c.env_vars = vec![env("A", "1"), env("A", "2")];
    match AppContainer::new(identity(), c, 0) {
        Err(ValidationError::DuplicateEnvVar(n)) => assert_eq!(n, "A"),
        other => panic!("unexpected {:?}", other),
    }
}

#[test]
fn container_name_errors() {
    assert!(matches!(
        AppContainer::new(identity(), container(" ", &[]), 0),
        Err(ValidationError::EmptyContainerName)
    ));
    match AppContainer::new(identity(), container("my db", &[]), 0) {
        Err(ValidationError::InvalidContainerName(n)) => assert_eq!(n, "my db"),
        other => panic!("unexpected {:?}", other),
    }
}

#[test]
fn duplicate_dependency_is_rejected() {
    match AppContainer::new(identity(), container("api", &["db", "db"]), 0) {
        Err(ValidationError::DuplicateDependency(n)) => assert_eq!(n, "db"),
        other => panic!("unexpected {:?}", other),
    }
}

#[test]
fn colliding_port_bindings_name_both() {
    let a = ContainerPortBinding { host_port: tcp(8080), container_port: tcp(80) };
    let b = ContainerPortBinding {
        host_port: Port { port: 8080, port_type: PortType::TcpUdp },
        container_port: tcp(81),
    };
    let mut c = container("web", &[]);
    c.port_bindings = vec![a, b];
    match AppContainer::new(identity(), c, 0) {
        Err(ValidationError::PortCollision(x, y)) => {
            assert_eq!(x, a);
            assert_eq!(y, b);
        }
        other => panic!("unexpected {:?}", other),
    }
}

#[test]
fn udp_and_tcp_on_same_port_do_not_collide() {
    let a = ContainerPortBinding { host_port: tcp(53), container_port: tcp(53) };
    let b = ContainerPortBinding {
        host_port: Port { port: 53, port_type: PortType::Udp },
        container_port: Port { port: 53, port_type: PortType::Udp },
    };
    let mut c = container("dns", &[]);
    c.port_bindings = vec![a, b];
    c.volumes = vec![AppVolume { name: "data".to_string(), variant: AppVolumeType::Internal }];
    let built = AppContainer::new(identity(), c, 5).ok().unwrap();
    assert_eq!(built.port_bindings.len(), 2);
    assert_eq!(built.created_on, 5);
    assert_eq!(built.app.id, AppId(7));
}

#[test]
fn container_template_round_trip() {
    let mut c = container("db", &[]);
    c.env_vars = vec![env("A", "1")];
    let built = AppContainer::new(identity(), c, 0).ok().unwrap();
    let t = built.to_template();
    assert_eq!(t.name, "db");
    assert_eq!(t.image, "nginx:latest");
    assert_eq!(t.env_vars[0].value, "1");
}

#[test]
fn app_template_round_trip() {
    let t = AppTemplate { name: "web".to_string(), containers: vec![container("db", &[])] };
    let app = App::new(t, 0).ok().unwrap();
    let back = app.to_template();
    assert_eq!(back.name, "web");
    assert_eq!(back.containers.len(), 1);
    assert_eq!(back.containers[0].name, "db");
}

#[test]
fn blank_app_name_comes_before_container_errors() {
    let mut bad = container("db", &[]);
    bad.image = "".to_string();
    let t = AppTemplate { name: " ".to_string(), containers: vec![bad, container("db", &["ghost"])] };
    assert!(matches!(App::new(t, 0), Err(ValidationError::EmptyAppName)));
}

#[test]
fn invalid_container_error_comes_before_name_and_dependency_errors() {
    let mut c = container("api", &["ghost"]);
    c.env_vars = vec![env("TOKEN", "")];
    let t = AppTemplate {
        name: "web".to_string(),
        containers: vec![container("api", &[]), c, container("api", &[])],
    };
    match App::new(t, 0) {
        Err(ValidationError::EmptyEnvValue(n)) => assert_eq!(n, "TOKEN"),
        other => panic!("unexpected {:?}", other),
    }
}

#[test]
fn env_error_comes_before_dependency_and_port_errors() {
    let a = ContainerPortBinding { host_port: tcp(80), container_port: tcp(80) };
    let mut c = container("db", &["x", "x"]);
    c.env_vars = vec![env("A", "1"), env("B", " "), env("C", "")];
    c.port_bindings = vec![a, a];
    match AppContainer::new(identity(), c, 0) {
        Err(ValidationError::EmptyEnvValue(n)) => assert_eq!(n, "B"),
        other => panic!("unexpected {:?}", other),
    }
}

#[test]
fn duplicate_volume_name_is_rejected() {
    let mut c = container("db", &[]);
    c.volumes = vec![
        AppVolume { name: "data".to_string(), variant: AppVolumeType::Internal },
        AppVolume { name: "data".to_string(), variant: AppVolumeType::Disposable },
    ];
    match AppContainer::new(identity(), c, 0) {
        Err(ValidationError::DuplicateVolume(n)) => assert_eq!(n, "data"),
        other => panic!("unexpected {:?}", other),
    }
}

#[test]
fn duplicate_name_comes_before_unknown_dependency() {
    let t = AppTemplate { name: "web".to_string(), containers: vec![container("x", &[])] };
    let mut app = App::new(t, 0).ok().unwrap();
    let a = AppContainer::new(app.identity(), container("y", &["ghost"]), 0).ok().unwrap();
    let b = AppContainer::new(app.identity(), container("x", &[]), 0).ok().unwrap();
    match app.add_containers(vec![a, b]) {
        Err(ValidationError::DuplicateContainer(n)) => assert_eq!(n, "x"),
        other => panic!("unexpected {:?}", other),
    }
    assert_eq!(app.containers.len(), 1);
}
