use onix::networking::{ContainerPortBinding, Port, PortType};

fn port(port: u16, port_type: PortType) -> Port {
    Port { port, port_type }
}

#[test]
fn port_type_overlap() {
    assert!(PortType::Tcp.collides_with(PortType::Tcp));
    assert!(PortType::Udp.collides_with(PortType::Udp));
    assert!(PortType::TcpUdp.collides_with(PortType::Tcp));
    assert!(PortType::Udp.collides_with(PortType::TcpUdp));
    assert!(PortType::TcpUdp.collides_with(PortType::TcpUdp));
    assert!(!PortType::Tcp.collides_with(PortType::Udp));
    assert!(!PortType::Udp.collides_with(PortType::Tcp));
}

#[test]
fn port_coverage() {
    assert!(PortType::TcpUdp.covers_tcp() && PortType::TcpUdp.covers_udp());
    assert!(PortType::Tcp.covers_tcp() && !PortType::Tcp.covers_udp());
    assert!(!PortType::Udp.covers_tcp() && PortType::Udp.covers_udp());
}

#[test]
fn port_collision_needs_same_number() {
    assert!(port(80, PortType::Tcp).collides_with(port(80, PortType::TcpUdp)));
    assert!(!port(80, PortType::Tcp).collides_with(port(81, PortType::Tcp)));
    assert!(!port(53, PortType::Tcp).collides_with(port(53, PortType::Udp)));
}

#[test]
fn docker_port_text() {
    assert_eq!(port(80, PortType::Tcp).to_docker_port(), "80/tcp");
    assert_eq!(port(53, PortType::Udp).to_docker_port(), "53/udp");
    assert_eq!(port(8080, PortType::TcpUdp).to_docker_port(), "8080");
    assert_eq!(port(0, PortType::TcpUdp).to_docker_port(), "0");
    assert_eq!(port(65535, PortType::Tcp).to_docker_port(), "65535/tcp");
}

#[test]
fn find_collision_reports_both_bindings() {
    let a = ContainerPortBinding { host_port: port(8080, PortType::Tcp), container_port: port(80, PortType::Tcp) };
    let b = ContainerPortBinding { host_port: port(8081, PortType::Tcp), container_port: port(81, PortType::Tcp) };
    let c = ContainerPortBinding { host_port: port(8080, PortType::TcpUdp), container_port: port(90, PortType::Udp) };
    assert_eq!(ContainerPortBinding::find_collision(&[a, b]), None);
    assert_eq!(ContainerPortBinding::find_collision(&[a, b, c]), Some((a, c)));
    assert_eq!(ContainerPortBinding::find_collision(&[]), None);
    assert_eq!(ContainerPortBinding::find_collision(&[a]), None);
}

#[test]
fn bindings_collide_on_either_side() {
    let a = ContainerPortBinding { host_port: port(1, PortType::Tcp), container_port: port(2, PortType::Tcp) };
    let b = ContainerPortBinding { host_port: port(3, PortType::Tcp), container_port: port(2, PortType::Tcp) };
    let c = ContainerPortBinding { host_port: port(1, PortType::Udp), container_port: port(2, PortType::Udp) };
    assert!(a.collides_with(b));
    assert!(!a.collides_with(c));
}
