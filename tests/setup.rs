use moq_transfork::error::ServeError;
use moq_transfork::setup::{Client, Role, Server, FORK_00};

const ROLES: [Role; 4] = [Role::Publisher, Role::Subscriber, Role::Both, Role::Any];

#[test]
fn downgrade_matrix_holds_for_all_pairs() {
    let expected = [
        [Some(Role::Publisher), None, Some(Role::Publisher), Some(Role::Publisher)],
        [None, Some(Role::Subscriber), Some(Role::Subscriber), Some(Role::Subscriber)],
        [Some(Role::Publisher), Some(Role::Subscriber), Some(Role::Both), Some(Role::Both)],
        [Some(Role::Publisher), Some(Role::Subscriber), Some(Role::Both), None],
    ];
    for (i, server) in ROLES.iter().enumerate() {
        for (j, client) in ROLES.iter().enumerate() {
            assert_eq!(server.downgrade(*client), expected[i][j]);
        }
    }
}

#[test]
fn any_server_with_publisher_client_publishes() {
    let reply = Server::any()
        .role(0, Client { versions: vec![1, FORK_00], role: Some(Role::Publisher) })
        .expect("compatible");
    assert_eq!(reply.role, Role::Publisher);
    assert_eq!(reply.version, FORK_00);
}

#[test]
fn incompatible_roles_fail() {
    let r = Server::publisher().role(0, Client { versions: vec![FORK_00], role: Some(Role::Subscriber) });
    assert!(matches!(r, Err(ServeError::RoleIncompatible(Role::Subscriber, Role::Publisher))));
    assert!(r.unwrap_err().is_fatal());
}

#[test]
fn missing_version_fails() {
    let r = Server::both().role(0, Client { versions: vec![7, 8], role: None });
    match r {
        Err(ServeError::Version(v, want)) => {
            assert_eq!(v, vec![7, 8]);
            assert_eq!(want, FORK_00);
        }
        _ => panic!("expected a version error"),
    }
}

#[test]
fn wrong_stream_tag_fails() {
    let r = Server::subscriber().role(2, Client { versions: vec![FORK_00], role: None });
    assert!(matches!(r, Err(ServeError::UnexpectedStream(2))));
}

#[test]
fn absent_client_role_counts_as_any() {
    let r = Server::subscriber().role(0, Client { versions: vec![FORK_00], role: None }).unwrap();
    assert_eq!(r.role, Role::Subscriber);
    let r = Server::any().role(0, Client { versions: vec![FORK_00], role: None });
    assert!(matches!(r, Err(ServeError::RoleIncompatible(Role::Any, Role::Any))));
}

#[test]
fn role_codes_round_trip() {
    for r in ROLES {
        assert_eq!(Role::from_code(r.to_code()), Some(r));
    }
    assert_eq!(Role::Publisher.to_code(), 1);
    assert_eq!(Role::Any.to_code(), 4);
    assert_eq!(Role::from_code(0), None);
    assert_eq!(Role::from_code(5), None);
}

#[test]
fn error_codes_are_stable() {
    assert_eq!(ServeError::Cancel.to_code(), 0);
    assert_eq!(ServeError::NotFound.to_code(), 404);
    assert_eq!(ServeError::Transport(77).to_code(), 77);
}
