use shuttle_api::auth::validate_user_for_deployment;
use shuttle_api::auth::validate_user_for_project;
use shuttle_api::auth::User;
use shuttle_api::auth::UserDirectory;
use shuttle_api::manager::DeploymentSystem;
use shuttle_api::manager::MAX_DEPLOYS;
use shuttle_api::proxy::extract_host;
use shuttle_api::render::i64_dec;
use shuttle_api::render::u128_dec;
use shuttle_api::render::uuid_string;
use shuttle_api::types::DatabaseReadyInfo;
use shuttle_api::types::DeploymentApiError;
use shuttle_api::types::ProjectConfig;
use shuttle_api::DeploymentMeta;

fn alice() -> User {
    User { name: "alice".to_string(), projects: vec!["a".to_string()] }
}

#[test]
fn connection_string_is_exact() {
    let info = DatabaseReadyInfo::new("user".to_string(), "pw".to_string(), "db".to_string());
    assert_eq!(info.connection_string("localhost"), "postgres://user:pw@localhost/db");
    assert_eq!(info.connection_string("pg.example"), "postgres://user:pw@pg.example/db");
}

#[test]
fn create_host_appends_the_app_suffix() {
    let config = ProjectConfig::new("foo".to_string());
    assert_eq!(DeploymentMeta::create_host(&config), "foo.shuttleapp.rs");
}

#[test]
fn project_name_validity() {
    assert!(ProjectConfig::new("foo".to_string()).has_valid_name());
    assert!(ProjectConfig::new("a-b9".to_string()).has_valid_name());
    assert!(ProjectConfig::new("9lives".to_string()).has_valid_name());
    assert!(!ProjectConfig::new("".to_string()).has_valid_name());
    assert!(!ProjectConfig::new("Foo".to_string()).has_valid_name());
    assert!(!ProjectConfig::new("-foo".to_string()).has_valid_name());
    assert!(!ProjectConfig::new("fo o".to_string()).has_valid_name());
    assert!(ProjectConfig::new("a".repeat(63)).has_valid_name());
    assert!(!ProjectConfig::new("a".repeat(64)).has_valid_name());
}

#[test]
fn decimal_rendering_is_exact() {
    assert_eq!(u128_dec(0), "0");
    assert_eq!(u128_dec(7), "7");
    assert_eq!(u128_dec(120034), "120034");
    assert_eq!(i64_dec(-42), "-42");
    assert_eq!(i64_dec(0), "0");
    assert_eq!(i64_dec(i64::MIN), "-9223372036854775808");
}

#[test]
fn identifier_rendering_is_the_canonical_hyphenated_form() {
    let n: u128 = 0x123e4567_e89b_12d3_a456_426614174000;
    assert_eq!(uuid_string(n), "123e4567-e89b-12d3-a456-426614174000");
    assert_eq!(uuid_string(n), uuid::Uuid::from_u128(n).to_string());
    assert_eq!(uuid_string(7), "00000000-0000-0000-0000-000000000007");
    assert_eq!(uuid_string(u128::MAX), "ffffffff-ffff-ffff-ffff-ffffffffffff");
}

#[test]
fn deployment_report_prints_every_field() {
    let mut sys = DeploymentSystem::new(MAX_DEPLOYS, 8000, 4);
    let meta = sys.deploy_with_id(7, 1234, &ProjectConfig::new("foo".to_string()), &vec![1u8]).unwrap();
    let expected = "\n        Project:            foo\
                    \n        Deployment Id:      00000000-0000-0000-0000-000000000007\
                    \n        Deployment Status:  QUEUED\
                    \n        Host:               foo.shuttleapp.rs\
                    \n        Created At:         1234\
                    \n        ";
    assert_eq!(meta.display_string(), expected);
}

#[test]
fn error_reports_name_their_class() {
    assert_eq!(
        DeploymentApiError::Internal("boom".to_string()).display_string(),
        "internal: boom"
    );
    assert_eq!(
        DeploymentApiError::Unavailable("busy".to_string()).display_string(),
        "unavailable: busy"
    );
    assert_eq!(
        DeploymentApiError::NotFound("gone".to_string()).display_string(),
        "not found: gone"
    );
    assert_eq!(
        DeploymentApiError::BadRequest("bad".to_string()).display_string(),
        "bad request: bad"
    );
    assert_eq!(
        DeploymentApiError::ProjectAlreadyExists("taken".to_string()).display_string(),
        "conflict: taken"
    );
}

#[test]
fn unauthorized_project_access_reads_as_not_found() {
    let user = alice();
    assert!(validate_user_for_project(&user, &"a".to_string()).is_ok());
    match validate_user_for_project(&user, &"b".to_string()) {
        Err(DeploymentApiError::NotFound(msg)) => {
            assert_eq!(msg, "could not find project `b`")
        }
        other => panic!("expected not found, got {:?}", other),
    }
}

#[test]
fn unauthorized_deployment_access_reads_as_not_found() {
    let user = alice();
    let mut sys = DeploymentSystem::new(MAX_DEPLOYS, 8000, 4);
    let meta = sys.deploy_with_id(7, 0, &ProjectConfig::new("b".to_string()), &vec![1u8]).unwrap();
    match validate_user_for_deployment(&user, &meta) {
        Err(DeploymentApiError::NotFound(msg)) => {
            assert_eq!(msg, "could not find deployment `00000000-0000-0000-0000-000000000007`")
        }
        other => panic!("expected not found, got {:?}", other),
    }
    let owned = sys.deploy(&ProjectConfig::new("a".to_string()), &vec![1u8]).unwrap();
    assert!(validate_user_for_deployment(&user, &owned).is_ok());
}

#[test]
fn host_header_extraction() {
    let head = b"GET / HTTP/1.1\r\nAccept: */*\r\nHOST:  FOO.ShuttleApp.RS:8000 \r\n\r\n".to_vec();
    assert_eq!(extract_host(&head), Some(b"foo.shuttleapp.rs".to_vec()));
    let no_host = b"GET / HTTP/1.1\r\nAccept: */*\r\n\r\n".to_vec();
    assert_eq!(extract_host(&no_host), None);
    let empty_host = b"GET / HTTP/1.1\r\nHost:   \r\n\r\n".to_vec();
    assert_eq!(extract_host(&empty_host), None);
    let bare = b"Host: x\r\n".to_vec();
    assert_eq!(extract_host(&bare), Some(b"x".to_vec()));
}

#[test]
fn user_directory_keys_and_project_claims() {
    let mut dir = UserDirectory::new();
    let key1 = dir.get_or_create(&"alice".to_string());
    let key2 = dir.get_or_create(&"alice".to_string());
    assert_eq!(key1, key2);
    let key3 = dir.get_or_create(&"bob".to_string());
    assert_ne!(key1, key3);

    // Alice claims a free project; Bob cannot take it; Alice may reuse it.
    assert!(dir.validate_or_create_project(&"alice".to_string(), &"a".to_string()).is_ok());
    match dir.validate_or_create_project(&"bob".to_string(), &"a".to_string()) {
        Err(DeploymentApiError::ProjectAlreadyExists(msg)) => {
            assert_eq!(msg, "project already exists")
        }
        other => panic!("expected conflict, got {:?}", other),
    }
    assert!(dir.validate_or_create_project(&"alice".to_string(), &"a".to_string()).is_ok());
    match dir.validate_or_create_project(&"mallory".to_string(), &"m".to_string()) {
        Err(DeploymentApiError::NotFound(msg)) => assert_eq!(msg, "could not find user"),
        other => panic!("expected not found, got {:?}", other),
    }
}

#[test]
fn fresh_metadata_starts_clean() {
    let config = ProjectConfig::new("foo".to_string());
    let queued = DeploymentMeta::queued(&config);
    assert!(matches!(queued.state, shuttle_api::types::DeploymentStateMeta::Queued));
    assert_eq!(queued.host, "foo.shuttleapp.rs");
    assert!(queued.build_logs.is_none());
    assert!(queued.runtime_logs.is_none());
    assert!(queued.database_deployment.is_none());

    let built = DeploymentMeta::built(&config);
    assert!(matches!(built.state, shuttle_api::types::DeploymentStateMeta::Built));
    // Fresh identifiers come from outside; two draws never collide in practice.
    assert_ne!(queued.id, built.id);
}

#[test]
fn deployment_report_includes_the_database_line() {
    let mut sys = DeploymentSystem::new(MAX_DEPLOYS, 8000, 4);
    let meta = sys
        .deploy_with_id(7, 1234, &ProjectConfig::new("foo".to_string()), &vec![1u8])
        .unwrap();
    let info = DatabaseReadyInfo::new("u".to_string(), "p".to_string(), "d".to_string());
    let meta = sys.attach_database(meta.id, info).unwrap();
    let expected = "\n        Project:            foo\
                    \n        Deployment Id:      00000000-0000-0000-0000-000000000007\
                    \n        Deployment Status:  QUEUED\
                    \n        Host:               foo.shuttleapp.rs\
                    \n        Created At:         1234\
                    \n        Database URI:       postgres://u:p@localhost/d\
                    \n        ";
    assert_eq!(meta.display_string(), expected);
}
