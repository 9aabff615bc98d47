use taste_app::env_channel::{IdeChannelServices, Route, Service};
use taste_app::environment::{
    Claim, DiskUsage, EnvironmentId, ReviewState, SupervisorState, WorkspaceState,
};
use taste_app::environments::{create, for_issue, CloneEnd};

#[test]
fn an_issue_id_is_an_environment_id() {
    let env = for_issue("i-0007").unwrap();
    assert_eq!(env.as_str(), "i-0007");
    assert!(!env.is_primary());
}

#[test]
fn what_is_no_single_component_is_no_environment() {
    assert_eq!(EnvironmentId::parse("calm-1").map(|env| env.is_primary()), Ok(false));
    assert!(for_issue("").is_err());
    assert!(for_issue("a/b").unwrap_err().contains("a/b"));
}

#[test]
fn a_clone_that_fails_says_why() {
    let id = || EnvironmentId::new("i-0007");
    assert_eq!(create(id(), CloneEnd::Made), Ok(id()));
    assert_eq!(
        create(id(), CloneEnd::Refused("disk full".into())),
        Err("disk full".to_string())
    );
    assert_eq!(
        create(id(), CloneEnd::Lost("panicked".into())),
        Err("the clone task did not finish: panicked".to_string())
    );
}

#[test]
fn a_channel_reaches_its_own_environment() {
    let env = EnvironmentId::new("calm-1");
    let with = IdeChannelServices { auth_proxy: true };
    let without = IdeChannelServices { auth_proxy: false };
    assert!(with.serves(Service::Mcp) && with.serves(Service::Auth));
    assert!(without.serves(Service::Mcp) && !without.serves(Service::Auth));
    assert_eq!(with.accept(&env, Service::Mcp), Route::Mcp(env.clone()));
    assert_eq!(with.accept(&env, Service::Auth), Route::Auth);
    assert_eq!(without.accept(&env, Service::Auth), Route::Dropped);
    assert_eq!(without.accept(&env, Service::Mcp), Route::Mcp(env));
}

#[test]
fn a_name_is_given_changed_and_taken_back() {
    let mut state = WorkspaceState::default();
    let (calm, spry) = (EnvironmentId::new("calm-1"), EnvironmentId::new("spry-2"));
    assert_eq!(state.environment_name(&calm), None);
    state.set_environment_name(&calm, Some("the refactor"));
    state.set_environment_name(&spry, Some("the other"));
    state.set_environment_name(&calm, Some("renamed"));
    assert_eq!(state.environment_name(&calm), Some("renamed"));
    assert_eq!(state.environment_name(&spry), Some("the other"));
    state.set_environment_name(&calm, None);
    assert_eq!(state.environment_name(&calm), None);
    assert_eq!(state.environment_name(&spry), Some("the other"));
}

#[test]
fn the_plain_facts_of_an_environment() {
    assert!(EnvironmentId::primary().is_primary());
    assert!(EnvironmentId::new("a").same_as(&EnvironmentId::new("a")));
    assert!(!EnvironmentId::new("a").same_as(&EnvironmentId::new("b")));
    assert!(SupervisorState::Running {
        container_id: "abc".into()
    }
    .is_running());
    assert!(!SupervisorState::Stopped.is_running());
    assert!(ReviewState::Merged.settled() && ReviewState::Rejected.settled());
    assert!(!ReviewState::Working.settled() && !ReviewState::FlaggedForReview.settled());
    let disk = DiskUsage {
        checkout_bytes: u64::MAX,
        volume_bytes: 1,
        volumes_measured: 1,
        volumes_unmeasured: 1,
    };
    assert_eq!(disk.total_bytes(), u64::MAX);
    assert!(disk.partial() && !DiskUsage::default().partial());
    let claim = Claim {
        id: "i-0001".into(),
        title: "something".into(),
    };
    assert_eq!(claim.clone(), claim);
}
