use arm_backend::readiness::{
    evaluate, validate_config, Config, ConfigError, ServiceReport, ServiceSpec, ServiceState,
};

fn spec(id: &str, dependencies: &[&str]) -> ServiceSpec {
    ServiceSpec { service_id: id.into(), dependencies: dependencies.iter().map(|d| (*d).into()).collect() }
}

fn state(running: bool, output: bool) -> ServiceState {
    ServiceState {
        schema_version: 1,
        build_version: "0.1.0".into(),
        config_version: 0,
        running,
        has_input: false,
        has_output: output,
        last_error: None,
        updated_at_ns: 0,
    }
}

fn report(id: &str) -> ServiceReport {
    ServiceReport { service_id: id.into(), state: state(true, true) }
}

// Services are listed in id order, as the configuration map orders them.
fn config() -> Config {
    Config { services: vec![spec("consumer", &["source"]), spec("source", &[])] }
}

#[test]
fn missing_and_unready_dependencies_are_reported_without_timeout_logic() {
    let readiness = evaluate(&config(), &vec![ServiceReport { service_id: "consumer".into(), state: state(true, true) }], 1, 7);
    assert!(!readiness.ready);
    assert_eq!(readiness.services[0].service_id, "consumer");
    assert_eq!(readiness.services[0].blocked_by, ["source"]);
    assert!(!readiness.services[1].reported_ready);
}

#[test]
fn all_running_dependencies_become_ready_without_domain_specific_output_rules() {
    let readiness = evaluate(
        &config(),
        &vec![
            ServiceReport { service_id: "source".into(), state: state(true, false) },
            ServiceReport { service_id: "consumer".into(), state: state(true, false) },
        ],
        1,
        9,
    );
    assert!(readiness.ready);
    assert!(readiness.services.iter().all(|service| service.ready));
}

#[test]
fn readiness_follows_dependency_chains() {
    let config = Config {
        services: vec![spec("a", &["b"]), spec("b", &["c"]), spec("c", &[]), spec("d", &[])],
    };
    let readiness = evaluate(&config, &vec![report("a"), report("b"), report("d")], 1, 3);
    assert!(!readiness.ready);
    assert!(!readiness.services[0].ready);
    assert_eq!(readiness.services[0].blocked_by, ["b"]);
    assert!(!readiness.services[1].ready);
    assert_eq!(readiness.services[1].blocked_by, ["c"]);
    assert!(!readiness.services[2].reported_ready);
    assert!(readiness.services[3].ready);
    assert_eq!(readiness.updated_at_ns, 3);
}

#[test]
fn a_stopped_service_is_not_ready() {
    let readiness = evaluate(
        &config(),
        &vec![ServiceReport { service_id: "source".into(), state: state(false, true) }, report("consumer")],
        1,
        1,
    );
    assert!(!readiness.services[1].reported_ready);
    assert!(!readiness.services[1].ready);
    assert!(!readiness.services[0].ready);
}

#[test]
fn unknown_dependencies_are_refused() {
    assert!(validate_config(&config()).is_ok());
    let bad = Config { services: vec![spec("a", &["ghost"])] };
    match validate_config(&bad) {
        Err(ConfigError::UnknownDependency { service, dependency }) => {
            assert_eq!(service, "a");
            assert_eq!(dependency, "ghost");
        }
        Ok(()) => panic!("unknown dependency accepted"),
    }
}

#[test]
fn each_service_carries_the_state_it_reported() {
    let mut consumer = state(true, true);
    consumer.last_error = Some("camera lost".into());
    consumer.config_version = 4;
    let readiness = evaluate(
        &config(),
        &vec![ServiceReport { service_id: "consumer".into(), state: consumer }],
        3,
        11,
    );
    assert_eq!(readiness.schema_version, 3);
    let carried = readiness.services[0].state.as_ref().unwrap();
    assert_eq!(carried.config_version, 4);
    assert_eq!(carried.last_error.as_deref(), Some("camera lost"));
    assert!(carried.has_output);
    assert!(readiness.services[1].state.is_none());
    assert_eq!(readiness.services[1].service_id, "source");
}

#[test]
fn more_running_services_never_lower_readiness() {
    let config = Config {
        services: vec![spec("a", &["b"]), spec("b", &[]), spec("c", &["a", "b"]), spec("d", &[])],
    };
    let fewer = evaluate(&config, &vec![report("a"), report("d")], 1, 1);
    let more = evaluate(&config, &vec![report("a"), report("b"), report("d")], 1, 1);
    let all = evaluate(&config, &vec![report("a"), report("b"), report("c"), report("d")], 1, 1);
    for i in 0..4 {
        assert!(!fewer.services[i].ready || more.services[i].ready);
        assert!(!more.services[i].ready || all.services[i].ready);
    }
    assert!(!fewer.services[0].ready && more.services[0].ready);
    assert!(!more.ready && all.ready);
}
