use graphql_gateway::config::ConfigError;
use graphql_gateway::endpoint::{EndpointError, Parameter};
use graphql_gateway::startup::{
    failure_message, may_listen, next, run, BuildError, PoolError, Stage, StartupError,
};

#[test]
fn stages_follow_in_order() {
    assert_eq!(next(Stage::LoadConfig, true), Stage::ResolveEndpoint);
    assert_eq!(next(Stage::ResolveEndpoint, true), Stage::EstablishPool);
    assert_eq!(next(Stage::EstablishPool, true), Stage::BuildEngine);
    assert_eq!(next(Stage::BuildEngine, true), Stage::Bind);
    assert_eq!(next(Stage::Bind, true), Stage::Serving);
}

#[test]
fn any_failure_aborts() {
    assert_eq!(next(Stage::LoadConfig, false), Stage::Aborted);
    assert_eq!(next(Stage::ResolveEndpoint, false), Stage::Aborted);
    assert_eq!(next(Stage::EstablishPool, false), Stage::Aborted);
    assert_eq!(next(Stage::BuildEngine, false), Stage::Aborted);
    assert_eq!(next(Stage::Bind, false), Stage::Aborted);
}

#[test]
fn final_stages_stay() {
    assert_eq!(next(Stage::Serving, true), Stage::Serving);
    assert_eq!(next(Stage::Serving, false), Stage::Serving);
    assert_eq!(next(Stage::Aborted, true), Stage::Aborted);
    assert_eq!(next(Stage::Aborted, false), Stage::Aborted);
}

#[test]
fn four_successes_reach_the_listener() {
    assert_eq!(run(&vec![]), Stage::LoadConfig);
    assert_eq!(run(&vec![true]), Stage::ResolveEndpoint);
    assert_eq!(run(&vec![true, true, true]), Stage::BuildEngine);
    assert_eq!(run(&vec![true, true, true, true]), Stage::Bind);
    assert_eq!(run(&vec![true, true, true, true, true]), Stage::Serving);
    assert_eq!(run(&vec![true, true, true, true, true, false]), Stage::Serving);
}

#[test]
fn missing_connection_parameter_never_listens() {
    let reached = run(&vec![true, false]);
    assert_eq!(reached, Stage::Aborted);
    assert!(!may_listen(reached));
    let reached = run(&vec![true, false, true, true, true, true]);
    assert_eq!(reached, Stage::Aborted);
    assert!(!may_listen(reached));
}

#[test]
fn failure_at_each_early_stage_never_listens() {
    for failed in 0..4 {
        let mut outcomes = vec![true; 6];
        outcomes[failed] = false;
        assert!(!may_listen(run(&outcomes)));
    }
}

#[test]
fn only_bind_and_serving_listen() {
    assert!(may_listen(Stage::Bind));
    assert!(may_listen(Stage::Serving));
    assert!(!may_listen(Stage::LoadConfig));
    assert!(!may_listen(Stage::ResolveEndpoint));
    assert!(!may_listen(Stage::EstablishPool));
    assert!(!may_listen(Stage::BuildEngine));
    assert!(!may_listen(Stage::Aborted));
}

#[test]
fn each_stage_has_its_diagnostic() {
    assert_eq!(failure_message(Stage::LoadConfig), "Failed to parse config file");
    assert_eq!(failure_message(Stage::ResolveEndpoint), "Failed to parse endpoint from environment");
    assert_eq!(failure_message(Stage::EstablishPool), "Failed to create db endpoint");
    assert_eq!(failure_message(Stage::BuildEngine), "Failed to build engine");
    assert_eq!(failure_message(Stage::Bind), "Failed to start server");
}

#[test]
fn exhausted_pool_is_not_fatal() {
    assert!(PoolError::ConnectionRefused.is_fatal());
    assert!(PoolError::Timeout.is_fatal());
    assert!(!PoolError::Exhausted.is_fatal());
    assert_eq!(BuildError::CompositionFailed, BuildError::CompositionFailed);
}

#[test]
fn each_startup_error_names_its_stage() {
    assert_eq!(StartupError::Config(ConfigError::Malformed).stage(), Stage::LoadConfig);
    assert_eq!(
        StartupError::Endpoint(EndpointError::MissingParameter(Parameter::Password)).stage(),
        Stage::ResolveEndpoint
    );
    assert_eq!(StartupError::Pool(PoolError::Timeout).stage(), Stage::EstablishPool);
    assert_eq!(StartupError::Build(BuildError::CompositionFailed).stage(), Stage::BuildEngine);
    assert_eq!(StartupError::Bind.stage(), Stage::Bind);
}

#[test]
fn startup_error_never_listens() {
    let errors = vec![
        StartupError::Config(ConfigError::UnsupportedVersion { version: 9 }),
        StartupError::Endpoint(EndpointError::MissingParameter(Parameter::Host)),
        StartupError::Pool(PoolError::ConnectionRefused),
        StartupError::Build(BuildError::CompositionFailed),
        StartupError::Bind,
    ];
    for error in errors {
        assert!(!may_listen(next(error.stage(), false)));
    }
}
