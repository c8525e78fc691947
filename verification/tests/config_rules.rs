use graphql_gateway::config::{
    declares_name, find_dangling, find_duplicate, is_version_served, load, validate, ConfigError,
    Configuration, Model, Property, Relationship, FIRST_VERSION, LATEST_VERSION,
};

fn property(name: &str, kind: &str) -> Property {
    Property { name: name.to_string(), kind: kind.to_string() }
}

fn relationship(name: &str, targets: &[&str], is_list: bool) -> Relationship {
    Relationship {
        name: name.to_string(),
        targets: targets.iter().map(|t| t.to_string()).collect(),
        is_list,
    }
}

fn model(name: &str, relationships: Vec<Relationship>) -> Model {
    Model { name: name.to_string(), properties: vec![property("name", "String")], relationships }
}

fn users_and_projects() -> Configuration {
    Configuration {
        version: 1,
        models: vec![
            model("User", vec![]),
            model("Project", vec![relationship("users", &["User"], true)]),
        ],
    }
}

#[test]
fn first_and_latest_versions_are_one_and_two() {
    assert_eq!(FIRST_VERSION, 1);
    assert_eq!(LATEST_VERSION, 2);
}

#[test]
fn versions_one_and_two_are_served_and_no_other() {
    assert!(is_version_served(1));
    assert!(is_version_served(2));
    assert!(!is_version_served(0));
    assert!(!is_version_served(3));
    assert!(!is_version_served(100));
    assert!(!is_version_served(-1));
    assert!(!is_version_served(i32::MAX));
    assert!(!is_version_served(i32::MIN));
}

#[test]
fn description_of_the_latest_version_is_accepted() {
    let mut config = users_and_projects();
    config.version = 2;
    let accepted = load(Some(config.clone())).expect("version 2 is served");
    assert_eq!(accepted.version, 2);
    assert_eq!(accepted.models.len(), 2);
    assert_eq!(accepted, config);
    assert_eq!(validate(config.clone()), Ok(config));
}

#[test]
fn rules_hold_for_the_latest_version_too() {
    let config = Configuration {
        version: 2,
        models: vec![
            model("User", vec![]),
            model("Project", vec![relationship("users", &["Usr"], true)]),
        ],
    };
    assert_eq!(
        load(Some(config)),
        Err(ConfigError::DanglingRelationshipTarget {
            model: "Project".to_string(),
            relationship: "users".to_string(),
            target: "Usr".to_string(),
        })
    );
    let config = Configuration {
        version: 2,
        models: vec![model("User", vec![]), model("User", vec![])],
    };
    assert_eq!(
        load(Some(config)),
        Err(ConfigError::DuplicateModelName { model: "User".to_string() })
    );
}

#[test]
fn valid_description_is_accepted_whole() {
    let config = users_and_projects();
    let accepted = load(Some(config.clone())).expect("a valid description is accepted");
    assert_eq!(accepted.models.len(), 2);
    assert_eq!(accepted, config);
}

#[test]
fn validate_accepts_what_load_accepts() {
    let config = users_and_projects();
    assert_eq!(validate(config.clone()), Ok(config));
}

#[test]
fn empty_description_is_accepted() {
    let config = Configuration { version: 1, models: vec![] };
    assert_eq!(load(Some(config.clone())), Ok(config));
}

#[test]
fn model_may_refer_to_itself_and_to_later_models() {
    let config = Configuration {
        version: 1,
        models: vec![
            model("Team", vec![relationship("parent", &["Team"], false)]),
            model("Project", vec![relationship("owner", &["User", "Team"], false)]),
            model("User", vec![]),
        ],
    };
    let accepted = load(Some(config.clone())).expect("every target is declared");
    assert_eq!(accepted.models.len(), 3);
}

#[test]
fn source_without_description_is_malformed() {
    assert_eq!(load(None), Err(ConfigError::Malformed));
}

#[test]
fn unsupported_version_is_refused() {
    let mut config = users_and_projects();
    config.version = 3;
    assert_eq!(load(Some(config)), Err(ConfigError::UnsupportedVersion { version: 3 }));
    let mut config = users_and_projects();
    config.version = 100;
    assert_eq!(load(Some(config)), Err(ConfigError::UnsupportedVersion { version: 100 }));
}

#[test]
fn version_zero_is_refused() {
    let config = Configuration { version: 0, models: vec![] };
    assert_eq!(load(Some(config)), Err(ConfigError::UnsupportedVersion { version: 0 }));
}

#[test]
fn duplicate_model_name_is_refused() {
    let config = Configuration {
        version: 1,
        models: vec![model("User", vec![]), model("Project", vec![]), model("User", vec![])],
    };
    assert_eq!(
        load(Some(config)),
        Err(ConfigError::DuplicateModelName { model: "User".to_string() })
    );
}

#[test]
fn first_repeated_name_is_reported() {
    let config = Configuration {
        version: 1,
        models: vec![
            model("A", vec![]),
            model("B", vec![]),
            model("B", vec![]),
            model("A", vec![]),
        ],
    };
    assert_eq!(find_duplicate(&config.models), Some(2));
    assert_eq!(load(Some(config)), Err(ConfigError::DuplicateModelName { model: "B".to_string() }));
}

#[test]
fn dangling_target_is_refused() {
    let config = Configuration {
        version: 1,
        models: vec![
            model("User", vec![]),
            model("Project", vec![relationship("users", &["Usr"], true)]),
        ],
    };
    assert_eq!(
        load(Some(config)),
        Err(ConfigError::DanglingRelationshipTarget {
            model: "Project".to_string(),
            relationship: "users".to_string(),
            target: "Usr".to_string(),
        })
    );
}

#[test]
fn first_dangling_target_is_reported() {
    let config = Configuration {
        version: 1,
        models: vec![
            model("User", vec![relationship("friends", &["User"], true)]),
            model(
                "Project",
                vec![
                    relationship("users", &["User"], true),
                    relationship("owner", &["User", "Team", "Group"], false),
                ],
            ),
            model("Board", vec![relationship("lists", &["List"], true)]),
        ],
    };
    assert_eq!(find_dangling(&config.models), Some((1, 1, 1)));
    assert_eq!(
        load(Some(config)),
        Err(ConfigError::DanglingRelationshipTarget {
            model: "Project".to_string(),
            relationship: "owner".to_string(),
            target: "Team".to_string(),
        })
    );
}

#[test]
fn target_names_are_compared_exactly() {
    let config = Configuration {
        version: 1,
        models: vec![model("User", vec![relationship("friends", &["user"], true)])],
    };
    assert_eq!(
        load(Some(config)),
        Err(ConfigError::DanglingRelationshipTarget {
            model: "User".to_string(),
            relationship: "friends".to_string(),
            target: "user".to_string(),
        })
    );
}

#[test]
fn version_is_checked_before_names() {
    let config = Configuration {
        version: 3,
        models: vec![model("User", vec![]), model("User", vec![])],
    };
    assert_eq!(load(Some(config)), Err(ConfigError::UnsupportedVersion { version: 3 }));
}

#[test]
fn names_are_checked_before_targets() {
    let config = Configuration {
        version: 1,
        models: vec![
            model("User", vec![relationship("friends", &["Nobody"], true)]),
            model("User", vec![]),
        ],
    };
    assert_eq!(
        load(Some(config)),
        Err(ConfigError::DuplicateModelName { model: "User".to_string() })
    );
}

#[test]
fn loading_twice_gives_the_same_answer() {
    let config = users_and_projects();
    assert_eq!(load(Some(config.clone())), load(Some(config)));
}

#[test]
fn declared_names_are_found() {
    let config = users_and_projects();
    assert!(declares_name(&config.models, &"User".to_string()));
    assert!(declares_name(&config.models, &"Project".to_string()));
    assert!(!declares_name(&config.models, &"Team".to_string()));
    assert!(!declares_name(&Vec::new(), &"User".to_string()));
}

#[test]
fn nothing_to_find_in_a_valid_description() {
    let config = users_and_projects();
    assert_eq!(find_duplicate(&config.models), None);
    assert_eq!(find_dangling(&config.models), None);
}
