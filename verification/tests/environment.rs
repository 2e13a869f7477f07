use fabro::environment::{
    EnvironmentLifecycleSettings, EnvironmentNetworkMode, EnvironmentNetworkSettings,
    EnvironmentProvider, EnvironmentResourcesSettings, EnvironmentSettings, ParseNameError,
    RunEnvironmentSettings,
};

#[test]
fn environment_provider_round_trips_via_strum() {
    assert_eq!(EnvironmentProvider::Docker.to_string(), "docker");
    assert_eq!(
        "daytona".parse::<EnvironmentProvider>().unwrap(),
        EnvironmentProvider::Daytona
    );
}

#[test]
fn lifecycle_defaults_match_plan() {
    let lifecycle = EnvironmentLifecycleSettings::default();
    assert!(!lifecycle.preserve);
    assert!(lifecycle.stop_on_terminal);
    assert!(lifecycle.auto_stop.is_none());
}

#[test]
fn environment_settings_default_uses_local_provider() {
    let env = EnvironmentSettings::default();
    assert_eq!(env.provider, EnvironmentProvider::Local);
}

#[test]
fn network_mode_names_are_snake_case() {
    assert_eq!(EnvironmentNetworkMode::CidrAllowList.to_string(), "cidr_allow_list");
    assert_eq!(
        "allow_all".parse::<EnvironmentNetworkMode>(),
        Ok(EnvironmentNetworkMode::AllowAll)
    );
    assert_eq!(
        "AllowAll".parse::<EnvironmentNetworkMode>(),
        Err(ParseNameError {
            input: "AllowAll".to_string()
        })
    );
}

#[test]
fn every_provider_name_parses_back() {
    for p in [
        EnvironmentProvider::Local,
        EnvironmentProvider::Docker,
        EnvironmentProvider::Daytona,
    ] {
        assert_eq!(EnvironmentProvider::parse(p.as_str()), Ok(p));
    }
    assert!(EnvironmentProvider::parse("Docker").is_err());
}

#[test]
fn default_parts_are_empty() {
    assert!(EnvironmentResourcesSettings::default().is_empty());
    assert!(EnvironmentNetworkSettings::default().is_default());
    assert!(EnvironmentLifecycleSettings::default().is_default());
    let env = EnvironmentSettings::default();
    assert!(env.image.is_empty());
    assert!(env.labels.is_empty() && env.volumes.is_empty() && env.env.is_empty());
    let run = RunEnvironmentSettings::default();
    assert_eq!(run.id, "default");
    assert_eq!(run.environment, env);
    let preserved = EnvironmentLifecycleSettings {
        preserve: true,
        ..EnvironmentLifecycleSettings::default()
    };
    assert!(!preserved.is_default());
}
