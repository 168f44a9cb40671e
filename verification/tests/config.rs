use awsome::client::InstanceEntry;
use awsome::config::{AwsomeConfig, Chosen, ConfigError, IndexChoice, ProfileGroup};

fn group(profile: &str, instance_id: &str) -> ProfileGroup {
    ProfileGroup {
        profile: profile.to_string(),
        instance_id: instance_id.to_string(),
    }
}

fn three(selected: usize) -> AwsomeConfig {
    AwsomeConfig {
        selected,
        groups: vec![group("a", "i-a"), group("b", "i-b"), group("c", "i-c")],
    }
}

#[test]
fn remove_group_shifts_selection_down_when_earlier_group_removed() {
    let mut config = three(2);

    let removed = config.remove_group(0).unwrap();
    assert_eq!(removed.profile, "a");
    // "c" was selected (index 2); after dropping "a" it's now index 1.
    assert_eq!(config.selected, 1);
    assert_eq!(config.groups.len(), 2);
    assert_eq!(config.groups[config.selected].profile, "c");
}

#[test]
fn remove_group_errors_when_removing_selected_group() {
    let mut config = three(1);

    assert!(config.remove_group(1).is_err());
    // Nothing should have changed on error.
    assert_eq!(config.selected, 1);
    assert_eq!(config.groups.len(), 3);
}

#[test]
fn remove_group_keeps_selection_when_later_group_removed() {
    let mut config = three(0);

    config.remove_group(2).unwrap();
    assert_eq!(config.selected, 0);
    assert_eq!(config.groups[config.selected].profile, "a");
}

#[test]
fn profile_group_display() {
    assert_eq!(
        console::strip_ansi_codes(&group("james-bond", "i-045").to_string()),
        "i-045 james-bond"
    );
}

#[test]
fn get_selected_rejects_an_out_of_bounds_persisted_selection() {
    let config = AwsomeConfig {
        selected: 1,
        groups: vec![group("a", "i-a")],
    };

    let error = match config.get_selected() {
        Ok(_) => panic!("expected an out-of-bounds selected group to fail"),
        Err(error) => error.message(),
    };
    assert!(error.contains("config corruption"), "{error}");
    assert!(error.contains("#2"), "{error}");
}

#[test]
fn remove_group_rejects_an_out_of_bounds_index_without_mutating_config() {
    let mut config = AwsomeConfig {
        selected: 0,
        groups: vec![group("a", "i-a")],
    };

    assert!(config.remove_group(1).is_err());
    assert_eq!(config.groups.len(), 1);
    assert_eq!(config.selected, 0);
}

#[test]
fn select_then_get_returns_the_chosen_group() {
    let mut config = three(0);
    let chosen = config.set_selected(IndexChoice::Given(3)).unwrap();
    assert_eq!(chosen.profile, "c");
    assert_eq!(config.selected, 2);
    assert_eq!(config.get_selected().unwrap().instance_id, "i-c");
    let picked = config.set_selected(IndexChoice::Picked(1)).unwrap();
    assert_eq!(picked.profile, "b");
    assert_eq!(config.get_selected().unwrap().profile, "b");
}

#[test]
fn set_selected_refuses_bad_indexes_and_leaves_the_selection() {
    let mut config = three(1);
    let e = config.set_selected(IndexChoice::Given(0)).unwrap_err();
    assert_eq!(e.message(), "expected an index number greater than 0");
    let e = config.set_selected(IndexChoice::Given(4)).unwrap_err();
    assert_eq!(e.message(), "#4 is out of index for the current configuration");
    let e = config.set_selected(IndexChoice::Picked(3)).unwrap_err();
    assert_eq!(e.message(), "#4 is out of index for the current configuration");
    assert_eq!(config.selected, 1);
    let mut empty = AwsomeConfig::new();
    let e = empty.set_selected(IndexChoice::Given(1)).unwrap_err();
    assert_eq!(e.message(), "no configured groups available");
}

#[test]
fn remove_by_choice_uses_one_based_indexes() {
    let mut config = three(2);
    let removed = config.remove(IndexChoice::Given(1)).unwrap();
    assert_eq!(removed.profile, "a");
    assert_eq!(config.get_selected().unwrap().profile, "c");
    assert!(matches!(config.remove(IndexChoice::Given(0)), Err(ConfigError::IndexNotPositive)));
    assert_eq!(
        config.remove(IndexChoice::Given(2)).unwrap_err().message(),
        "index cannot be the same as the selected config"
    );
    assert_eq!(
        config.remove(IndexChoice::Picked(5)).unwrap_err().message(),
        "index out of bounds for available configs"
    );
    assert!(matches!(
        AwsomeConfig::new().remove(IndexChoice::Picked(0)),
        Err(ConfigError::NoGroups)
    ));
}

#[test]
fn adding_to_an_empty_config_selects_the_new_group() {
    let mut config = AwsomeConfig::new();
    assert!(config.ensure_groups_exist().is_err());
    config.add(group("a", "i-a"));
    assert!(config.ensure_groups_exist().is_ok());
    assert_eq!(config.get_selected().unwrap().profile, "a");
    config.add(group("b", "i-b"));
    assert_eq!(config.get_selected().unwrap().profile, "a");
    assert_eq!(config.groups[1].profile, "b");
}

#[test]
fn listing_marks_the_selected_group() {
    assert_eq!(AwsomeConfig::new().to_string(), "i empty configuration");
    assert_eq!(
        three(1).to_string(),
        "1.   i-a a\n2. \u{2713} i-b b\n3.   i-c c"
    );
}

#[test]
fn resolve_profile_checks_named_and_picked_profiles() {
    let profiles = vec!["dev".to_string(), "prod".to_string()];
    assert_eq!(
        AwsomeConfig::resolve_profile(&profiles, Chosen::Given("prod".to_string())).unwrap(),
        "prod"
    );
    let e = AwsomeConfig::resolve_profile(&profiles, Chosen::Given("qa".to_string())).unwrap_err();
    assert_eq!(
        e.message(),
        "AWS CLI profile qa was not found. Available profiles: dev, prod"
    );
    assert_eq!(AwsomeConfig::resolve_profile(&profiles, Chosen::Picked(0)).unwrap(), "dev");
    assert!(matches!(
        AwsomeConfig::resolve_profile(&profiles, Chosen::Picked(2)),
        Err(ConfigError::NoSuchProfile)
    ));
}

#[test]
fn resolve_instance_id_checks_named_and_picked_instances() {
    let instances = vec![InstanceEntry {
        instance_id: "i-1".to_string(),
        name: "web".to_string(),
        state: "running".to_string(),
    }];
    assert_eq!(
        AwsomeConfig::resolve_instance_id(&instances, "dev", Chosen::Given("i-1".to_string()))
            .unwrap(),
        "i-1"
    );
    let e = AwsomeConfig::resolve_instance_id(&instances, "dev", Chosen::Given("i-2".to_string()))
        .unwrap_err();
    assert_eq!(e.message(), "EC2 instance i-2 was not found under profile `dev`.");
    assert_eq!(
        AwsomeConfig::resolve_instance_id(&instances, "dev", Chosen::Picked(0)).unwrap(),
        "i-1"
    );
    assert_eq!(
        AwsomeConfig::resolve_instance_id(&instances, "dev", Chosen::Picked(1))
            .unwrap_err()
            .message(),
        "failed to get instance"
    );
}

#[test]
fn default_config_is_empty_with_the_first_index_selected() {
    let config = AwsomeConfig::default();
    assert_eq!(config.selected, 0);
    assert!(config.groups.is_empty());
    assert!(matches!(config.get_selected(), Err(ConfigError::NoGroups)));
}
