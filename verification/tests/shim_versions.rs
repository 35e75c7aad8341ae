use stackmanager::paths::services_dir;
use stackmanager::shim::{
    get_active_version, join_path, set_active_version, shim_link_path, shim_target_path,
    version_from_target, LinkState, ShimError, ShimPlan, ShimProbe, ShimTarget,
};

#[test]
fn direct_location_wins_over_nested() {
    let probe = ShimProbe { direct_has_exe: true, nested_has_exe: true, link_present: false };
    assert_eq!(
        set_active_version(&probe),
        Ok(ShimPlan { remove_existing: false, target: ShimTarget::Direct })
    );
}

#[test]
fn nested_location_is_used_when_direct_lacks_the_executable() {
    let probe = ShimProbe { direct_has_exe: false, nested_has_exe: true, link_present: true };
    assert_eq!(
        set_active_version(&probe),
        Ok(ShimPlan { remove_existing: true, target: ShimTarget::Nested })
    );
}

#[test]
fn missing_executable_is_target_not_found() {
    let probe = ShimProbe { direct_has_exe: false, nested_has_exe: false, link_present: true };
    assert_eq!(set_active_version(&probe), Err(ShimError::TargetNotFound));
}

#[test]
fn existing_link_is_removed_first() {
    let with_link = ShimProbe { direct_has_exe: true, nested_has_exe: false, link_present: true };
    assert_eq!(set_active_version(&with_link).unwrap().remove_existing, true);
    let without = ShimProbe { direct_has_exe: true, nested_has_exe: false, link_present: false };
    assert_eq!(set_active_version(&without).unwrap().remove_existing, false);
}

#[test]
fn target_and_link_paths_are_joined_under_the_fixed_layout() {
    assert_eq!(join_path("a", "b"), "a/b");
    assert_eq!(
        shim_target_path("/h/.stackmanager/services", "php-8.3", ShimTarget::Direct),
        "/h/.stackmanager/services/php-8.3"
    );
    assert_eq!(
        shim_target_path("/h/.stackmanager/services", "php-8.3", ShimTarget::Nested),
        "/h/.stackmanager/services/php-8.3/php-8.3"
    );
    assert_eq!(shim_link_path("/h/.stackmanager/bin", "php"), "/h/.stackmanager/bin/php");
}

#[test]
fn version_is_the_final_path_segment() {
    assert_eq!(version_from_target("/h/.stackmanager/services/node-20.1"), "node-20.1");
    assert_eq!(version_from_target("node-20.1"), "node-20.1");
    assert_eq!(version_from_target("/ends/with/slash/"), "");
}

#[test]
fn get_active_version_reports_the_three_states() {
    assert_eq!(get_active_version(&LinkState::Absent), "Not Set");
    assert_eq!(get_active_version(&LinkState::Unreadable), "Unknown");
    assert_eq!(
        get_active_version(&LinkState::Target("/a/node-20.1".to_string())),
        "node-20.1"
    );
    // A target whose final segment is empty cannot name a version.
    assert_eq!(get_active_version(&LinkState::Target("/a/".to_string())), "Unknown");
    assert_eq!(get_active_version(&LinkState::Target("".to_string())), "Unknown");
}

#[test]
fn set_then_get_round_trips_the_version_name() {
    // setActive("node", "node-20.1") stores a link to the resolved target;
    // getActive("node") reads the version name back out of it.
    let probe = ShimProbe { direct_has_exe: true, nested_has_exe: false, link_present: false };
    let plan = set_active_version(&probe).unwrap();
    let target = shim_target_path(&services_dir("/home/u"), "node-20.1", plan.target);
    assert_eq!(get_active_version(&LinkState::Target(target)), "node-20.1");
}

#[test]
fn repeated_set_active_keeps_the_same_answer() {
    // The second switch finds the link of the first and removes it before
    // linking again: nothing accumulates and the answer stays the same.
    let first = ShimProbe { direct_has_exe: true, nested_has_exe: false, link_present: false };
    let second = ShimProbe { direct_has_exe: true, nested_has_exe: false, link_present: true };
    let p1 = set_active_version(&first).unwrap();
    let p2 = set_active_version(&second).unwrap();
    assert_eq!(p1.target, p2.target);
    assert!(p2.remove_existing);
    let t1 = shim_target_path(&services_dir("/h"), "node-20.1", p1.target);
    let t2 = shim_target_path(&services_dir("/h"), "node-20.1", p2.target);
    assert_eq!(t1, t2);
    assert_eq!(get_active_version(&LinkState::Target(t1)), "node-20.1");
    assert_eq!(get_active_version(&LinkState::Target(t2)), "node-20.1");
}

#[test]
fn nested_target_still_round_trips() {
    let probe = ShimProbe { direct_has_exe: false, nested_has_exe: true, link_present: false };
    let plan = set_active_version(&probe).unwrap();
    let target = shim_target_path(&services_dir("/h"), "php-8.3", plan.target);
    assert_eq!(target, "/h/.stackmanager/services/php-8.3/php-8.3");
    assert_eq!(get_active_version(&LinkState::Target(target)), "php-8.3");
}
