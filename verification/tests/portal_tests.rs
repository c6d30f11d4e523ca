use friendly_filer::portal::{home_dir_from, is_dangerous_path, seal_from};

#[test]
fn is_dangerous_path_behaviour() {
    assert!(is_dangerous_path("/", None));

    let fake_home = "/tmp/friendly-filer-home-test";
    let home = Some(fake_home);

    assert!(is_dangerous_path(fake_home, home));
    assert!(is_dangerous_path(&format!("{fake_home}/Documents"), home));
    // A grandchild of $HOME is safe.
    assert!(!is_dangerous_path(&format!("{fake_home}/projects/freeza"), home));
}

#[test]
fn root_is_dangerous_whatever_the_home() {
    assert!(is_dangerous_path("/", Some("/home/user")));
    assert!(is_dangerous_path("", None));
}

#[test]
fn paths_compare_by_component() {
    let home = Some("/home/user");
    assert!(is_dangerous_path("/home/user/", home));
    assert!(is_dangerous_path("/home//user", home));
    assert!(is_dangerous_path("/home/user/Documents/", home));
    assert!(!is_dangerous_path("/home/user/Documents/work", home));
    assert!(!is_dangerous_path("/home/users", home));
}

#[test]
fn without_home_only_roots_are_dangerous() {
    assert!(!is_dangerous_path("/tmp/friendly-filer-home-test", None));
    assert!(!is_dangerous_path("/home", None));
}

#[test]
fn home_dir_prefers_non_empty_home() {
    assert_eq!(
        home_dir_from(Some("/home/a".to_string()), Some("C:\\Users\\a".to_string())),
        Some("/home/a".to_string())
    );
    assert_eq!(
        home_dir_from(Some(String::new()), Some("C:\\Users\\a".to_string())),
        Some("C:\\Users\\a".to_string())
    );
    assert_eq!(home_dir_from(None, Some("C:\\Users\\a".to_string())), Some("C:\\Users\\a".to_string()));
    assert_eq!(home_dir_from(None, Some(String::new())), None);
    assert_eq!(home_dir_from(None, None), None);
}

#[test]
fn seal_from_any_fact() {
    assert!(!seal_from(false, false, false));
    assert!(seal_from(true, false, false));
    assert!(seal_from(false, true, false));
    assert!(seal_from(false, false, true));
}
