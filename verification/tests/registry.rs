use modpack_registry::config::{Config, Modpack};
use modpack_registry::error::RegistryError;
use modpack_registry::registry::{
    add_modpack, check_new_modpack, get_modpack_by_id, get_modpack_by_path, list_modpacks,
    remove_modpack, update_modpack,
};

fn record(id: u64, url: &str, last_path: &str) -> Modpack {
    Modpack { id, url: url.to_string(), last_path: last_path.to_string() }
}

fn fields(config: &Config) -> Vec<(u64, String, String)> {
    config.modpacks.iter().map(|m| (m.id, m.url.clone(), m.last_path.clone())).collect()
}

fn row(id: u64, url: &str, last_path: &str) -> (u64, String, String) {
    (id, url.to_string(), last_path.to_string())
}

fn two_records() -> Config {
    Config {
        modpacks: vec![record(1, "https://x/repo", "/a"), record(2, "https://y/repo", "/b")],
        next_id: 3,
    }
}

#[test]
fn add_then_remove_never_reuses_an_id() {
    let mut config = Config::default();

    assert_eq!(add_modpack(&mut config, "https://x/repo", "/a").unwrap(), 1);
    assert_eq!(fields(&config), vec![row(1, "https://x/repo", "/a")]);
    assert_eq!(config.next_id, 2);

    assert_eq!(add_modpack(&mut config, "https://y/repo", "/b").unwrap(), 2);
    assert_eq!(config.next_id, 3);

    remove_modpack(&mut config, 1).unwrap();
    let listed: Vec<(u64, String, String)> = list_modpacks(&config)
        .iter()
        .map(|m| (m.id, m.url.clone(), m.last_path.clone()))
        .collect();
    assert_eq!(listed, vec![row(2, "https://y/repo", "/b")]);

    assert_eq!(add_modpack(&mut config, "https://z/repo", "/a").unwrap(), 3);
    assert_eq!(
        fields(&config),
        vec![row(2, "https://y/repo", "/b"), row(3, "https://z/repo", "/a")]
    );
    assert_eq!(config.next_id, 4);
}

#[test]
fn add_grows_the_document_by_one() {
    let mut config = two_records();
    let id = add_modpack(&mut config, "https://z/repo", "/c").unwrap();
    assert_eq!(id, 3);
    assert_eq!(config.modpacks.len(), 3);
    assert_eq!(config.next_id, 4);
    assert_eq!(config.modpacks[2].id, 3);
    assert_eq!(
        fields(&config)[..2],
        [row(1, "https://x/repo", "/a"), row(2, "https://y/repo", "/b")]
    );
}

#[test]
fn add_stores_trimmed_values() {
    let mut config = Config::default();
    add_modpack(&mut config, "  https://x/repo\t\n", "\u{3000}/my mods/a \u{a0}").unwrap();
    assert_eq!(fields(&config), vec![row(1, "https://x/repo", "/my mods/a")]);
}

#[test]
fn add_keeps_characters_that_are_not_whitespace() {
    let mut config = Config::default();
    add_modpack(&mut config, "\u{200b}u\u{200b}", "\u{1c}p\u{180e}").unwrap();
    assert_eq!(fields(&config), vec![row(1, "\u{200b}u\u{200b}", "\u{1c}p\u{180e}")]);
}

#[test]
fn add_refuses_an_empty_url() {
    let mut config = two_records();
    assert!(matches!(add_modpack(&mut config, "", "/c"), Err(RegistryError::EmptyUrl)));
    assert!(matches!(add_modpack(&mut config, " \t ", "/c"), Err(RegistryError::EmptyUrl)));
    assert_eq!(fields(&config), fields(&two_records()));
    assert_eq!(config.next_id, 3);
}

#[test]
fn add_refuses_an_empty_path() {
    let mut config = two_records();
    assert!(matches!(add_modpack(&mut config, "https://z", ""), Err(RegistryError::EmptyPath)));
    assert!(matches!(add_modpack(&mut config, "https://z", "\n"), Err(RegistryError::EmptyPath)));
    assert_eq!(fields(&config), fields(&two_records()));
    assert_eq!(config.next_id, 3);
}

#[test]
fn add_reports_the_url_before_the_path() {
    let mut config = two_records();
    assert!(matches!(add_modpack(&mut config, " ", " "), Err(RegistryError::EmptyUrl)));
    assert!(matches!(add_modpack(&mut config, " ", "/a"), Err(RegistryError::EmptyUrl)));
}

#[test]
fn add_refuses_a_path_in_use() {
    let mut config = two_records();
    match add_modpack(&mut config, "https://z/repo", "/a") {
        Err(RegistryError::DuplicatePath(path)) => assert_eq!(path, "/a"),
        other => panic!("{:?}", other),
    }
    assert_eq!(fields(&config), fields(&two_records()));
    assert_eq!(config.next_id, 3);
}

#[test]
fn add_compares_the_trimmed_path() {
    let mut config = two_records();
    match add_modpack(&mut config, "https://z/repo", "  /b  ") {
        Err(RegistryError::DuplicatePath(path)) => assert_eq!(path, "/b"),
        other => panic!("{:?}", other),
    }
    assert_eq!(config.modpacks.len(), 2);
}

#[test]
fn add_tells_paths_apart_by_case() {
    let mut config = two_records();
    assert_eq!(add_modpack(&mut config, "https://z/repo", "/A").unwrap(), 3);
    assert_eq!(config.modpacks.len(), 3);
}

#[test]
fn add_reaches_the_largest_id() {
    let mut config = Config { modpacks: Vec::new(), next_id: u64::MAX - 1 };
    assert_eq!(add_modpack(&mut config, "u", "p").unwrap(), u64::MAX - 1);
    assert_eq!(config.next_id, u64::MAX);
}

#[test]
fn update_without_fields_changes_nothing() {
    let mut config = two_records();
    update_modpack(&mut config, 2, None, None).unwrap();
    assert_eq!(fields(&config), fields(&two_records()));
    assert_eq!(config.next_id, 3);
}

#[test]
fn update_of_the_url_leaves_the_path() {
    let mut config = two_records();
    update_modpack(&mut config, 1, Some(" https://new/repo "), None).unwrap();
    assert_eq!(
        fields(&config),
        vec![row(1, "https://new/repo", "/a"), row(2, "https://y/repo", "/b")]
    );
    assert_eq!(config.next_id, 3);
}

#[test]
fn update_of_the_path_leaves_the_url() {
    let mut config = two_records();
    update_modpack(&mut config, 2, None, Some("\t/moved\n")).unwrap();
    assert_eq!(
        fields(&config),
        vec![row(1, "https://x/repo", "/a"), row(2, "https://y/repo", "/moved")]
    );
}

#[test]
fn update_of_both_fields() {
    let mut config = two_records();
    update_modpack(&mut config, 2, Some("https://n"), Some("/n")).unwrap();
    assert_eq!(fields(&config), vec![row(1, "https://x/repo", "/a"), row(2, "https://n", "/n")]);
}

#[test]
fn update_refuses_a_path_in_use() {
    let mut config = two_records();
    match update_modpack(&mut config, 2, None, Some("/a")) {
        Err(RegistryError::DuplicatePath(path)) => assert_eq!(path, "/a"),
        other => panic!("{:?}", other),
    }
    match update_modpack(&mut config, 1, Some("https://n"), Some("\t/b ")) {
        Err(RegistryError::DuplicatePath(path)) => assert_eq!(path, "/b"),
        other => panic!("{:?}", other),
    }
    assert_eq!(fields(&config), fields(&two_records()));
    assert_eq!(config.next_id, 3);
}

#[test]
fn update_lets_a_record_keep_its_path() {
    let mut config = two_records();
    update_modpack(&mut config, 2, Some("https://n"), Some(" /b ")).unwrap();
    assert_eq!(fields(&config), vec![row(1, "https://x/repo", "/a"), row(2, "https://n", "/b")]);
}

#[test]
fn update_reports_an_empty_field_before_a_path_in_use() {
    let mut config = two_records();
    assert!(matches!(
        update_modpack(&mut config, 2, Some(" "), Some("/a")),
        Err(RegistryError::EmptyUrl)
    ));
    assert!(matches!(
        update_modpack(&mut config, 9, None, Some("/a")),
        Err(RegistryError::UnknownId(9))
    ));
    assert_eq!(fields(&config), fields(&two_records()));
}

#[test]
fn update_looks_past_the_record_for_the_path() {
    let mut config = Config {
        modpacks: vec![record(1, "u1", "/a"), record(2, "u2", "/b"), record(3, "u3", "/c")],
        next_id: 4,
    };
    assert!(matches!(
        update_modpack(&mut config, 2, None, Some("/c")),
        Err(RegistryError::DuplicatePath(_))
    ));
    assert!(matches!(
        update_modpack(&mut config, 2, None, Some("/a")),
        Err(RegistryError::DuplicatePath(_))
    ));
    update_modpack(&mut config, 2, None, Some("/d")).unwrap();
    assert_eq!(fields(&config), vec![row(1, "u1", "/a"), row(2, "u2", "/d"), row(3, "u3", "/c")]);
}

#[test]
fn check_tells_what_add_would_do() {
    let config = two_records();
    assert!(check_new_modpack(&config, " https://z ", "/c").is_ok());
    assert!(matches!(check_new_modpack(&config, " ", "/c"), Err(RegistryError::EmptyUrl)));
    assert!(matches!(check_new_modpack(&config, "https://z", ""), Err(RegistryError::EmptyPath)));
    match check_new_modpack(&config, "https://z", " /a") {
        Err(RegistryError::DuplicatePath(path)) => assert_eq!(path, "/a"),
        other => panic!("{:?}", other),
    }
    assert_eq!(fields(&config), fields(&two_records()));
    assert_eq!(config.next_id, 3);
}

#[test]
fn add_is_refused_as_ever_when_ids_have_run_out() {
    let mut config = Config { modpacks: vec![record(1, "https://x/repo", "/a")], next_id: u64::MAX };
    assert!(matches!(add_modpack(&mut config, "", "/c"), Err(RegistryError::EmptyUrl)));
    assert!(matches!(add_modpack(&mut config, "https://z", " "), Err(RegistryError::EmptyPath)));
    match add_modpack(&mut config, "https://z", "/a") {
        Err(RegistryError::DuplicatePath(path)) => assert_eq!(path, "/a"),
        other => panic!("{:?}", other),
    }
    assert_eq!(fields(&config), vec![row(1, "https://x/repo", "/a")]);
    assert_eq!(config.next_id, u64::MAX);
    assert!(check_new_modpack(&config, "https://z", "/c").is_ok());
}

#[test]
fn update_refuses_an_unknown_id() {
    let mut config = two_records();
    assert!(matches!(
        update_modpack(&mut config, 9, Some("https://n"), None),
        Err(RegistryError::UnknownId(9))
    ));
    assert!(matches!(update_modpack(&mut config, 9, Some(" "), None), Err(RegistryError::UnknownId(9))));
    assert_eq!(fields(&config), fields(&two_records()));
}

#[test]
fn update_refuses_an_empty_field_and_changes_nothing() {
    let mut config = two_records();
    assert!(matches!(update_modpack(&mut config, 1, Some("  "), None), Err(RegistryError::EmptyUrl)));
    assert!(matches!(update_modpack(&mut config, 1, None, Some("")), Err(RegistryError::EmptyPath)));
    assert!(matches!(
        update_modpack(&mut config, 1, Some("https://n"), Some(" ")),
        Err(RegistryError::EmptyPath)
    ));
    assert!(matches!(update_modpack(&mut config, 1, Some(""), Some("")), Err(RegistryError::EmptyUrl)));
    assert_eq!(fields(&config), fields(&two_records()));
}

#[test]
fn update_changes_the_first_record_with_the_id() {
    let mut config = Config {
        modpacks: vec![record(4, "u1", "/1"), record(4, "u2", "/2")],
        next_id: 5,
    };
    update_modpack(&mut config, 4, Some("new"), None).unwrap();
    assert_eq!(fields(&config), vec![row(4, "new", "/1"), row(4, "u2", "/2")]);
}

#[test]
fn remove_takes_the_record_out() {
    let mut config = two_records();
    remove_modpack(&mut config, 1).unwrap();
    assert_eq!(fields(&config), vec![row(2, "https://y/repo", "/b")]);
    assert_eq!(config.next_id, 3);
}

#[test]
fn remove_twice_is_refused_the_second_time() {
    let mut config = two_records();
    remove_modpack(&mut config, 2).unwrap();
    assert!(matches!(remove_modpack(&mut config, 2), Err(RegistryError::UnknownId(2))));
    assert_eq!(fields(&config), vec![row(1, "https://x/repo", "/a")]);
    assert_eq!(config.next_id, 3);
}

#[test]
fn remove_refuses_an_unknown_id() {
    let mut config = two_records();
    assert!(matches!(remove_modpack(&mut config, 3), Err(RegistryError::UnknownId(3))));
    assert_eq!(fields(&config), fields(&two_records()));
    let mut empty = Config::default();
    assert!(matches!(remove_modpack(&mut empty, 1), Err(RegistryError::UnknownId(1))));
}

#[test]
fn remove_takes_every_record_with_the_id() {
    let mut config = Config {
        modpacks: vec![
            record(4, "u1", "/1"),
            record(5, "u2", "/2"),
            record(4, "u3", "/3"),
            record(6, "u4", "/4"),
            record(4, "u5", "/5"),
        ],
        next_id: 7,
    };
    remove_modpack(&mut config, 4).unwrap();
    assert_eq!(fields(&config), vec![row(5, "u2", "/2"), row(6, "u4", "/4")]);
}

#[test]
fn get_by_id_finds_the_record() {
    let config = two_records();
    let found = get_modpack_by_id(&config, 2).unwrap();
    assert_eq!((found.id, found.url.as_str(), found.last_path.as_str()), (2, "https://y/repo", "/b"));
    assert!(matches!(get_modpack_by_id(&config, 0), Err(RegistryError::UnknownId(0))));
}

#[test]
fn get_by_id_gives_the_first_of_several() {
    let config = Config { modpacks: vec![record(4, "u1", "/1"), record(4, "u2", "/2")], next_id: 5 };
    assert_eq!(get_modpack_by_id(&config, 4).unwrap().url, "u1");
}

#[test]
fn get_by_path_matches_exactly() {
    let config = two_records();
    let found = get_modpack_by_path(&config, "/a").unwrap();
    assert_eq!((found.id, found.url.as_str()), (1, "https://x/repo"));
    match get_modpack_by_path(&config, " /a ") {
        Err(RegistryError::UnknownPath(path)) => assert_eq!(path, " /a "),
        other => panic!("{:?}", other),
    }
    assert!(matches!(get_modpack_by_path(&config, "/A"), Err(RegistryError::UnknownPath(_))));
    assert!(matches!(get_modpack_by_path(&config, ""), Err(RegistryError::UnknownPath(_))));
}

#[test]
fn list_gives_the_records_in_order() {
    let config = two_records();
    let ids: Vec<u64> = list_modpacks(&config).iter().map(|m| m.id).collect();
    assert_eq!(ids, vec![1, 2]);
    assert!(list_modpacks(&Config::default()).is_empty());
}

#[test]
fn messages_of_refusals() {
    assert_eq!(RegistryError::EmptyUrl.message(), "URL cannot be empty");
    assert_eq!(RegistryError::EmptyPath.message(), "Path cannot be empty");
    assert_eq!(
        RegistryError::DuplicatePath("/a b".to_string()).message(),
        "A modpack with path '/a b' already exists"
    );
    assert_eq!(RegistryError::UnknownId(42).message(), "Modpack with ID 42 not found");
    assert_eq!(RegistryError::UnknownId(0).message(), "Modpack with ID 0 not found");
    assert_eq!(
        RegistryError::UnknownId(u64::MAX).message(),
        "Modpack with ID 18446744073709551615 not found"
    );
    assert_eq!(
        RegistryError::UnknownPath("/x".to_string()).message(),
        "Modpack with path '/x' not found"
    );
}
