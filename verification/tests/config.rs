use modpack_registry::config::{default_next_id, Config, Modpack};

#[test]
fn test_default_config() {
    let config = Config::default();
    assert_eq!(config.modpacks.len(), 0);
    assert_eq!(config.next_id, 1);
}

#[test]
fn test_modpack_creation() {
    let modpack = Modpack {
        id: 1,
        url: "https://github.com/user/repo".to_string(),
        last_path: "/path/to/minecraft".to_string(),
    };
    assert_eq!(modpack.id, 1);
    assert_eq!(modpack.url, "https://github.com/user/repo");
}

#[test]
fn default_next_id_is_one() {
    assert_eq!(default_next_id(), 1);
}

#[test]
fn clone_keeps_every_field() {
    let modpack = Modpack { id: 7, url: "https://a/b".to_string(), last_path: "/m".to_string() };
    let copy = modpack.clone();
    assert_eq!(copy.id, 7);
    assert_eq!(copy.url, "https://a/b");
    assert_eq!(copy.last_path, "/m");
}
