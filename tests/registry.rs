use weather::app::ProviderManager;
use weather::registry::{compare_names, ProviderRegistry};

#[test]
fn register_providers() {
    let mut reg = ProviderRegistry::new();
    reg.register("provider1", 1u32);
    reg.register("provider2", 2u32);
    assert_eq!(reg.list_providers().len(), 2);
}

#[test]
fn lookup_missing_provider() {
    let reg: ProviderRegistry<u32> = ProviderRegistry::new();
    assert!(reg.get("unknown").is_none());
}

#[test]
fn registry_handles_multiple_providers() {
    let mut reg = ProviderRegistry::new();
    reg.register("p1", 'a');
    reg.register("p2", 'b');

    assert!(reg.get("p1").is_some());
    assert!(reg.get("p2").is_some());
}

#[test]
fn resolve_returns_registered_provider() {
    let mut reg = ProviderRegistry::new();
    reg.register("alpha", 10u32);
    reg.register("beta", 20u32);
    reg.register("gamma", 30u32);
    assert_eq!(reg.get("alpha"), Some(&10));
    assert_eq!(reg.get("beta"), Some(&20));
    assert_eq!(reg.get("gamma"), Some(&30));
    assert_eq!(reg.get("delta"), None);
    assert_eq!(reg.get("Alpha"), None);
    assert_eq!(reg.get(""), None);
}

#[test]
fn register_same_name_overwrites() {
    let mut reg = ProviderRegistry::new();
    reg.register("x", "A");
    reg.register("x", "B");
    assert_eq!(reg.get("x"), Some(&"B"));
    assert_eq!(reg.list_providers(), vec!["x".to_string()]);
}

#[test]
fn list_of_empty_registry_is_empty() {
    let reg: ProviderRegistry<u8> = ProviderRegistry::new();
    assert!(reg.list_providers().is_empty());
    assert!(reg.is_empty());
}

#[test]
fn list_is_sorted_and_repeatable() {
    let mut reg = ProviderRegistry::new();
    reg.register("weatherapi", 1u8);
    reg.register("openweather", 2u8);
    let first = reg.list_providers();
    assert_eq!(first, vec!["openweather".to_string(), "weatherapi".to_string()]);
    assert_eq!(reg.list_providers(), first);
    assert!(!reg.is_empty());
}

#[test]
fn list_orders_prefixes_first() {
    let mut reg = ProviderRegistry::new();
    reg.register("ab", 1u8);
    reg.register("b", 2u8);
    reg.register("a", 3u8);
    reg.register("aa", 4u8);
    assert_eq!(reg.list_providers(), vec!["a", "aa", "ab", "b"]);
}

#[test]
fn compare_names_orders_like_str() {
    assert_eq!(compare_names("a", "b"), -1);
    assert_eq!(compare_names("b", "a"), 1);
    assert_eq!(compare_names("same", "same"), 0);
    assert!(compare_names("", "a") < 0);
    assert!(compare_names("abc", "ab") > 0);
    assert_eq!(compare_names("", ""), 0);
}

#[test]
fn manager_gets_through_its_registry() {
    let mut reg = ProviderRegistry::new();
    reg.register("mock_provider", 7i32);
    let manager = ProviderManager::new(reg);
    assert_eq!(manager.get("mock_provider"), Some(&7));
    assert_eq!(manager.get("other"), None);
    assert_eq!(manager.lookup().list_providers().len(), 1);
}
