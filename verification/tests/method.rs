//! Method names and the registry of handlers.
use nerw_rpc::method::{is_pinned, HandlerEntry, MethodName, MethodRegistry};

#[test]
fn parse_pinned_method_name() {
    let n = MethodName::parse("tolki:chat@1.0.0/chat/send-message").expect("parse");
    assert_eq!(n.package, "tolki:chat");
    assert_eq!(n.version, Some("1.0.0".to_string()));
    assert_eq!(n.interface, "chat");
    assert_eq!(n.method, "send-message");
}

#[test]
fn parse_unpinned_method_name() {
    let n = MethodName::parse("tolki:chat/chat/send-message").expect("parse");
    assert_eq!(n.package, "tolki:chat");
    assert_eq!(n.version, None);
    assert_eq!(n.interface, "chat");
    assert_eq!(n.method, "send-message");
}

#[test]
fn parse_rejects_malformed() {
    assert!(MethodName::parse("").is_none());
    assert!(MethodName::parse("tolki:chat").is_none());
    assert!(MethodName::parse("tolki:chat/chat").is_none());
    // Empty package before `@`.
    assert!(MethodName::parse("@1.0.0/chat/send-message").is_none());
    // Empty version after `@`.
    assert!(MethodName::parse("tolki:chat@/chat/send-message").is_none());
    // Empty interface segment.
    assert!(MethodName::parse("tolki:chat//send-message").is_none());
    // Empty method segment.
    assert!(MethodName::parse("tolki:chat/chat/").is_none());
}

#[test]
fn canonical_roundtrip_pinned() {
    let canon = "tolki:chat@1.0.0/chat/send-message";
    let parsed = MethodName::parse(canon).expect("parse");
    assert_eq!(parsed.to_canonical(), canon);
}

#[test]
fn canonical_roundtrip_unpinned() {
    let canon = "tolki:chat/chat/send-message";
    let parsed = MethodName::parse(canon).expect("parse");
    assert_eq!(parsed.to_canonical(), canon);
}

#[test]
fn registry_exact_lookup() {
    let mut reg = MethodRegistry::<u32, u32>::new();
    reg.register("tolki:chat@1.0.0/chat/send-message", 1);
    assert_eq!(reg.len(), 1);
    assert!(!reg.is_empty());
    assert!(reg.lookup("tolki:chat@1.0.0/chat/send-message").is_some());
}

#[test]
fn registry_version_resolution_picks_max() {
    let mut reg = MethodRegistry::<u32, u32>::new();
    reg.register("tolki:chat@1.0.0/chat/send-message", 10);
    reg.register("tolki:chat@1.1.0/chat/send-message", 11);
    // Unpinned lookup must resolve.
    assert!(reg.lookup("tolki:chat/chat/send-message").is_some());
    assert_eq!(reg.lookup("tolki:chat/chat/send-message"), Some(&11));
}

#[test]
fn registry_pinned_miss_no_fallback() {
    let mut reg = MethodRegistry::<u32, u32>::new();
    reg.register("tolki:chat@1.0.0/chat/send-message", 1);
    // Pinned to a version that doesn't exist: must NOT fall back.
    assert!(reg.lookup("tolki:chat@2.0.0/chat/send-message").is_none());
}

#[test]
fn registry_lookup_unknown() {
    let reg = MethodRegistry::<u32, u32>::new();
    assert!(reg.lookup("nope:nope@1.0.0/x/y").is_none());
    assert!(reg.is_empty());
}

#[test]
fn version_omitted_resolves_to_latest() {
    let mut reg = MethodRegistry::<&str, u32>::new();
    reg.register("test:hello@1.0.0/test/version", "v1");
    reg.register("test:hello@2.0.0/test/version", "v2");
    assert_eq!(reg.lookup("test:hello/test/version"), Some(&"v2"));
    assert_eq!(reg.lookup("test:hello@1.0.0/test/version"), Some(&"v1"));
}

#[test]
fn latest_version_does_not_depend_on_the_order_of_registration() {
    let mut reg = MethodRegistry::<&str, u32>::new();
    reg.register("tolki:hello@1.1.0/test/echo", "v1.1");
    reg.register("tolki:hello@1.0.0/test/echo", "v1.0");
    reg.register("tolki:hello@1.0.5/test/echo", "v1.0.5");
    assert_eq!(reg.lookup("tolki:hello/test/echo"), Some(&"v1.1"));
    assert_eq!(reg.lookup("tolki:hello@1.0.0/test/echo"), Some(&"v1.0"));
}

#[test]
fn versions_are_compared_by_their_numbers() {
    let mut reg = MethodRegistry::<u32, u32>::new();
    reg.register("tolki:chat@1.10.0/chat/send-message", 110);
    reg.register("tolki:chat@1.9.0/chat/send-message", 19);
    assert_eq!(reg.lookup("tolki:chat/chat/send-message"), Some(&110));
    reg.register("tolki:chat@1.10.2/chat/send-message", 1102);
    reg.register("tolki:chat@10.0.0/chat/send-message", 1000);
    reg.register("tolki:chat@9.99.99/chat/send-message", 999);
    assert_eq!(reg.lookup("tolki:chat/chat/send-message"), Some(&1000));
}

#[test]
fn releases_come_after_their_prereleases() {
    let mut reg = MethodRegistry::<u32, u32>::new();
    reg.register("a@9.0.0-rc/i/m", 8);
    assert_eq!(reg.lookup("a/i/m"), Some(&8));
    reg.register("a@9.0.0/i/m", 9);
    assert_eq!(reg.lookup("a/i/m"), Some(&9));
    reg.register("a@9.0.1-rc/i/m", 10);
    assert_eq!(reg.lookup("a/i/m"), Some(&10));
    reg.register("a@\u{43e}/i/m", 7);
    assert_eq!(reg.lookup("a/i/m"), Some(&10));
}

#[test]
fn other_methods_do_not_count_as_versions() {
    let mut reg = MethodRegistry::<u32, u32>::new();
    reg.register("a@1/i/m", 1);
    reg.register("a@2/i/n", 2);
    reg.register("a@3/j/m", 3);
    reg.register("ab@4/i/m", 4);
    assert_eq!(reg.lookup("a/i/m"), Some(&1));
    assert_eq!(reg.lookup("a/i/n"), Some(&2));
    assert_eq!(reg.lookup("a/k/m"), None);
    assert_eq!(reg.lookup("ab/i/m"), Some(&4));
}

#[test]
fn registering_again_replaces() {
    let mut reg = MethodRegistry::<u32, u32>::new();
    reg.register("a@1/i/m", 1);
    reg.register("b@1/i/m", 5);
    reg.register("a@1/i/m", 2);
    assert_eq!(reg.len(), 2);
    assert_eq!(reg.lookup("a@1/i/m"), Some(&2));
    assert_eq!(reg.lookup("b@1/i/m"), Some(&5));
    reg.register_streaming("a@1/i/m", 3);
    assert_eq!(reg.len(), 2);
    assert_eq!(reg.lookup("a@1/i/m"), None);
    assert_eq!(reg.lookup_streaming("a@1/i/m"), Some(&3));
}

#[test]
fn each_lookup_finds_its_own_kind() {
    let mut reg = MethodRegistry::<u32, &str>::new();
    reg.register("a@1/i/unary", 1);
    reg.register_streaming("a@1/i/stream", "s");
    assert_eq!(reg.lookup("a@1/i/unary"), Some(&1));
    assert_eq!(reg.lookup_streaming("a@1/i/unary"), None);
    assert_eq!(reg.lookup("a@1/i/stream"), None);
    assert_eq!(reg.lookup_streaming("a@1/i/stream"), Some(&"s"));
    assert_eq!(reg.lookup_streaming("a/i/stream"), Some(&"s"));
}

#[test]
fn malformed_names_find_nothing() {
    let mut reg = MethodRegistry::<u32, u32>::new();
    reg.register("a@1/i/m", 1);
    for name in ["", "a", "a/i", "a@/i/m", "/i/m", "a//m", "a/i/", "a@1"] {
        assert_eq!(reg.lookup(name), None, "{name}");
        assert_eq!(reg.lookup_streaming(name), None, "{name}");
    }
}

#[test]
fn names_are_listed_in_order() {
    let mut reg = MethodRegistry::<u32, u32>::new();
    for name in ["c@1/i/m", "a@2/i/m", "b@1/i/m", "a@1/i/m"] {
        reg.register(name, 0);
    }
    reg.register_streaming("a@1/i/s", 0);
    assert_eq!(
        reg.method_names(),
        vec!["a@1/i/m", "a@1/i/s", "a@2/i/m", "b@1/i/m", "c@1/i/m"]
    );
    assert_eq!(reg.len(), 5);
}

#[test]
fn a_method_may_hold_slashes_and_a_version_may_hold_an_at_sign() {
    let n = MethodName::parse("p@1@2/i/m/n").expect("parse");
    assert_eq!(n.package, "p");
    assert_eq!(n.version.as_deref(), Some("1@2"));
    assert_eq!(n.interface, "i");
    assert_eq!(n.method, "m/n");
    assert_eq!(n.to_canonical(), "p@1@2/i/m/n");
}

#[test]
fn pinned_names_have_a_version() {
    assert!(is_pinned("a@1/i/m"));
    assert!(!is_pinned("a/i/m"));
    assert!(!is_pinned("not-a-valid-name"));
    assert!(!is_pinned("tolki:chat/chat/send-message"));
}

#[test]
fn entries_know_their_kind() {
    assert!(!HandlerEntry::<u32, u32>::Unary(1).is_streaming());
    assert!(HandlerEntry::<u32, u32>::Streaming(1).is_streaming());
}
