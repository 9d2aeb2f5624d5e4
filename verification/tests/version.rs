//! The order of versions.
use nerw_rpc::text::TextOrder;
use nerw_rpc::version::order_versions;

/// Checks that each text stands below all that follow it.
fn ascending(versions: &[&str]) {
    for (i, a) in versions.iter().enumerate() {
        for (j, b) in versions.iter().enumerate() {
            let order = order_versions(a, b);
            if i < j {
                assert!(matches!(order, TextOrder::Before), "{a} below {b}");
            } else if i == j {
                assert!(matches!(order, TextOrder::Same), "{a} as {b}");
            } else {
                assert!(matches!(order, TextOrder::After), "{a} above {b}");
            }
        }
    }
}

#[test]
fn precedence_of_the_semantic_versioning_rules() {
    ascending(&["1.0.0", "2.0.0", "2.1.0", "2.1.1"]);
    ascending(&[
        "1.0.0-alpha",
        "1.0.0-alpha.1",
        "1.0.0-alpha.beta",
        "1.0.0-beta",
        "1.0.0-beta.2",
        "1.0.0-beta.11",
        "1.0.0-rc.1",
        "1.0.0",
    ]);
}

#[test]
fn components_are_numbers() {
    ascending(&["0.0.0", "0.0.9", "0.0.10", "0.9.0", "0.10.0", "1.9.0", "1.10.0", "9.0.0", "10.0.0"]);
    ascending(&[
        "1.0.18446744073709551615",
        "1.0.18446744073709551616",
        "1.0.99999999999999999999999999",
        "1.0.100000000000000000000000000",
    ]);
}

#[test]
fn prereleases_by_identifier() {
    ascending(&[
        "1.0.0-0",
        "1.0.0-9",
        "1.0.0-10",
        "1.0.0--",
        "1.0.0-0a",
        "1.0.0-Z",
        "1.0.0-a-b",
        "1.0.0-a-b.0",
        "1.0.0",
    ]);
}

#[test]
fn build_metadata_decides_last() {
    ascending(&["1.0.0-rc+z", "1.0.0", "1.0.0+01", "1.0.0+a-b.c", "1.0.1-a", "1.0.1"]);
}

#[test]
fn other_texts_stand_below_in_text_order() {
    ascending(&[
        "",
        "01.0.0",
        "1",
        "1.0",
        "1.0.0+",
        "1.0.0+a+b",
        "1.0.0-",
        "1.0.0-01",
        "1.0.0-a..b",
        "1.0.0.0",
        "1.0.x",
        "9",
        "v1.0.0",
        "\u{43e}",
        "0.0.0-a",
        "0.0.0",
    ]);
}
