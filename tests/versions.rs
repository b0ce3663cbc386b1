use std::cmp::Ordering;
use wordpress_audit::version::compare_versions;

#[test]
fn compare_numeric_magnitude() {
    assert_eq!(compare_versions("2.0.0", "1.9.9"), Ordering::Greater);
    assert_eq!(compare_versions("1.9.9", "2.0.0"), Ordering::Less);
    assert_eq!(compare_versions("1.2", "1.2.0"), Ordering::Equal);
    assert_eq!(compare_versions("1.10", "1.9"), Ordering::Greater);
    assert_eq!(compare_versions("6.4.2", "6.5"), Ordering::Less);
}

#[test]
fn compare_suffix_rule() {
    assert_eq!(compare_versions("7.0", "7.0-alpha"), Ordering::Greater);
    assert_eq!(compare_versions("7.0-alpha", "7.0"), Ordering::Less);
    assert_eq!(compare_versions("7.0-alpha", "7.0-beta"), Ordering::Equal);
    assert_eq!(compare_versions("7.0beta", "7.0-rc1"), Ordering::Equal);
    assert_eq!(compare_versions("7.1-alpha", "7.0"), Ordering::Greater);
}

#[test]
fn compare_drops_unparsable_segments() {
    assert_eq!(compare_versions("1..2", "1.2"), Ordering::Equal);
    assert_eq!(compare_versions("", "0"), Ordering::Equal);
    assert_eq!(compare_versions("99999999999999999999.1", "1"), Ordering::Equal);
    assert_eq!(compare_versions("+3", "3"), Ordering::Equal);
}

#[test]
fn compare_is_reflexive_and_antisymmetric_on_examples() {
    let vs = ["1.0", "1.0.0", "2", "7.0-alpha", "10.1", "0.9.9", ""];
    for a in vs {
        assert_eq!(compare_versions(a, a), Ordering::Equal);
        for b in vs {
            assert_eq!(compare_versions(a, b), compare_versions(b, a).reverse());
        }
    }
}
