use changelogger::{next_version, Version};

#[test]
fn test_next_version_unstable_major() {
    assert_eq!(
        next_version(&Version::new(0, 3, 1), true, false),
        Version::new(0, 4, 0)
    );
}

#[test]
fn test_next_version_unstable_minor() {
    assert_eq!(
        next_version(&Version::new(0, 3, 1), false, true),
        Version::new(0, 3, 2)
    );
}

#[test]
fn test_next_version_stable_major() {
    assert_eq!(
        next_version(&Version::new(2, 1, 4), true, false),
        Version::new(3, 0, 0)
    );
}

#[test]
fn test_next_version_stable_minor() {
    assert_eq!(
        next_version(&Version::new(2, 1, 4), false, true),
        Version::new(2, 2, 0)
    );
}

#[test]
fn test_next_version_patch_only() {
    assert_eq!(
        next_version(&Version::new(2, 1, 4), false, false),
        Version::new(2, 1, 5)
    );
    assert_eq!(
        next_version(&Version::new(0, 3, 1), false, false),
        Version::new(0, 3, 2)
    );
}

#[test]
fn test_next_version_major_wins_over_minor() {
    assert_eq!(
        next_version(&Version::new(1, 2, 3), true, true),
        Version::new(2, 0, 0)
    );
}

#[test]
fn test_version_order() {
    assert!(Version::new(1, 2, 3).lt(&Version::new(1, 2, 4)));
    assert!(Version::new(1, 2, 3).lt(&Version::new(1, 3, 0)));
    assert!(Version::new(1, 2, 3).lt(&Version::new(2, 0, 0)));
    assert!(!Version::new(2, 0, 0).lt(&Version::new(1, 9, 9)));
    assert!(!Version::new(1, 2, 3).lt(&Version::new(1, 2, 3)));
}

#[test]
fn test_version_to_text() {
    assert_eq!(Version::new(1, 2, 3).to_text(), "1.2.3");
    assert_eq!(Version::new(10, 0, 345).to_text(), "10.0.345");
    assert_eq!(Version::new(0, 0, 0).to_text(), "0.0.0");
}

#[test]
fn test_version_is_zero() {
    assert!(Version::new(0, 0, 0).is_zero());
    assert!(!Version::new(0, 0, 1).is_zero());
}
