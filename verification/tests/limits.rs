use helmor::limits::{desired_nofile_soft_limit, raise_nofile_soft_limit, TARGET_NOFILE_SOFT_LIMIT};

#[test]
fn desired_nofile_soft_limit_raises_to_target_when_hard_limit_allows() {
    assert_eq!(desired_nofile_soft_limit(256, 10_000), 4096);
}

#[test]
fn desired_nofile_soft_limit_caps_at_hard_limit() {
    assert_eq!(desired_nofile_soft_limit(256, 1024), 1024);
}

#[test]
fn desired_nofile_soft_limit_never_lowers_current_soft_limit() {
    assert_eq!(desired_nofile_soft_limit(8192, 10_000), 8192);
}

#[test]
fn raise_nofile_soft_limit_raises_low_soft_limit() {
    assert_eq!(raise_nofile_soft_limit(256, 10_000), Some(TARGET_NOFILE_SOFT_LIMIT));
    assert_eq!(raise_nofile_soft_limit(256, 1024), Some(1024));
}

#[test]
fn raise_nofile_soft_limit_leaves_high_soft_limit() {
    assert_eq!(raise_nofile_soft_limit(8192, 10_000), None);
    assert_eq!(raise_nofile_soft_limit(4096, 4096), None);
    assert_eq!(raise_nofile_soft_limit(2048, 1024), None);
}
