use changelogger::parse_remote_url;

#[test]
fn test_parse_remote_url_https() {
    let result = parse_remote_url("https://github.com/user/repo.git");
    assert_eq!(
        result.map(|r| r.base_url),
        Some("https://github.com/user/repo/".to_string())
    );
}

#[test]
fn test_parse_remote_url_https_with_slash() {
    let result = parse_remote_url("https://github.com/user/repo/");
    assert_eq!(
        result.map(|r| r.base_url),
        Some("https://github.com/user/repo/".to_string())
    );
}

#[test]
fn test_parse_remote_url_https_no_git() {
    let result = parse_remote_url("https://github.com/user/repo");
    assert_eq!(
        result.map(|r| r.base_url),
        Some("https://github.com/user/repo/".to_string())
    );
}

#[test]
fn test_parse_remote_url_ssh() {
    let result = parse_remote_url("git@github.com:user/repo.git");
    assert_eq!(
        result.map(|r| r.base_url),
        Some("https://github.com/user/repo/".to_string())
    );
}

#[test]
fn test_parse_remote_url_ssh_no_git() {
    let result = parse_remote_url("git@github.com:user/repo");
    assert_eq!(
        result.map(|r| r.base_url),
        Some("https://github.com/user/repo/".to_string())
    );
}

#[test]
fn test_parse_remote_url_ssh_with_trailing_slash() {
    let result = parse_remote_url("git@github.com:user/repo.git/");
    assert_eq!(
        result.map(|r| r.base_url),
        Some("https://github.com/user/repo/".to_string())
    );
}

#[test]
fn test_parse_remote_url_ssh_custom_host() {
    let result = parse_remote_url("git@gitlab.com:group/project.git");
    assert_eq!(
        result.map(|r| r.base_url),
        Some("https://gitlab.com/group/project/".to_string())
    );
}

#[test]
fn test_parse_remote_url_invalid() {
    assert!(parse_remote_url("not a url").is_none());
    assert!(parse_remote_url("http://github.com/user/repo").is_none());
    assert!(parse_remote_url("").is_none());
}

#[test]
fn test_parse_remote_url_https_with_port() {
    let result = parse_remote_url("https://github.com:443/user/repo.git");
    assert!(result.is_some());
}
