use worktrunk::git::url::GitRemoteUrl;

#[test]
fn test_https_urls() {
    let url = GitRemoteUrl::parse("https://github.com/owner/repo.git").unwrap();
    assert_eq!(url.host(), "github.com");
    assert_eq!(url.owner(), "owner");
    assert_eq!(url.repo(), "repo");
    assert_eq!(url.project_identifier(), "github.com/owner/repo");

    // Without .git suffix
    let url = GitRemoteUrl::parse("https://github.com/owner/repo").unwrap();
    assert_eq!(url.repo(), "repo");

    // With whitespace
    let url = GitRemoteUrl::parse("  https://github.com/owner/repo.git\n").unwrap();
    assert_eq!(url.owner(), "owner");
}

#[test]
fn test_http_urls() {
    let url = GitRemoteUrl::parse("http://gitlab.internal.company.com/owner/repo.git").unwrap();
    assert_eq!(url.host(), "gitlab.internal.company.com");
    assert_eq!(url.owner(), "owner");
    assert_eq!(url.repo(), "repo");
}

#[test]
fn test_git_at_urls() {
    let url = GitRemoteUrl::parse("git@github.com:owner/repo.git").unwrap();
    assert_eq!(url.host(), "github.com");
    assert_eq!(url.owner(), "owner");
    assert_eq!(url.repo(), "repo");

    // Without .git suffix
    let url = GitRemoteUrl::parse("git@github.com:owner/repo").unwrap();
    assert_eq!(url.repo(), "repo");

    // GitLab
    let url = GitRemoteUrl::parse("git@gitlab.example.com:owner/repo.git").unwrap();
    assert_eq!(url.host(), "gitlab.example.com");

    // Bitbucket
    let url = GitRemoteUrl::parse("git@bitbucket.org:owner/repo.git").unwrap();
    assert_eq!(url.host(), "bitbucket.org");
}

#[test]
fn test_ssh_urls() {
    // With git@ user
    let url = GitRemoteUrl::parse("ssh://git@github.com/owner/repo.git").unwrap();
    assert_eq!(url.host(), "github.com");
    assert_eq!(url.owner(), "owner");
    assert_eq!(url.repo(), "repo");

    // Without user
    let url = GitRemoteUrl::parse("ssh://github.com/owner/repo.git").unwrap();
    assert_eq!(url.host(), "github.com");
    assert_eq!(url.owner(), "owner");
}

#[test]
fn test_malformed_urls() {
    assert!(GitRemoteUrl::parse("").is_none());
    assert!(GitRemoteUrl::parse("https://github.com/").is_none());
    assert!(GitRemoteUrl::parse("https://github.com/owner/").is_none());
    assert!(GitRemoteUrl::parse("git@github.com:").is_none());
    assert!(GitRemoteUrl::parse("git@github.com:owner/").is_none());
    assert!(GitRemoteUrl::parse("ftp://github.com/owner/repo.git").is_none());
}

#[test]
fn test_org_repos() {
    let url = GitRemoteUrl::parse("https://github.com/company-org/project.git").unwrap();
    assert_eq!(url.owner(), "company-org");
    assert_eq!(url.repo(), "project");
}

#[test]
fn test_project_identifier() {
    let cases = [
        (
            "https://github.com/max-sixty/worktrunk.git",
            "github.com/max-sixty/worktrunk",
        ),
        ("git@github.com:owner/repo.git", "github.com/owner/repo"),
        (
            "ssh://git@gitlab.example.com/org/project.git",
            "gitlab.example.com/org/project",
        ),
    ];

    for (input, expected) in cases {
        let url = GitRemoteUrl::parse(input).unwrap();
        assert_eq!(url.project_identifier(), expected, "input: {input}");
    }
}

#[test]
fn ssh_url_with_port_is_rejected() {
    assert!(GitRemoteUrl::parse("ssh://git@github.com:2222/owner/repo.git").is_none());
}

#[test]
fn extra_path_segments_are_ignored() {
    let url = GitRemoteUrl::parse("https://github.com/owner/repo/tree/main").unwrap();
    assert_eq!(url.repo(), "repo");
}

#[test]
fn only_one_git_suffix_is_dropped() {
    let url = GitRemoteUrl::parse("https://github.com/owner/repo.git.git").unwrap();
    assert_eq!(url.repo(), "repo.git");
    assert!(GitRemoteUrl::parse("https://github.com/owner/.git").is_none());
}
