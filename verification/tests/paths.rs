use git_client::error::GitClientError;
use git_client::index::validate_relative_path;

#[test]
fn relative_paths_are_accepted() {
    assert_eq!(validate_relative_path("src/main.rs"), Ok("src/main.rs"));
    assert_eq!(validate_relative_path("a"), Ok("a"));
    assert_eq!(validate_relative_path(""), Ok(""));
    assert_eq!(validate_relative_path("./a/b"), Ok("./a/b"));
    assert_eq!(validate_relative_path("a/..b/c.."), Ok("a/..b/c.."));
    assert_eq!(validate_relative_path(".../x"), Ok(".../x"));
}

#[test]
fn absolute_paths_are_rejected() {
    assert_eq!(
        validate_relative_path("/etc/passwd"),
        Err(GitClientError::InvalidPath("/etc/passwd".to_string()))
    );
    assert_eq!(validate_relative_path("/"), Err(GitClientError::InvalidPath("/".to_string())));
}

#[test]
fn parent_components_are_rejected() {
    for path in ["..", "../x", "a/../b", "a/b/..", "a//../b"] {
        assert_eq!(
            validate_relative_path(path),
            Err(GitClientError::InvalidPath(path.to_string()))
        );
    }
}

#[test]
fn validation_agrees_with_the_platform_on_unix_paths() {
    for path in ["a/b", "/a", "..", "a/../b", "a/..b", "./x", "x/.", "", "a/b/..", "..a/b"] {
        let p = std::path::Path::new(path);
        let expected = !p.is_absolute()
            && !p.components().any(|c| {
                matches!(c, std::path::Component::ParentDir | std::path::Component::RootDir)
            });
        assert_eq!(validate_relative_path(path).is_ok(), expected);
    }
}

#[test]
fn error_messages() {
    assert_eq!(GitClientError::NoRepository.message(), "No repository open");
    assert_eq!(GitClientError::Git("boom".to_string()).message(), "Git error: boom");
    assert_eq!(
        GitClientError::RepoNotFound("/x".to_string()).message(),
        "Repository not found at path: /x"
    );
    assert_eq!(GitClientError::InvalidPath("../x".to_string()).message(), "Invalid path: ../x");
    assert_eq!(GitClientError::Io("denied".to_string()).message(), "IO error: denied");
    assert_eq!(GitClientError::Lock("held".to_string()).message(), "Lock error: held");
    assert_eq!(GitClientError::Operation("no".to_string()).message(), "Operation failed: no");
}
