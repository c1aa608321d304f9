use console2lce::dlc::{get_api_url, get_raw_url, parse_git_url, GitEntry};
use console2lce::relay::{accept_request, accumulate_line, decode_line, frame_line, host_request, join_request, parse_client_line};

#[test]
fn git_url_of_github_repo() {
    let (owner, repo, host, is_github) = parse_git_url("https://github.com/someone/packs.git").unwrap();
    assert_eq!(owner, "someone");
    assert_eq!(repo, "packs");
    assert_eq!(host, "github.com");
    assert!(is_github);
}

#[test]
fn git_url_of_other_host() {
    let (owner, repo, host, is_github) = parse_git_url("https://codeberg.org//team/dlc/tree/main").unwrap();
    assert_eq!((owner.as_str(), repo.as_str(), host.as_str()), ("team", "dlc", "codeberg.org"));
    assert!(!is_github);
    let (_, repo, _, _) = parse_git_url("https://example.org/a/b.git.git").unwrap();
    assert_eq!(repo, "b");
}

#[test]
fn git_url_errors() {
    assert!(parse_git_url("not a url").unwrap_err().starts_with("Invalid URL: "));
    assert_eq!(parse_git_url("unix:/run/foo.socket").unwrap_err(), "No host in URL");
    assert_eq!(parse_git_url("https://github.com/only").unwrap_err(), "Invalid repo URL: need owner and repo");
}

#[test]
fn api_urls() {
    assert_eq!(get_api_url("github.com", "o", "r", "", "main", true), "https://api.github.com/repos/o/r/contents?ref=main");
    assert_eq!(get_api_url("github.com", "o", "r", ".", "main", true), "https://api.github.com/repos/o/r/contents?ref=main");
    assert_eq!(get_api_url("h.org", "o", "r", "//a/b", "dev", false), "https://h.org/api/v1/repos/o/r/contents/a/b?ref=dev");
}

#[test]
fn raw_urls() {
    assert_eq!(get_raw_url("github.com", "o", "r", "main", "x/y.bin", true), "https://raw.githubusercontent.com/o/r/main/x/y.bin");
    assert_eq!(get_raw_url("h.org", "o", "r", "main", "x", false), "https://h.org/o/r/raw/branch/main/x");
}

#[test]
fn git_entry_fields() {
    let e = GitEntry { name: "Skins".to_string(), is_dir: true };
    assert_eq!(e.name, "Skins");
    assert!(e.is_dir);
}

#[test]
fn relay_requests() {
    assert_eq!(host_request("tok"), "HOST tok 0");
    assert_eq!(accept_request("tok", "j7"), "ACCEPT tok 0 j7");
    assert_eq!(join_request("tok", "sess"), "JOIN tok 0 sess");
    assert_eq!(frame_line("HOST a 0"), b"HOST a 0\n".to_vec());
}

#[test]
fn relay_line_reading() {
    let mut buf = Vec::new();
    assert!(!accumulate_line(&mut buf, b'o'));
    assert!(!accumulate_line(&mut buf, b'k'));
    assert!(accumulate_line(&mut buf, b'\n'));
    assert_eq!(buf, b"ok".to_vec());
    assert_eq!(decode_line(buf).unwrap(), "ok");
    assert!(decode_line(vec![0xFF, 0xFE]).is_err());
}

#[test]
fn relay_client_notice() {
    assert_eq!(parse_client_line("CLIENT  abc  extra").unwrap(), "abc");
    assert_eq!(parse_client_line("CLIENT").unwrap_err(), "Expected CLIENT, got: CLIENT");
    assert_eq!(parse_client_line("HELLO x").unwrap_err(), "Expected CLIENT, got: HELLO x");
}
