use jarvis::command::{
    connection_test_args,
    curl_timing_args, decimal_string, dig_args, git_https_test_args, nslookup_args, ping_args,
    ssh_keygen_args, ssh_test_args,
};

#[test]
fn decimal_matches_to_string() {
    for n in [0u64, 1, 9, 10, 11, 99, 100, 2, 5, 12345, 1000000007, u64::MAX] {
        assert_eq!(decimal_string(n), n.to_string());
    }
}

#[test]
fn ping_command_line() {
    assert_eq!(ping_args("140.82.112.3", 2), vec!["ping", "-c", "1", "-W", "2", "140.82.112.3"]);
}

#[test]
fn curl_command_line() {
    assert_eq!(
        curl_timing_args("https://github.com", 10),
        vec![
            "curl",
            "-o",
            "/dev/null",
            "-s",
            "-w",
            "%{time_total}",
            "--connect-timeout",
            "10",
            "https://github.com"
        ]
    );
}

#[test]
fn lookup_command_lines() {
    assert_eq!(dig_args("github.com"), vec!["dig", "+short", "github.com"]);
    assert_eq!(nslookup_args("api.github.com"), vec!["nslookup", "api.github.com", "8.8.8.8"]);
}

#[test]
fn ssh_and_git_command_lines() {
    assert_eq!(ssh_test_args(), vec!["ssh", "-T", "-o", "ConnectTimeout=5", "git@github.com"]);
    assert_eq!(ssh_keygen_args(), vec!["ssh-keygen", "-t", "ed25519", "-C", "github"]);
    assert_eq!(
        git_https_test_args(),
        vec!["git", "ls-remote", "--symref", "https://github.com/git/git.git", "HEAD"]
    );
}

#[test]
fn connection_test_uses_ten_seconds() {
    assert_eq!(connection_test_args("https://api.github.com"), curl_timing_args("https://api.github.com", 10));
}
