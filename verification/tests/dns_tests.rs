use jarvis::dns::{
    append_block_args, candidate_addresses, copy_args, dig_addresses, fallback_addresses,
    first_answer, flush_dns_args, github_domains, github_entries, hosts_block,
    hosts_mention_github, latency_ping_args, nslookup_answer, pick_fastest, rtt_fields, strip_block_args,
};

const NSLOOKUP_OUT: &str = "Server:\t\t8.8.8.8\nAddress:\t8.8.8.8#53\n\nNon-authoritative answer:\nName:\tgithub.com\nAddress: 140.82.112.3\n";

#[test]
fn first_answer_takes_the_first_line() {
    assert_eq!(first_answer("140.82.112.3\n140.82.113.3\n"), Some("140.82.112.3".to_string()));
    assert_eq!(first_answer("  140.82.112.4  \r\n"), Some("140.82.112.4".to_string()));
    assert_eq!(first_answer(""), None);
    assert_eq!(first_answer("   \n140.82.112.3\n"), None);
}

#[test]
fn nslookup_answer_takes_the_first_record_with_one_colon() {
    // The server line has exactly one colon, so it is the one reported.
    assert_eq!(nslookup_answer(NSLOOKUP_OUT), Some("8.8.8.8#53".to_string()));
    let ipv6_first = "Address: 2001:db8::1\nAddress: 140.82.112.3\n";
    assert_eq!(nslookup_answer(ipv6_first), Some("140.82.112.3".to_string()));
    assert_eq!(nslookup_answer("Name: github.com\n"), None);
    assert_eq!(nslookup_answer(""), None);
}

#[test]
fn dig_addresses_keep_dotted_lines() {
    let out = "github.com.\n140.82.112.3\n\n  \nalias\n140.82.113.3 \n";
    assert_eq!(dig_addresses(out), vec!["github.com.", "140.82.112.3", "140.82.113.3"]);
    assert!(dig_addresses("").is_empty());
}

#[test]
fn fallback_pools() {
    assert_eq!(fallback_addresses("github.com"), vec!["140.82.112.3", "140.82.113.3", "140.82.114.3"]);
    assert_eq!(fallback_addresses("api.github.com"), vec!["140.82.112.5", "140.82.113.5", "140.82.114.5"]);
    assert_eq!(
        fallback_addresses("raw.githubusercontent.com"),
        vec!["185.199.108.133", "185.199.109.133", "185.199.110.133", "185.199.111.133"]
    );
    assert!(fallback_addresses("gist.githubusercontent.com").is_empty());
}

#[test]
fn candidates_fall_back_only_without_answers() {
    assert_eq!(candidate_addresses("1.2.3.4\n", "github.com"), vec!["1.2.3.4"]);
    assert_eq!(candidate_addresses("no answer\n", "api.github.com"), fallback_addresses("api.github.com"));
    assert!(candidate_addresses("", "example.com").is_empty());
}

#[test]
fn pick_fastest_takes_first_lowest() {
    let ips: Vec<String> = vec!["a".into(), "b".into(), "c".into(), "d".into()];
    assert_eq!(pick_fastest(&ips, &vec![None, Some(30), Some(10), Some(10)]), ("c".to_string(), Some(10)));
    assert_eq!(pick_fastest(&ips, &vec![Some(5), Some(5), None, Some(7)]), ("a".to_string(), Some(5)));
    assert_eq!(pick_fastest(&ips, &vec![None, None, None, None]), ("a".to_string(), None));
}

#[test]
fn rtt_fields_read_ping_summaries() {
    let linux = "PING 1.1.1.1 56(84) bytes of data.\n\n--- 1.1.1.1 ping statistics ---\nrtt min/avg/max/mdev = 10.101/12.5/13.0/0.1 ms\n";
    assert_eq!(rtt_fields(linux), vec!["12.5"]);
    let bsd = "round-trip min/avg/max/stddev = 9.1/9.2/9.3/0.0 ms\n";
    assert_eq!(rtt_fields(bsd), vec!["9.2"]);
    assert!(rtt_fields("rtt a/b\n").is_empty());
}

#[test]
fn hosts_block_text() {
    let block = hosts_block("1.1.1.1", "2.2.2.2", "3.3.3.3");
    let expected = "\n# GitHub Start\n1.1.1.1 github.com\n1.1.1.1 www.github.com\n2.2.2.2 api.github.com\n3.3.3.3 raw.githubusercontent.com\n3.3.3.3 gist.githubusercontent.com\n3.3.3.3 cloud.githubusercontent.com\n3.3.3.3 camo.githubusercontent.com\n3.3.3.3 avatars.githubusercontent.com\n3.3.3.3 github.githubassets.com\n# GitHub End\n";
    assert_eq!(block, expected);
    assert!(hosts_mention_github(&block));
    assert_eq!(
        github_entries(&block),
        vec!["1.1.1.1 github.com", "1.1.1.1 www.github.com", "2.2.2.2 api.github.com"]
    );
}

#[test]
fn hosts_commands() {
    let args = append_block_args("B");
    assert_eq!(args, vec!["sudo", "sh", "-c", "cat >> /etc/hosts << EOF\nB\nEOF"]);
    assert_eq!(strip_block_args(), vec!["sudo", "sed", "-i.bak", "/# GitHub Start/,/# GitHub End/d", "/etc/hosts"]);
    assert_eq!(
        flush_dns_args(),
        vec![vec!["sudo", "dscacheutil", "-flushcache"], vec!["sudo", "killall", "-HUP", "mDNSResponder"]]
    );
    assert_eq!(copy_args("/etc/hosts", "/tmp/x"), vec!["sudo", "cp", "/etc/hosts", "/tmp/x"]);
}

#[test]
fn hosts_without_github() {
    assert!(!hosts_mention_github("127.0.0.1 localhost\n"));
    assert!(github_entries("127.0.0.1 localhost\n").is_empty());
    let many = "a github.com\nb github.com\nc github.com\nd github.com\ne github.com\nf github.com\n";
    assert_eq!(github_entries(many).len(), 5);
}

#[test]
fn domains_listed() {
    let d = github_domains();
    assert_eq!(d.len(), 9);
    assert_eq!(d[0], "github.com");
    assert_eq!(d[8], "github-cloud.s3.amazonaws.com");
}

#[test]
fn latency_ping_waits_two_seconds() {
    assert_eq!(latency_ping_args("1.2.3.4"), vec!["ping", "-c", "1", "-W", "2", "1.2.3.4"]);
}
