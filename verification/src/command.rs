//! The external command lines the tool runs, each as a full argument vector
//! whose first element is the program.

use vstd::prelude::*;
use crate::text::{push_char, views};

verus! {

/// The decimal digit for `d < 10`.
pub open spec fn digit_char(d: nat) -> char {
    if d == 0 {
        '0'
    } else if d == 1 {
        '1'
    } else if d == 2 {
        '2'
    } else if d == 3 {
        '3'
    } else if d == 4 {
        '4'
    } else if d == 5 {
        '5'
    } else if d == 6 {
        '6'
    } else if d == 7 {
        '7'
    } else if d == 8 {
        '8'
    } else {
        '9'
    }
}

/// The decimal notation of `n`, without leading zeros (what `u64::to_string`
/// gives).
pub open spec fn decimal(n: nat) -> Seq<char>
    decreases n,
{
    if n < 10 {
        seq![digit_char(n)]
    } else {
        decimal(n / 10).push(digit_char(n % 10))
    }
}

fn digit(d: u64) -> (c: char)
    requires
        d < 10,
    ensures
        c == digit_char(d as nat),
{
    match d {
        0 => '0',
        1 => '1',
        2 => '2',
        3 => '3',
        4 => '4',
        5 => '5',
        6 => '6',
        7 => '7',
        8 => '8',
        _ => '9',
    }
}

/// The decimal notation of `n`.
pub fn decimal_string(n: u64) -> (s: String)
    ensures
        s@ == decimal(n as nat),
    decreases n,
{
    if n < 10 {
        let mut s = String::new();
        push_char(&mut s, digit(n));
        assert(s@ =~= seq![digit_char(n as nat)]);
        s
    } else {
        let mut s = decimal_string(n / 10);
        push_char(&mut s, digit(n % 10));
        s
    }
}

/// An owned copy of `s`.
pub fn owned(s: &str) -> (r: String)
    ensures
        r@ == s@,
{
    String::from_str(s)
}

/// `dig +short <domain>`.
pub open spec fn dig_command(domain: Seq<char>) -> Seq<Seq<char>> {
    seq!["dig"@, "+short"@, domain]
}

pub fn dig_args(domain: &str) -> (v: Vec<String>)
    ensures
        views(v@) == dig_command(domain@),
{
    let v = vec![owned("dig"), owned("+short"), owned(domain)];
    assert(views(v@) =~= dig_command(domain@));
    v
}

/// `nslookup <domain> 8.8.8.8`: the lookup against a public resolver.
pub open spec fn nslookup_command(domain: Seq<char>) -> Seq<Seq<char>> {
    seq!["nslookup"@, domain, "8.8.8.8"@]
}

pub fn nslookup_args(domain: &str) -> (v: Vec<String>)
    ensures
        views(v@) == nslookup_command(domain@),
{
    let v = vec![owned("nslookup"), owned(domain), owned("8.8.8.8")];
    assert(views(v@) =~= nslookup_command(domain@));
    v
}

/// `ping -c 1 -W <timeout> <ip>`: one echo request, waiting `timeout` seconds.
pub open spec fn ping_command(ip: Seq<char>, timeout: nat) -> Seq<Seq<char>> {
    seq!["ping"@, "-c"@, "1"@, "-W"@, decimal(timeout), ip]
}

pub fn ping_args(ip: &str, timeout: u64) -> (v: Vec<String>)
    ensures
        views(v@) == ping_command(ip@, timeout as nat),
{
    let v = vec![
        owned("ping"),
        owned("-c"),
        owned("1"),
        owned("-W"),
        decimal_string(timeout),
        owned(ip),
    ];
    assert(views(v@) =~= ping_command(ip@, timeout as nat));
    v
}

/// `curl -o /dev/null -s -w %{time_total} --connect-timeout <timeout> <url>`:
/// prints the seconds the whole transfer took.
pub open spec fn curl_timing_command(url: Seq<char>, timeout: nat) -> Seq<Seq<char>> {
    seq![
        "curl"@,
        "-o"@,
        "/dev/null"@,
        "-s"@,
        "-w"@,
        "%{time_total}"@,
        "--connect-timeout"@,
        decimal(timeout),
        url,
    ]
}

pub fn curl_timing_args(url: &str, timeout: u64) -> (v: Vec<String>)
    ensures
        views(v@) == curl_timing_command(url@, timeout as nat),
{
    let v = vec![
        owned("curl"),
        owned("-o"),
        owned("/dev/null"),
        owned("-s"),
        owned("-w"),
        owned("%{time_total}"),
        owned("--connect-timeout"),
        decimal_string(timeout),
        owned(url),
    ];
    assert(views(v@) =~= curl_timing_command(url@, timeout as nat));
    v
}

/// `ssh -T -o ConnectTimeout=5 git@github.com`: the SSH handshake test.
pub open spec fn ssh_test_command() -> Seq<Seq<char>> {
    seq!["ssh"@, "-T"@, "-o"@, "ConnectTimeout=5"@, "git@github.com"@]
}

pub fn ssh_test_args() -> (v: Vec<String>)
    ensures
        views(v@) == ssh_test_command(),
{
    let v = vec![
        owned("ssh"),
        owned("-T"),
        owned("-o"),
        owned("ConnectTimeout=5"),
        owned("git@github.com"),
    ];
    assert(views(v@) =~= ssh_test_command());
    v
}

/// `ssh-keygen -t ed25519 -C github`.
pub open spec fn ssh_keygen_command() -> Seq<Seq<char>> {
    seq!["ssh-keygen"@, "-t"@, "ed25519"@, "-C"@, "github"@]
}

pub fn ssh_keygen_args() -> (v: Vec<String>)
    ensures
        views(v@) == ssh_keygen_command(),
{
    let v = vec![owned("ssh-keygen"), owned("-t"), owned("ed25519"), owned("-C"), owned("github")];
    assert(views(v@) =~= ssh_keygen_command());
    v
}

/// `git ls-remote --symref https://github.com/git/git.git HEAD`: the HTTPS
/// reachability test.
pub open spec fn git_https_test_command() -> Seq<Seq<char>> {
    seq!["git"@, "ls-remote"@, "--symref"@, "https://github.com/git/git.git"@, "HEAD"@]
}

pub fn git_https_test_args() -> (v: Vec<String>)
    ensures
        views(v@) == git_https_test_command(),
{
    let v = vec![
        owned("git"),
        owned("ls-remote"),
        owned("--symref"),
        owned("https://github.com/git/git.git"),
        owned("HEAD"),
    ];
    assert(views(v@) =~= git_https_test_command());
    v
}

/// The seconds the connection test gives each endpoint to connect.
pub open spec fn connection_test_timeout() -> nat {
    10
}

/// `curl` timing `url` with the connection test's timeout.
pub fn connection_test_args(url: &str) -> (v: Vec<String>)
    ensures
        views(v@) == curl_timing_command(url@, connection_test_timeout()),
{
    curl_timing_args(url, 10)
}

} // verus!
