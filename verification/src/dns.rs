//! Direct mode: reading resolver output, choosing the fastest address of a
//! domain, and the block of GitHub entries written to `/etc/hosts`.

use vstd::prelude::*;
use crate::text::{
    contains, has_sub, lemma_has_sub_suffix, lemma_lines_cons, lemma_lines_with_append,
    lemma_no_first_char, lines, lines_containing, lines_of, lines_with, occurs_at, same_text,
    split, split_on, strip_cr, trim, trimmed, views,
};
use crate::command::{owned, ping_args, ping_command};

verus! {

/// The GitHub domains whose addresses direct mode looks up.
pub open spec fn github_domain_list() -> Seq<Seq<char>> {
    seq![
        "github.com"@,
        "api.github.com"@,
        "raw.githubusercontent.com"@,
        "gist.githubusercontent.com"@,
        "cloud.githubusercontent.com"@,
        "camo.githubusercontent.com"@,
        "avatars.githubusercontent.com"@,
        "github.githubassets.com"@,
        "github-cloud.s3.amazonaws.com"@,
    ]
}

pub fn github_domains() -> (v: Vec<String>)
    ensures
        views(v@) == github_domain_list(),
{
    let v = vec![
        owned("github.com"),
        owned("api.github.com"),
        owned("raw.githubusercontent.com"),
        owned("gist.githubusercontent.com"),
        owned("cloud.githubusercontent.com"),
        owned("camo.githubusercontent.com"),
        owned("avatars.githubusercontent.com"),
        owned("github.githubassets.com"),
        owned("github-cloud.s3.amazonaws.com"),
    ];
    assert(views(v@) =~= github_domain_list());
    v
}

/// The answer `dig +short` printed first: its first line, trimmed, when that
/// is not blank.
pub open spec fn first_answer_of(out: Seq<char>) -> Option<Seq<char>> {
    let ls = lines_of(out);
    let first = if ls.len() > 0 {
        ls[0]
    } else {
        Seq::<char>::empty()
    };
    if trimmed(first).len() > 0 {
        Some(trimmed(first))
    } else {
        None
    }
}

pub fn first_answer(out: &str) -> (r: Option<String>)
    ensures
        r matches Some(a) ==> first_answer_of(out@) == Some(a@),
        r is None ==> first_answer_of(out@) is None,
{
    let ls = lines(out);
    let t = if ls.len() > 0 {
        trim(ls[0].as_str())
    } else {
        trim("")
    };
    proof {
        if ls@.len() == 0 {
            reveal_strlit("");
            assert(""@ =~= Seq::<char>::empty());
        }
    }
    if t.as_str().is_empty() {
        None
    } else {
        Some(t)
    }
}

/// A line of `nslookup` output that holds an address: it mentions
/// `Address:` and has exactly one colon.
pub open spec fn is_address_record(line: Seq<char>) -> bool {
    has_sub(line, "Address:"@) && split_on(line, ':').len() == 2
}

/// The address of the first address record among `ls`: what follows its
/// colon, trimmed.
pub open spec fn first_address_record(ls: Seq<Seq<char>>) -> Option<Seq<char>>
    decreases ls.len(),
{
    if ls.len() == 0 {
        None
    } else if is_address_record(ls[0]) {
        Some(trimmed(split_on(ls[0], ':')[1]))
    } else {
        first_address_record(ls.drop_first())
    }
}

/// The address `nslookup` reported, if any.
pub fn nslookup_answer(out: &str) -> (r: Option<String>)
    ensures
        r matches Some(a) ==> first_address_record(lines_of(out@)) == Some(a@),
        r is None ==> first_address_record(lines_of(out@)) is None,
{
    let ls = lines(out);
    let ghost all = views(ls@);
    let mut i: usize = 0;
    assert(all.skip(0) =~= all);
    while i < ls.len()
        invariant
            i <= ls@.len(),
            all == views(ls@),
            all == lines_of(out@),
            first_address_record(all) == first_address_record(all.skip(i as int)),
        decreases ls@.len() - i,
    {
        let line = ls[i].as_str();
        assert(all.skip(i as int)[0] == line@);
        assert(all.skip(i as int).drop_first() =~= all.skip(i + 1));
        if contains(line, "Address:") {
            let parts = split(line, ':');
            if parts.len() == 2 {
                return Some(trim(parts[1].as_str()));
            }
        }
        i = i + 1;
    }
    None
}

/// A trimmed line of `dig` output that can stand for an address: not empty,
/// and holding a dot.
pub open spec fn looks_like_address(t: Seq<char>) -> bool {
    t.len() > 0 && has_sub(t, "."@)
}

/// The trimmed lines of `ls` that look like addresses, in order.
pub open spec fn addresses_in(ls: Seq<Seq<char>>) -> Seq<Seq<char>>
    decreases ls.len(),
{
    if ls.len() == 0 {
        seq![]
    } else if looks_like_address(trimmed(ls.last())) {
        addresses_in(ls.drop_last()).push(trimmed(ls.last()))
    } else {
        addresses_in(ls.drop_last())
    }
}

/// The addresses `dig +short` printed.
pub fn dig_addresses(out: &str) -> (v: Vec<String>)
    ensures
        views(v@) == addresses_in(lines_of(out@)),
{
    let ls = lines(out);
    let ghost all = views(ls@);
    let mut v: Vec<String> = Vec::new();
    let mut i: usize = 0;
    while i < ls.len()
        invariant
            i <= ls@.len(),
            all == views(ls@),
            all == lines_of(out@),
            views(v@) == addresses_in(all.take(i as int)),
        decreases ls@.len() - i,
    {
        assert(all.take(i + 1).drop_last() =~= all.take(i as int));
        let t = trim(ls[i].as_str());
        if !t.as_str().is_empty() && contains(t.as_str(), ".") {
            let ghost before = v@;
            v.push(t);
            assert(views(v@) =~= views(before).push(t@));
        }
        i = i + 1;
    }
    assert(all.take(ls@.len() as int) =~= all);
    v
}

/// The addresses tried when the resolver gave none.
pub open spec fn fallback_pool(domain: Seq<char>) -> Seq<Seq<char>> {
    if domain == "github.com"@ {
        seq!["140.82.112.3"@, "140.82.113.3"@, "140.82.114.3"@]
    } else if domain == "api.github.com"@ {
        seq!["140.82.112.5"@, "140.82.113.5"@, "140.82.114.5"@]
    } else if domain == "raw.githubusercontent.com"@ {
        seq!["185.199.108.133"@, "185.199.109.133"@, "185.199.110.133"@, "185.199.111.133"@]
    } else {
        seq![]
    }
}

pub fn fallback_addresses(domain: &str) -> (v: Vec<String>)
    ensures
        views(v@) == fallback_pool(domain@),
{
    let v = if same_text(domain, "github.com") {
        vec![owned("140.82.112.3"), owned("140.82.113.3"), owned("140.82.114.3")]
    } else if same_text(domain, "api.github.com") {
        vec![owned("140.82.112.5"), owned("140.82.113.5"), owned("140.82.114.5")]
    } else if same_text(domain, "raw.githubusercontent.com") {
        vec![
            owned("185.199.108.133"),
            owned("185.199.109.133"),
            owned("185.199.110.133"),
            owned("185.199.111.133"),
        ]
    } else {
        Vec::new()
    };
    assert(views(v@) =~= fallback_pool(domain@));
    v
}

/// The addresses whose latency is measured for `domain`: those `dig`
/// printed, or the fallback pool when it printed none.
pub open spec fn candidates_of(dig_out: Seq<char>, domain: Seq<char>) -> Seq<Seq<char>> {
    if addresses_in(lines_of(dig_out)).len() == 0 {
        fallback_pool(domain)
    } else {
        addresses_in(lines_of(dig_out))
    }
}

pub fn candidate_addresses(dig_out: &str, domain: &str) -> (v: Vec<String>)
    ensures
        views(v@) == candidates_of(dig_out@, domain@),
{
    let v = dig_addresses(dig_out);
    if v.len() == 0 {
        fallback_addresses(domain)
    } else {
        v
    }
}

/// Scanning the first `n` measurements in order, the index and latency of
/// the fastest: a measurement replaces the current best only when there is
/// none yet or it is strictly lower. Index 0 with no latency when nothing
/// was measured.
pub open spec fn fastest_upto(lats: Seq<Option<i64>>, n: int) -> (int, Option<i64>)
    decreases n,
{
    if n <= 0 {
        (0, None)
    } else {
        let prev = fastest_upto(lats, n - 1);
        match lats[n - 1] {
            Some(l) => if prev.1 is None || l < prev.1->0 {
                (n - 1, Some(l))
            } else {
                prev
            },
            None => prev,
        }
    }
}

/// The fastest of all measurements.
pub open spec fn fastest(lats: Seq<Option<i64>>) -> (int, Option<i64>) {
    fastest_upto(lats, lats.len() as int)
}

/// The address with the lowest measured latency, and that latency; the
/// first address, with none, when no measurement succeeded.
pub fn pick_fastest(ips: &Vec<String>, lats: &Vec<Option<i64>>) -> (r: (String, Option<i64>))
    requires
        ips@.len() > 0,
        ips@.len() == lats@.len(),
    ensures
        r.0@ == ips@[fastest(lats@).0]@,
        r.1 == fastest(lats@).1,
{
    let mut best: usize = 0;
    let mut best_lat: Option<i64> = None;
    let mut i: usize = 0;
    while i < lats.len()
        invariant
            i <= lats@.len(),
            ips@.len() == lats@.len(),
            ips@.len() > 0,
            (best as int, best_lat) == fastest_upto(lats@, i as int),
            best < ips@.len(),
        decreases lats@.len() - i,
    {
        match lats[i] {
            Some(l) => {
                let better = match best_lat {
                    None => true,
                    Some(b) => l < b,
                };
                if better {
                    best = i;
                    best_lat = Some(l);
                }
            },
            None => {},
        }
        i = i + 1;
    }
    (ips[best].clone(), best_lat)
}

/// `fastest` returns the first of the lowest measured latencies: none only
/// when nothing was measured, and otherwise the latency at its index, no
/// higher than any other measurement and strictly lower than every one
/// before it.
pub proof fn lemma_fastest_is_first_minimum(lats: Seq<Option<i64>>, n: int)
    requires
        0 <= n <= lats.len(),
    ensures
        0 <= fastest_upto(lats, n).0 < (if n == 0 { 1 } else { n }),
        fastest_upto(lats, n).1 is None <==> (forall|k: int| 0 <= k < n ==> lats[k] is None),
        fastest_upto(lats, n).1 matches Some(v) ==> {
            &&& lats[fastest_upto(lats, n).0] == Some(v)
            &&& forall|k: int| 0 <= k < n && lats[k] is Some ==> v <= lats[k]->0
            &&& forall|k: int| 0 <= k < fastest_upto(lats, n).0 && lats[k] is Some ==> v < lats[k]->0
        },
    decreases n,
{
    if n > 0 {
        lemma_fastest_is_first_minimum(lats, n - 1);
    }
}

/// How many of the first `k` lines of `ls`, trimmed, look like addresses.
pub open spec fn addresses_before(ls: Seq<Seq<char>>, k: int) -> nat
    decreases k,
{
    if k <= 0 {
        0
    } else {
        addresses_before(ls, k - 1) + if looks_like_address(trimmed(ls[k - 1])) {
            1nat
        } else {
            0nat
        }
    }
}

proof fn lemma_addresses_before_monotone(ls: Seq<Seq<char>>, a: int, b: int)
    requires
        0 <= a <= b,
    ensures
        addresses_before(ls, a) <= addresses_before(ls, b),
    decreases b - a,
{
    if a < b {
        lemma_addresses_before_monotone(ls, a, b - 1);
    }
}

proof fn lemma_addresses_in_positions(ls: Seq<Seq<char>>, n: int)
    requires
        0 <= n <= ls.len(),
    ensures
        addresses_in(ls.take(n)).len() == addresses_before(ls, n),
        forall|k: int|
            0 <= k < n && looks_like_address(#[trigger] trimmed(ls[k])) ==> addresses_in(
                ls.take(n),
            )[addresses_before(ls, k) as int] == trimmed(ls[k]),
    decreases n,
{
    if n > 0 {
        lemma_addresses_in_positions(ls, n - 1);
        assert(ls.take(n).drop_last() =~= ls.take(n - 1));
        assert(ls.take(n).last() == ls[n - 1]);
        let prev = addresses_in(ls.take(n - 1));
        assert forall|k: int|
            0 <= k < n && looks_like_address(#[trigger] trimmed(ls[k])) implies addresses_in(
            ls.take(n),
        )[addresses_before(ls, k) as int] == trimmed(ls[k]) by {
            if k < n - 1 {
                lemma_addresses_before_monotone(ls, k + 1, n - 1);
                assert(addresses_before(ls, k) < prev.len());
            }
        }
    }
}

/// Direct mode measures every address the resolver printed: when `dig`
/// printed at least one line that, trimmed, is not empty and holds a dot,
/// the candidates are as many as such lines, and the one from line `k` is
/// that line trimmed, placed after those from the lines before it. When it
/// printed none, the candidates are the fallback pool of the domain.
pub proof fn lemma_candidates_are_every_answer(dig_out: Seq<char>, domain: Seq<char>)
    ensures
        addresses_before(lines_of(dig_out), lines_of(dig_out).len() as int) == 0 ==> candidates_of(
            dig_out,
            domain,
        ) == fallback_pool(domain),
        addresses_before(lines_of(dig_out), lines_of(dig_out).len() as int) > 0 ==> {
            &&& candidates_of(dig_out, domain).len() == addresses_before(
                lines_of(dig_out),
                lines_of(dig_out).len() as int,
            )
            &&& forall|k: int|
                0 <= k < lines_of(dig_out).len() && looks_like_address(
                    #[trigger] trimmed(lines_of(dig_out)[k]),
                ) ==> candidates_of(dig_out, domain)[addresses_before(lines_of(dig_out), k) as int]
                    == trimmed(lines_of(dig_out)[k])
        },
{
    let ls = lines_of(dig_out);
    lemma_addresses_in_positions(ls, ls.len() as int);
    assert(ls.take(ls.len() as int) =~= ls);
}

/// The seconds each address is given to answer one ping.
pub open spec fn ping_timeout() -> nat {
    2
}

/// The `ping` that measures the latency of a candidate address.
pub fn latency_ping_args(ip: &str) -> (v: Vec<String>)
    ensures
        views(v@) == ping_command(ip@, ping_timeout()),
{
    ping_args(ip, 2)
}

/// A line of `ping` output with the round-trip summary.
pub open spec fn is_rtt_line(line: Seq<char>) -> bool {
    has_sub(line, "rtt"@) || has_sub(line, "round-trip"@)
}

/// Of each summary line of `ls` with at least five `/`-separated fields, the
/// fifth field trimmed (the average round trip in milliseconds), in order.
pub open spec fn rtt_fields_in(ls: Seq<Seq<char>>) -> Seq<Seq<char>>
    decreases ls.len(),
{
    if ls.len() == 0 {
        seq![]
    } else if is_rtt_line(ls.last()) && split_on(ls.last(), '/').len() >= 5 {
        rtt_fields_in(ls.drop_last()).push(trimmed(split_on(ls.last(), '/')[4]))
    } else {
        rtt_fields_in(ls.drop_last())
    }
}

/// The average round-trip fields `ping` printed, first ones first; the
/// latency is the first of them that reads as a number.
pub fn rtt_fields(out: &str) -> (v: Vec<String>)
    ensures
        views(v@) == rtt_fields_in(lines_of(out@)),
{
    let ls = lines(out);
    let ghost all = views(ls@);
    let mut v: Vec<String> = Vec::new();
    let mut i: usize = 0;
    while i < ls.len()
        invariant
            i <= ls@.len(),
            all == views(ls@),
            all == lines_of(out@),
            views(v@) == rtt_fields_in(all.take(i as int)),
        decreases ls@.len() - i,
    {
        assert(all.take(i + 1).drop_last() =~= all.take(i as int));
        let line = ls[i].as_str();
        if contains(line, "rtt") || contains(line, "round-trip") {
            let parts = split(line, '/');
            if parts.len() >= 5 {
                let t = trim(parts[4].as_str());
                let ghost before = v@;
                v.push(t);
                assert(views(v@) =~= views(before).push(t@));
            }
        }
        i = i + 1;
    }
    assert(all.take(ls@.len() as int) =~= all);
    v
}

/// The block of GitHub entries for `/etc/hosts`, between its start and end
/// markers: `github.com` and `www.github.com` at `github_ip`, the API at
/// `api_ip`, and the content hosts at `raw_ip`.
pub open spec fn hosts_block_text(github_ip: Seq<char>, api_ip: Seq<char>, raw_ip: Seq<char>) -> Seq<char> {
    "\n# GitHub Start\n"@ + github_ip + " github.com\n"@ + github_ip + " www.github.com\n"@ + api_ip
        + " api.github.com\n"@ + raw_ip + " raw.githubusercontent.com\n"@ + raw_ip
        + " gist.githubusercontent.com\n"@ + raw_ip + " cloud.githubusercontent.com\n"@ + raw_ip
        + " camo.githubusercontent.com\n"@ + raw_ip + " avatars.githubusercontent.com\n"@ + raw_ip
        + " github.githubassets.com\n"@ + "# GitHub End\n"@
}

pub fn hosts_block(github_ip: &str, api_ip: &str, raw_ip: &str) -> (b: String)
    ensures
        b@ == hosts_block_text(github_ip@, api_ip@, raw_ip@),
{
    let mut b = owned("\n# GitHub Start\n");
    b.append(github_ip);
    b.append(" github.com\n");
    b.append(github_ip);
    b.append(" www.github.com\n");
    b.append(api_ip);
    b.append(" api.github.com\n");
    b.append(raw_ip);
    b.append(" raw.githubusercontent.com\n");
    b.append(raw_ip);
    b.append(" gist.githubusercontent.com\n");
    b.append(raw_ip);
    b.append(" cloud.githubusercontent.com\n");
    b.append(raw_ip);
    b.append(" camo.githubusercontent.com\n");
    b.append(raw_ip);
    b.append(" avatars.githubusercontent.com\n");
    b.append(raw_ip);
    b.append(" github.githubassets.com\n");
    b.append("# GitHub End\n");
    b
}

/// The shell script that appends `block` to `/etc/hosts` through a here
/// document.
pub open spec fn append_script_text(block: Seq<char>) -> Seq<char> {
    "cat >> /etc/hosts << EOF\n"@ + block + "\nEOF"@
}

/// `sudo sh -c <script>`: appends `block` to `/etc/hosts`.
pub open spec fn append_block_command(block: Seq<char>) -> Seq<Seq<char>> {
    seq!["sudo"@, "sh"@, "-c"@, append_script_text(block)]
}

pub fn append_block_args(block: &str) -> (v: Vec<String>)
    ensures
        views(v@) == append_block_command(block@),
{
    let mut script = owned("cat >> /etc/hosts << EOF\n");
    script.append(block);
    script.append("\nEOF");
    let v = vec![owned("sudo"), owned("sh"), owned("-c"), script];
    assert(views(v@) =~= append_block_command(block@));
    v
}

/// `sudo sed -i.bak '/# GitHub Start/,/# GitHub End/d' /etc/hosts`: removes
/// an earlier block, keeping the previous file as `/etc/hosts.bak`.
pub open spec fn strip_block_command() -> Seq<Seq<char>> {
    seq!["sudo"@, "sed"@, "-i.bak"@, "/# GitHub Start/,/# GitHub End/d"@, "/etc/hosts"@]
}

pub fn strip_block_args() -> (v: Vec<String>)
    ensures
        views(v@) == strip_block_command(),
{
    let v = vec![
        owned("sudo"),
        owned("sed"),
        owned("-i.bak"),
        owned("/# GitHub Start/,/# GitHub End/d"),
        owned("/etc/hosts"),
    ];
    assert(views(v@) =~= strip_block_command());
    v
}

/// The commands that flush the resolver cache.
pub open spec fn flush_dns_commands() -> Seq<Seq<Seq<char>>> {
    seq![
        seq!["sudo"@, "dscacheutil"@, "-flushcache"@],
        seq!["sudo"@, "killall"@, "-HUP"@, "mDNSResponder"@],
    ]
}

pub fn flush_dns_args() -> (v: Vec<Vec<String>>)
    ensures
        v@.map_values(|c: Vec<String>| views(c@)) == flush_dns_commands(),
{
    let a = vec![owned("sudo"), owned("dscacheutil"), owned("-flushcache")];
    let b = vec![owned("sudo"), owned("killall"), owned("-HUP"), owned("mDNSResponder")];
    assert(views(a@) =~= flush_dns_commands()[0]);
    assert(views(b@) =~= flush_dns_commands()[1]);
    let v = vec![a, b];
    assert(v@.map_values(|c: Vec<String>| views(c@)) =~= flush_dns_commands());
    v
}

/// `sudo cp <from> <to>`.
pub open spec fn copy_command(from: Seq<char>, to: Seq<char>) -> Seq<Seq<char>> {
    seq!["sudo"@, "cp"@, from, to]
}

pub fn copy_args(from: &str, to: &str) -> (v: Vec<String>)
    ensures
        views(v@) == copy_command(from@, to@),
{
    let v = vec![owned("sudo"), owned("cp"), owned(from), owned(to)];
    assert(views(v@) =~= copy_command(from@, to@));
    v
}

/// The hosts file mentions GitHub: what counts as "hosts configured".
pub open spec fn mentions_github(content: Seq<char>) -> bool {
    has_sub(content, "github.com"@)
}

pub fn hosts_mention_github(content: &str) -> (b: bool)
    ensures
        b == mentions_github(content@),
{
    contains(content, "github.com")
}

/// The first five lines of `content` that mention GitHub.
pub open spec fn github_entries_of(content: Seq<char>) -> Seq<Seq<char>> {
    let found = lines_with(lines_of(content), "github.com"@);
    found.take(if found.len() < 5 { found.len() as int } else { 5 })
}

pub fn github_entries(content: &str) -> (v: Vec<String>)
    ensures
        views(v@) == github_entries_of(content@),
{
    lines_containing(content, "github.com", 5)
}

/// Whatever addresses it holds, the block direct mode writes makes the
/// hosts file count as configured for GitHub.
pub proof fn lemma_block_mentions_github(github_ip: Seq<char>, api_ip: Seq<char>, raw_ip: Seq<char>)
    ensures
        mentions_github(hosts_block_text(github_ip, api_ip, raw_ip)),
{
    reveal_strlit("\n# GitHub Start\n");
    reveal_strlit(" github.com\n");
    reveal_strlit("github.com");
    let head = "\n# GitHub Start\n"@ + github_ip + " github.com\n"@;
    let b = hosts_block_text(github_ip, api_ip, raw_ip);
    let i: int = ("\n# GitHub Start\n"@.len() + github_ip.len() + 1) as int;
    assert(b.subrange(0, head.len() as int) =~= head);
    assert(b.subrange(i, i + 10) =~= "github.com"@);
    assert(occurs_at(b, "github.com"@, i));
}

/// The rest of the block after the API line.
spec fn block_tail(raw_ip: Seq<char>) -> Seq<char> {
    raw_ip + " raw.githubusercontent.com\n"@ + raw_ip + " gist.githubusercontent.com\n"@ + raw_ip
        + " cloud.githubusercontent.com\n"@ + raw_ip + " camo.githubusercontent.com\n"@ + raw_ip
        + " avatars.githubusercontent.com\n"@ + raw_ip + " github.githubassets.com\n"@
        + "# GitHub End\n"@
}

/// The block is an empty line, the start marker, the three GitHub lines,
/// each ended by a newline, then the rest.
proof fn lemma_block_shape(g: Seq<char>, a: Seq<char>, r: Seq<char>)
    ensures
        hosts_block_text(g, a, r) == seq!['\n'] + ("# GitHub Start"@ + seq!['\n'] + ((g
            + " github.com"@) + seq!['\n'] + ((g + " www.github.com"@) + seq!['\n'] + ((a
            + " api.github.com"@) + seq!['\n'] + block_tail(r))))),
{
    let nl = seq!['\n'];
    reveal_strlit("\n# GitHub Start\n");
    reveal_strlit("# GitHub Start");
    reveal_strlit(" github.com\n");
    reveal_strlit(" github.com");
    reveal_strlit(" www.github.com\n");
    reveal_strlit(" www.github.com");
    reveal_strlit(" api.github.com\n");
    reveal_strlit(" api.github.com");
    let s0 = "\n# GitHub Start\n"@;
    let s1 = " github.com\n"@;
    let s2 = " www.github.com\n"@;
    let s3 = " api.github.com\n"@;
    assert(s0 =~= nl + ("# GitHub Start"@ + nl));
    assert(s1 =~= " github.com"@ + nl);
    assert(s2 =~= " www.github.com"@ + nl);
    assert(s3 =~= " api.github.com"@ + nl);
    let rest = block_tail(r);
    let x3 = a + s3 + rest;
    assert(x3 =~= (a + " api.github.com"@) + nl + rest);
    let x2 = g + s2 + x3;
    assert(x2 =~= (g + " www.github.com"@) + nl + x3);
    let x1 = g + s1 + x2;
    assert(x1 =~= (g + " github.com"@) + nl + x2);
    assert(hosts_block_text(g, a, r) =~= s0 + x1);
    assert(s0 + x1 =~= nl + ("# GitHub Start"@ + nl + x1));
}

/// The first five lines of the block, then the lines of the rest.
proof fn lemma_block_lines(g: Seq<char>, a: Seq<char>, r: Seq<char>)
    requires
        forall|k: int| 0 <= k < g.len() ==> g[k] != '\n',
        forall|k: int| 0 <= k < a.len() ==> a[k] != '\n',
    ensures
        lines_of(hosts_block_text(g, a, r)) == seq![
            Seq::<char>::empty(),
            "# GitHub Start"@,
            g + " github.com"@,
            g + " www.github.com"@,
            a + " api.github.com"@,
        ] + lines_of(block_tail(r)),
{
    lemma_block_shape(g, a, r);
    reveal_strlit("# GitHub Start");
    reveal_strlit(" github.com");
    reveal_strlit(" www.github.com");
    reveal_strlit(" api.github.com");
    let nl = seq!['\n'];
    let h = "# GitHub Start"@;
    let l2 = g + " github.com"@;
    let l3 = g + " www.github.com"@;
    let l4 = a + " api.github.com"@;
    let rest = block_tail(r);
    let t4 = l4 + nl + rest;
    let t3 = l3 + nl + t4;
    let t2 = l2 + nl + t3;
    let t1 = h + nl + t2;
    assert(seq!['\n'] + t1 =~= Seq::<char>::empty() + nl + t1);
    lemma_lines_cons(l4, rest);
    lemma_lines_cons(l3, t4);
    lemma_lines_cons(l2, t3);
    lemma_lines_cons(h, t2);
    lemma_lines_cons(Seq::<char>::empty(), t1);
    assert(strip_cr(l2) == l2);
    assert(strip_cr(l3) == l3);
    assert(strip_cr(l4) == l4);
    assert(strip_cr(h) == h);
    assert(strip_cr(Seq::<char>::empty()) == Seq::<char>::empty());
    assert(lines_of(Seq::<char>::empty() + nl + t1) =~= seq![Seq::<char>::empty(), h, l2, l3, l4]
        + lines_of(rest));
}

/// What direct mode writes, the configuration view reads back: as long as
/// the GitHub and API addresses hold no line break, the first GitHub entries
/// found in the written block are the `github.com`, `www.github.com` and
/// `api.github.com` lines, in that order.
pub proof fn lemma_block_entries_read_back(github_ip: Seq<char>, api_ip: Seq<char>, raw_ip: Seq<char>)
    requires
        forall|k: int| 0 <= k < github_ip.len() ==> github_ip[k] != '\n',
        forall|k: int| 0 <= k < api_ip.len() ==> api_ip[k] != '\n',
    ensures
        github_entries_of(hosts_block_text(github_ip, api_ip, raw_ip)).take(3) == seq![
            github_ip + " github.com"@,
            github_ip + " www.github.com"@,
            api_ip + " api.github.com"@,
        ],
{
    let g = github_ip;
    let a = api_ip;
    let p = "github.com"@;
    let h = "# GitHub Start"@;
    let l2 = g + " github.com"@;
    let l3 = g + " www.github.com"@;
    let l4 = a + " api.github.com"@;
    lemma_block_lines(g, a, raw_ip);
    let five = seq![Seq::<char>::empty(), h, l2, l3, l4];
    lemma_lines_with_append(five, lines_of(block_tail(raw_ip)), p);
    assert(!has_sub(Seq::<char>::empty(), p) && !has_sub(h, p)) by {
        reveal_strlit("github.com");
        reveal_strlit("# GitHub Start");
        lemma_no_first_char(Seq::<char>::empty(), p);
        lemma_no_first_char(h, p);
    }
    assert(has_sub(l2, p) && has_sub(l3, p) && has_sub(l4, p)) by {
        reveal_strlit("github.com");
        reveal_strlit(" github.com");
        reveal_strlit(" www.github.com");
        reveal_strlit(" api.github.com");
        reveal_strlit(" ");
        reveal_strlit(" www.");
        reveal_strlit(" api.");
        assert(l2 =~= (g + " "@) + p);
        assert(l3 =~= (g + " www."@) + p);
        assert(l4 =~= (a + " api."@) + p);
        lemma_has_sub_suffix(g + " "@, p);
        lemma_has_sub_suffix(g + " www."@, p);
        lemma_has_sub_suffix(a + " api."@, p);
    }
    let e = Seq::<char>::empty();
    let f1 = seq![e];
    let f2 = seq![e, h];
    let f3 = seq![e, h, l2];
    let f4 = seq![e, h, l2, l3];
    assert(f1.drop_last() =~= Seq::<Seq<char>>::empty());
    assert(lines_with(Seq::<Seq<char>>::empty(), p) =~= Seq::<Seq<char>>::empty());
    assert(f1.last() == e);
    assert(lines_with(f1, p) =~= Seq::<Seq<char>>::empty());
    assert(f2.drop_last() =~= f1);
    assert(f2.last() == h);
    assert(lines_with(f2, p) =~= Seq::<Seq<char>>::empty());
    assert(f3.drop_last() =~= f2);
    assert(f3.last() == l2);
    assert(lines_with(f3, p) =~= seq![l2]);
    assert(f4.drop_last() =~= f3);
    assert(f4.last() == l3);
    assert(lines_with(f4, p) =~= seq![l2, l3]);
    assert(five.drop_last() =~= f4);
    assert(five.last() == l4);
    assert(lines_with(five, p) =~= seq![l2, l3, l4]);
    let found = lines_with(lines_of(hosts_block_text(g, a, raw_ip)), p);
    assert(found.take(3) =~= seq![l2, l3, l4]);
}

} // verus!
