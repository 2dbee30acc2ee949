//! The speed test: which ways of reaching GitHub are measured, which one
//! wins, what applying it changes, and what the user is shown beforehand.

use vstd::prelude::*;
use crate::text::views;
use crate::command::{curl_timing_args, curl_timing_command, owned};
use crate::git::{
    lemma_reset_undoes_proxy, lemma_set_command_parts, lemma_unset_is_no_assignment, undoes,
    insteadof_key, set_command, unset_command, append_plan, backup_mirror, backup_mirror_url, github_test_url, github_url, plan_views,
    primary_mirror, primary_mirror_url, reset, reset_plan, route_mirror, route_mirror_plan,
    route_proxy, route_proxy_plan,
};

verus! {

/// A way of reaching GitHub.
#[derive(PartialEq, Eq, Structural, Clone, Copy, Debug)]
pub enum AccessMode {
    Direct,
    Mirror,
    Proxy,
}

/// One measurement to make: a named way of access, the mirror or proxy it
/// goes through (empty for the direct one) and the address timed, with the
/// heading shown before it is measured and the prefix of the line that
/// reports it.
pub struct Probe {
    pub label: String,
    pub target: String,
    pub url: String,
    pub mode: AccessMode,
    pub heading: String,
    pub report: String,
}

pub struct ProbeView {
    pub label: Seq<char>,
    pub target: Seq<char>,
    pub url: Seq<char>,
    pub mode: AccessMode,
    pub heading: Seq<char>,
    pub report: Seq<char>,
}

impl View for Probe {
    type V = ProbeView;

    open spec fn view(&self) -> ProbeView {
        ProbeView {
            label: self.label@,
            target: self.target@,
            url: self.url@,
            mode: self.mode,
            heading: self.heading@,
            report: self.report@,
        }
    }
}

/// A way of access that answered, with its latency in milliseconds.
pub struct SpeedResult {
    pub label: String,
    pub target: String,
    pub latency_ms: i64,
    pub mode: AccessMode,
}

pub struct SpeedResultView {
    pub label: Seq<char>,
    pub target: Seq<char>,
    pub latency_ms: i64,
    pub mode: AccessMode,
}

impl View for SpeedResult {
    type V = SpeedResultView;

    open spec fn view(&self) -> SpeedResultView {
        SpeedResultView {
            label: self.label@,
            target: self.target@,
            latency_ms: self.latency_ms,
            mode: self.mode,
        }
    }
}

pub open spec fn probe_views(v: Seq<Probe>) -> Seq<ProbeView> {
    v.map_values(|p: Probe| p@)
}

pub open spec fn result_views(v: Seq<SpeedResult>) -> Seq<SpeedResultView> {
    v.map_values(|r: SpeedResult| r@)
}

/// The measurements of the speed test, in order: the direct connection, the
/// primary mirror, the backup mirror, and the configured proxy when there is
/// one (`proxy` empty means none).
pub open spec fn probes_for(proxy: Seq<char>) -> Seq<ProbeView> {
    let fixed = seq![
        ProbeView {
            label: "直连"@,
            target: ""@,
            url: github_url(),
            mode: AccessMode::Direct,
            heading: "测试直连..."@,
            report: "  直连："@,
        },
        ProbeView {
            label: "镜像 (fastgit)"@,
            target: primary_mirror(),
            url: primary_mirror() + "/"@ + github_url(),
            mode: AccessMode::Mirror,
            heading: "测试镜像 1 (hub.fastgit.xyz)..."@,
            report: "  镜像 1: "@,
        },
        ProbeView {
            label: "镜像 (gitclone)"@,
            target: backup_mirror(),
            url: "https://gitclone.com/github.com/git/git.git"@,
            mode: AccessMode::Mirror,
            heading: "测试镜像 2 (gitclone.com)..."@,
            report: "  镜像 2: "@,
        },
    ];
    if proxy.len() == 0 {
        fixed
    } else {
        fixed.push(
            ProbeView {
                label: "代理"@,
                target: proxy,
                url: github_url(),
                mode: AccessMode::Proxy,
                heading: "测试代理 ("@ + proxy + ")..."@,
                report: "  代理："@,
            },
        )
    }
}

pub fn speed_probes(proxy: &str) -> (v: Vec<Probe>)
    ensures
        probe_views(v@) == probes_for(proxy@),
{
    let mut mirror_test = owned(primary_mirror_url());
    mirror_test.append("/");
    mirror_test.append(github_test_url());
    let mut v = vec![
        Probe {
            label: owned("直连"),
            target: owned(""),
            url: owned(github_test_url()),
            mode: AccessMode::Direct,
            heading: owned("测试直连..."),
            report: owned("  直连："),
        },
        Probe {
            label: owned("镜像 (fastgit)"),
            target: owned(primary_mirror_url()),
            url: mirror_test,
            mode: AccessMode::Mirror,
            heading: owned("测试镜像 1 (hub.fastgit.xyz)..."),
            report: owned("  镜像 1: "),
        },
        Probe {
            label: owned("镜像 (gitclone)"),
            target: owned(backup_mirror_url()),
            url: owned("https://gitclone.com/github.com/git/git.git"),
            mode: AccessMode::Mirror,
            heading: owned("测试镜像 2 (gitclone.com)..."),
            report: owned("  镜像 2: "),
        },
    ];
    if !proxy.is_empty() {
        let mut heading = owned("测试代理 (");
        heading.append(proxy);
        heading.append(")...");
        v.push(
            Probe {
                label: owned("代理"),
                target: owned(proxy),
                url: owned(github_test_url()),
                mode: AccessMode::Proxy,
                heading,
                report: owned("  代理："),
            },
        );
    }
    assert(probe_views(v@) =~= probes_for(proxy@));
    v
}

/// The seconds each probe of the speed test is given to connect.
pub open spec fn probe_timeout() -> nat {
    5
}

/// The `curl` that times `probe`.
pub fn probe_args(probe: &Probe) -> (v: Vec<String>)
    ensures
        views(v@) == curl_timing_command(probe.url@, probe_timeout()),
{
    curl_timing_args(probe.url.as_str(), 5)
}

/// The first `n` probes that answered, with their latencies.
pub open spec fn answered_upto(probes: Seq<ProbeView>, lats: Seq<Option<i64>>, n: int) -> Seq<
    SpeedResultView,
>
    decreases n,
{
    if n <= 0 {
        seq![]
    } else {
        match lats[n - 1] {
            Some(l) => answered_upto(probes, lats, n - 1).push(
                SpeedResultView {
                    label: probes[n - 1].label,
                    target: probes[n - 1].target,
                    latency_ms: l,
                    mode: probes[n - 1].mode,
                },
            ),
            None => answered_upto(probes, lats, n - 1),
        }
    }
}

/// The probes that answered, in order, each with its latency.
pub open spec fn answered(probes: Seq<ProbeView>, lats: Seq<Option<i64>>) -> Seq<SpeedResultView> {
    answered_upto(probes, lats, probes.len() as int)
}

/// Pairs each probe with its measured latency (`None`: timed out or failed)
/// and keeps those that answered.
pub fn collect_results(probes: &Vec<Probe>, lats: &Vec<Option<i64>>) -> (v: Vec<SpeedResult>)
    requires
        probes@.len() == lats@.len(),
    ensures
        result_views(v@) == answered(probe_views(probes@), lats@),
{
    let ghost ps = probe_views(probes@);
    let mut v: Vec<SpeedResult> = Vec::new();
    let mut i: usize = 0;
    while i < probes.len()
        invariant
            i <= probes@.len(),
            probes@.len() == lats@.len(),
            ps == probe_views(probes@),
            result_views(v@) == answered_upto(ps, lats@, i as int),
        decreases probes@.len() - i,
    {
        match lats[i] {
            Some(l) => {
                let p = &probes[i];
                let r = SpeedResult {
                    label: p.label.clone(),
                    target: p.target.clone(),
                    latency_ms: l,
                    mode: p.mode,
                };
                let ghost before = v@;
                v.push(r);
                assert(result_views(v@) =~= result_views(before).push(r@));
            },
            None => {},
        }
        i = i + 1;
    }
    v
}

/// Among the first `n` latencies, the index of the first lowest one.
pub open spec fn first_lowest_upto(lats: Seq<i64>, n: int) -> int
    decreases n,
{
    if n <= 1 {
        0
    } else {
        let prev = first_lowest_upto(lats, n - 1);
        if lats[n - 1] < lats[prev] {
            n - 1
        } else {
            prev
        }
    }
}

/// The latencies of the results.
pub open spec fn latencies(rs: Seq<SpeedResultView>) -> Seq<i64> {
    rs.map_values(|r: SpeedResultView| r.latency_ms)
}

/// The index of the winner: the first result with the lowest latency
/// (`Iterator::min_by_key`), none when nothing answered.
pub open spec fn winner_of(rs: Seq<SpeedResultView>) -> Option<int> {
    if rs.len() == 0 {
        None
    } else {
        Some(first_lowest_upto(latencies(rs), rs.len() as int))
    }
}

pub fn winner(results: &Vec<SpeedResult>) -> (w: Option<usize>)
    ensures
        w matches Some(i) ==> winner_of(result_views(results@)) == Some(i as int),
        w is None ==> winner_of(result_views(results@)) is None,
{
    if results.len() == 0 {
        return None;
    }
    let ghost lats = latencies(result_views(results@));
    let mut best: usize = 0;
    let mut i: usize = 1;
    while i < results.len()
        invariant
            1 <= i <= results@.len(),
            lats == latencies(result_views(results@)),
            best as int == first_lowest_upto(lats, i as int),
            best < i,
        decreases results@.len() - i,
    {
        if results[i].latency_ms < results[best].latency_ms {
            best = i;
        }
        i = i + 1;
    }
    Some(best)
}

/// The winner has the lowest latency of all results, and every result
/// before it is strictly slower.
pub proof fn lemma_winner_is_first_fastest(rs: Seq<SpeedResultView>)
    requires
        rs.len() > 0,
    ensures
        winner_of(rs) matches Some(w) && 0 <= w < rs.len() && (forall|k: int|
            0 <= k < rs.len() ==> rs[w].latency_ms <= rs[k].latency_ms) && (forall|k: int|
            0 <= k < w ==> rs[w].latency_ms < rs[k].latency_ms),
{
    let l = latencies(rs);
    lemma_first_lowest(l, rs.len() as int);
    let w = first_lowest_upto(l, rs.len() as int);
    assert forall|k: int| 0 <= k < rs.len() implies rs[w].latency_ms <= rs[k].latency_ms by {
        assert(l[k] == rs[k].latency_ms);
        assert(l[w] == rs[w].latency_ms);
    }
    assert forall|k: int| 0 <= k < w implies rs[w].latency_ms < rs[k].latency_ms by {
        assert(l[k] == rs[k].latency_ms);
        assert(l[w] == rs[w].latency_ms);
    }
}

proof fn lemma_first_lowest(lats: Seq<i64>, n: int)
    requires
        1 <= n <= lats.len(),
    ensures
        0 <= first_lowest_upto(lats, n) < n,
        forall|k: int| 0 <= k < n ==> lats[first_lowest_upto(lats, n)] <= #[trigger] lats[k],
        forall|k: int|
            0 <= k < first_lowest_upto(lats, n) ==> lats[first_lowest_upto(lats, n)] < #[trigger] lats[k],
    decreases n,
{
    if n > 1 {
        lemma_first_lowest(lats, n - 1);
    }
}

/// The configuration that routes traffic the way `mode` goes, through
/// `target`.
pub open spec fn routing_plan(mode: AccessMode, target: Seq<char>) -> Seq<Seq<Seq<char>>> {
    match mode {
        AccessMode::Direct => seq![],
        AccessMode::Mirror => route_mirror_plan(target),
        AccessMode::Proxy => route_proxy_plan(target),
    }
}

/// Applying a result: every mirror and proxy setting is removed first, then
/// the result's way of access is configured.
pub open spec fn apply_plan_of(r: SpeedResultView) -> Seq<Seq<Seq<char>>> {
    reset_plan() + routing_plan(r.mode, r.target)
}

pub fn apply_plan(r: &SpeedResult) -> (p: Vec<Vec<String>>)
    ensures
        plan_views(p@) == apply_plan_of(r@),
{
    let mut p = reset();
    match r.mode {
        AccessMode::Direct => {
            assert(plan_views(p@) =~= apply_plan_of(r@));
        },
        AccessMode::Mirror => append_plan(&mut p, route_mirror(r.target.as_str())),
        AccessMode::Proxy => append_plan(&mut p, route_proxy(r.target.as_str())),
    }
    p
}

/// `    git config --global --unset url."<mirror>/".insteadOf`
pub open spec fn unset_mirror_line(mirror: Seq<char>) -> Seq<char> {
    "    git config --global --unset url.\""@ + mirror + "/\".insteadOf"@
}

/// `    git config --global url."<mirror>/".insteadOf "<from>"`
pub open spec fn set_mirror_line(mirror: Seq<char>, from: Seq<char>) -> Seq<char> {
    "    git config --global url.\""@ + mirror + "/\".insteadOf \""@ + from + "\""@
}

/// The lines announcing that both mirrors are removed.
pub open spec fn drop_mirrors_lines() -> Seq<Seq<char>> {
    seq![
        "  移除镜像配置:"@,
        unset_mirror_line(primary_mirror()),
        unset_mirror_line(backup_mirror()),
    ]
}

/// The lines announcing that both proxies are removed.
pub open spec fn drop_proxy_lines() -> Seq<Seq<char>> {
    seq![
        "  移除代理配置:"@,
        "    git config --global --unset http.proxy"@,
        "    git config --global --unset https.proxy"@,
    ]
}

/// The list of changes shown before a result is applied.
pub open spec fn preview_of(r: SpeedResultView) -> Seq<Seq<char>> {
    match r.mode {
        AccessMode::Direct => drop_mirrors_lines() + drop_proxy_lines(),
        AccessMode::Mirror => seq![
            "  启用镜像："@ + r.target,
            set_mirror_line(r.target, "https://github.com/"@),
            set_mirror_line(r.target, "git://github.com/"@),
        ] + drop_proxy_lines(),
        AccessMode::Proxy => seq![
            "  启用代理："@ + r.target,
            "    git config --global http.proxy "@ + r.target,
            "    git config --global https.proxy "@ + r.target,
        ] + drop_mirrors_lines(),
    }
}

fn unset_mirror_text(mirror: &str) -> (s: String)
    ensures
        s@ == unset_mirror_line(mirror@),
{
    let mut s = owned("    git config --global --unset url.\"");
    s.append(mirror);
    s.append("/\".insteadOf");
    s
}

fn set_mirror_text(mirror: &str, from: &str) -> (s: String)
    ensures
        s@ == set_mirror_line(mirror@, from@),
{
    let mut s = owned("    git config --global url.\"");
    s.append(mirror);
    s.append("/\".insteadOf \"");
    s.append(from);
    s.append("\"");
    s
}

fn prefixed(head: &str, tail: &str) -> (s: String)
    ensures
        s@ == head@ + tail@,
{
    let mut s = owned(head);
    s.append(tail);
    s
}

pub fn preview(r: &SpeedResult) -> (v: Vec<String>)
    ensures
        views(v@) == preview_of(r@),
{
    let t = r.target.as_str();
    let drop_mirrors = vec![
        owned("  移除镜像配置:"),
        unset_mirror_text(primary_mirror_url()),
        unset_mirror_text(backup_mirror_url()),
    ];
    let drop_proxy = vec![
        owned("  移除代理配置:"),
        owned("    git config --global --unset http.proxy"),
        owned("    git config --global --unset https.proxy"),
    ];
    assert(views(drop_mirrors@) =~= drop_mirrors_lines());
    assert(views(drop_proxy@) =~= drop_proxy_lines());
    let (mut head, mut tail) = match r.mode {
        AccessMode::Direct => (drop_mirrors, drop_proxy),
        AccessMode::Mirror => (
            vec![
                prefixed("  启用镜像：", t),
                set_mirror_text(t, "https://github.com/"),
                set_mirror_text(t, "git://github.com/"),
            ],
            drop_proxy,
        ),
        AccessMode::Proxy => (
            vec![
                prefixed("  启用代理：", t),
                prefixed("    git config --global http.proxy ", t),
                prefixed("    git config --global https.proxy ", t),
            ],
            drop_mirrors,
        ),
    };
    let ghost h = head@;
    let ghost tl = tail@;
    head.append(&mut tail);
    assert(views(head@) =~= views(h) + views(tl));
    head
}

/// Each answered result comes from one of the probes, with its mode and
/// target.
pub proof fn lemma_answered_from_probes(probes: Seq<ProbeView>, lats: Seq<Option<i64>>, n: int, k: int)
    requires
        0 <= n <= probes.len(),
        n <= lats.len(),
        0 <= k < answered_upto(probes, lats, n).len(),
    ensures
        exists|j: int|
            0 <= j < n && #[trigger] probes[j].mode == answered_upto(probes, lats, n)[k].mode
                && probes[j].target == answered_upto(probes, lats, n)[k].target,
    decreases n,
{
    if n > 0 {
        let prev = answered_upto(probes, lats, n - 1);
        if k < prev.len() {
            lemma_answered_from_probes(probes, lats, n - 1, k);
            assert(answered_upto(probes, lats, n)[k] == prev[k]);
        } else {
            assert(probes[n - 1].mode == answered_upto(probes, lats, n)[k].mode);
        }
    }
}

/// Resetting removes every setting that applying a way of access makes,
/// for the ways the speed test measures: direct, either known mirror, or a
/// proxy.
pub proof fn lemma_reset_undoes_apply(r: SpeedResultView)
    requires
        r.mode == AccessMode::Mirror ==> (r.target == primary_mirror() || r.target
            == backup_mirror()),
    ensures
        undoes(reset_plan(), apply_plan_of(r)),
{
    let p = apply_plan_of(r);
    let rp = reset_plan();
    let route = routing_plan(r.mode, r.target);
    if r.mode == AccessMode::Proxy {
        lemma_reset_undoes_proxy(r.target);
    }
    assert(rp[0] == unset_command(insteadof_key(primary_mirror())));
    assert(rp[1] == unset_command(insteadof_key(backup_mirror())));
    assert forall|i: int, key: Seq<char>, value: Seq<char>|
        0 <= i < p.len() && #[trigger] p[i] == #[trigger] set_command(key, value) && key
            != "--unset"@ implies rp.contains(unset_command(key)) by {
        if i < 4 {
            assert(p[i] == rp[i]);
            let k = rp[i][3];
            assert(rp[i] == unset_command(k));
            lemma_unset_is_no_assignment(k, key, value);
        } else {
            assert(p[i] == route[i - 4]);
            if r.mode == AccessMode::Mirror {
                if i == 4 {
                    lemma_set_command_parts(insteadof_key(r.target), "https://github.com/"@, key, value);
                } else {
                    lemma_set_command_parts(insteadof_key(r.target), "git://github.com/"@, key, value);
                }
            } else {
                assert(undoes(rp, route));
                assert(route[i - 4] == set_command(key, value));
            }
        }
    }
}

/// Resetting (what restoring the defaults runs) removes every setting that
/// applying any result of the speed test makes.
pub proof fn lemma_reset_undoes_speed_choice(proxy: Seq<char>, lats: Seq<Option<i64>>, k: int)
    requires
        lats.len() == probes_for(proxy).len(),
        0 <= k < answered(probes_for(proxy), lats).len(),
    ensures
        undoes(reset_plan(), apply_plan_of(answered(probes_for(proxy), lats)[k])),
{
    let ps = probes_for(proxy);
    lemma_answered_from_probes(ps, lats, ps.len() as int, k);
    lemma_reset_undoes_apply(answered(ps, lats)[k]);
}

/// How many of the first `k` measurements answered.
pub open spec fn answers_before(lats: Seq<Option<i64>>, k: int) -> nat
    decreases k,
{
    if k <= 0 {
        0
    } else {
        answers_before(lats, k - 1) + if lats[k - 1] is Some {
            1nat
        } else {
            0nat
        }
    }
}

/// The result that probe `p` gives when it answered in `l` milliseconds.
pub open spec fn result_of(p: ProbeView, l: i64) -> SpeedResultView {
    SpeedResultView { label: p.label, target: p.target, latency_ms: l, mode: p.mode }
}

proof fn lemma_answers_before_monotone(lats: Seq<Option<i64>>, a: int, b: int)
    requires
        0 <= a <= b,
    ensures
        answers_before(lats, a) <= answers_before(lats, b),
    decreases b - a,
{
    if a < b {
        lemma_answers_before_monotone(lats, a, b - 1);
    }
}

proof fn lemma_answered_upto_positions(probes: Seq<ProbeView>, lats: Seq<Option<i64>>, n: int)
    requires
        0 <= n <= lats.len(),
        n <= probes.len(),
    ensures
        answered_upto(probes, lats, n).len() == answers_before(lats, n),
        forall|k: int|
            0 <= k < n && #[trigger] lats[k] is Some ==> answered_upto(probes, lats, n)[answers_before(
                lats,
                k,
            ) as int] == result_of(probes[k], lats[k]->0),
    decreases n,
{
    if n > 0 {
        lemma_answered_upto_positions(probes, lats, n - 1);
        let prev = answered_upto(probes, lats, n - 1);
        assert forall|k: int| 0 <= k < n && #[trigger] lats[k] is Some implies answered_upto(
            probes,
            lats,
            n,
        )[answers_before(lats, k) as int] == result_of(probes[k], lats[k]->0) by {
            if k < n - 1 {
                lemma_answers_before_monotone(lats, k + 1, n - 1);
                assert(answers_before(lats, k) < prev.len());
            }
        }
    }
}

/// The speed test keeps every answer: there are as many results as probes
/// that answered, and the probe at `k` that answered in `l` milliseconds
/// gives, with its own label, target and mode and that latency, the result
/// placed after those of the probes before it that answered.
pub proof fn lemma_every_answer_is_kept(probes: Seq<ProbeView>, lats: Seq<Option<i64>>)
    requires
        probes.len() == lats.len(),
    ensures
        answered(probes, lats).len() == answers_before(lats, lats.len() as int),
        forall|k: int|
            0 <= k < lats.len() && #[trigger] lats[k] is Some ==> answered(probes, lats)[answers_before(
                lats,
                k,
            ) as int] == result_of(probes[k], lats[k]->0),
{
    lemma_answered_upto_positions(probes, lats, lats.len() as int);
}

/// The probes of the speed test: the direct connection to GitHub, each known
/// mirror as a mirror, and a proxy only when one is configured, then through
/// that address alone. Anything named a mirror goes through one of the two
/// known mirrors.
pub proof fn lemma_probe_modes(proxy: Seq<char>)
    ensures
        probes_for(proxy).len() == if proxy.len() == 0 {
            3int
        } else {
            4int
        },
        exists|i: int|
            0 <= i < probes_for(proxy).len() && #[trigger] probes_for(proxy)[i].mode
                == AccessMode::Direct && probes_for(proxy)[i].url == github_url(),
        exists|i: int|
            0 <= i < probes_for(proxy).len() && #[trigger] probes_for(proxy)[i].mode
                == AccessMode::Mirror && probes_for(proxy)[i].target == primary_mirror(),
        exists|i: int|
            0 <= i < probes_for(proxy).len() && #[trigger] probes_for(proxy)[i].mode
                == AccessMode::Mirror && probes_for(proxy)[i].target == backup_mirror(),
        forall|i: int|
            0 <= i < probes_for(proxy).len() && #[trigger] probes_for(proxy)[i].mode
                == AccessMode::Proxy ==> proxy.len() > 0 && probes_for(proxy)[i].target == proxy,
        forall|i: int|
            0 <= i < probes_for(proxy).len() && #[trigger] probes_for(proxy)[i].mode
                == AccessMode::Mirror ==> probes_for(proxy)[i].target == primary_mirror()
                || probes_for(proxy)[i].target == backup_mirror(),
        proxy.len() > 0 ==> exists|i: int|
            0 <= i < probes_for(proxy).len() && #[trigger] probes_for(proxy)[i].mode
                == AccessMode::Proxy,
{
    let ps = probes_for(proxy);
    assert(ps[0].mode == AccessMode::Direct);
    assert(ps[1].mode == AccessMode::Mirror);
    assert(ps[2].mode == AccessMode::Mirror);
    if proxy.len() > 0 {
        assert(ps[3].mode == AccessMode::Proxy);
    }
}

} // verus!
