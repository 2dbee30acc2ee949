use jarvis::git::{reset, route_mirror, route_proxy};
use jarvis::speed::{probe_args, apply_plan, collect_results, preview, speed_probes, winner, AccessMode, SpeedResult};

fn result(label: &str, target: &str, latency_ms: i64, mode: AccessMode) -> SpeedResult {
    SpeedResult { label: label.to_string(), target: target.to_string(), latency_ms, mode }
}

#[test]
fn probes_without_and_with_proxy() {
    let p = speed_probes("");
    assert_eq!(p.len(), 3);
    assert_eq!(p[0].url, "https://github.com");
    assert_eq!(p[0].mode, AccessMode::Direct);
    assert_eq!(p[1].url, "https://hub.fastgit.xyz/https://github.com");
    assert_eq!(p[1].target, "https://hub.fastgit.xyz");
    assert_eq!(p[2].url, "https://gitclone.com/github.com/git/git.git");
    assert_eq!(p[2].label, "镜像 (gitclone)");
    let q = speed_probes("127.0.0.1:7890");
    assert_eq!(q.len(), 4);
    assert_eq!(q[3].label, "代理");
    assert_eq!(q[3].target, "127.0.0.1:7890");
    assert_eq!(q[3].mode, AccessMode::Proxy);
    assert_eq!(q[3].heading, "测试代理 (127.0.0.1:7890)...");
    assert_eq!(q[3].report, "  代理：");
    assert_eq!(q[0].heading, "测试直连...");
    assert_eq!(q[1].report, "  镜像 1: ");
}

#[test]
fn results_keep_answers_and_winner_is_first_fastest() {
    let probes = speed_probes("p");
    let results = collect_results(&probes, &vec![None, Some(80), Some(40), Some(40)]);
    assert_eq!(results.len(), 3);
    assert_eq!(results[0].label, "镜像 (fastgit)");
    assert_eq!(results[0].latency_ms, 80);
    assert_eq!(winner(&results), Some(1));
    assert_eq!(results[1].target, "https://gitclone.com");
    let none = collect_results(&probes, &vec![None, None, None, None]);
    assert_eq!(winner(&none), None);
}

#[test]
fn apply_resets_first() {
    let direct = result("直连", "", 10, AccessMode::Direct);
    assert_eq!(apply_plan(&direct), reset());
    let mirror = result("镜像 (gitclone)", "https://gitclone.com", 10, AccessMode::Mirror);
    let mut expected = reset();
    expected.extend(route_mirror("https://gitclone.com"));
    assert_eq!(apply_plan(&mirror), expected);
    let proxy = result("代理", "h:1", 10, AccessMode::Proxy);
    let mut expected = reset();
    expected.extend(route_proxy("h:1"));
    assert_eq!(apply_plan(&proxy), expected);
}

#[test]
fn previews() {
    let direct = result("直连", "", 10, AccessMode::Direct);
    assert_eq!(
        preview(&direct),
        vec![
            "  移除镜像配置:",
            "    git config --global --unset url.\"https://hub.fastgit.xyz/\".insteadOf",
            "    git config --global --unset url.\"https://gitclone.com/\".insteadOf",
            "  移除代理配置:",
            "    git config --global --unset http.proxy",
            "    git config --global --unset https.proxy",
        ]
    );
    let mirror = result("镜像 (fastgit)", "https://hub.fastgit.xyz", 10, AccessMode::Mirror);
    assert_eq!(
        preview(&mirror),
        vec![
            "  启用镜像：https://hub.fastgit.xyz",
            "    git config --global url.\"https://hub.fastgit.xyz/\".insteadOf \"https://github.com/\"",
            "    git config --global url.\"https://hub.fastgit.xyz/\".insteadOf \"git://github.com/\"",
            "  移除代理配置:",
            "    git config --global --unset http.proxy",
            "    git config --global --unset https.proxy",
        ]
    );
    let proxy = result("代理", "h:1", 10, AccessMode::Proxy);
    assert_eq!(
        preview(&proxy),
        vec![
            "  启用代理：h:1",
            "    git config --global http.proxy h:1",
            "    git config --global https.proxy h:1",
            "  移除镜像配置:",
            "    git config --global --unset url.\"https://hub.fastgit.xyz/\".insteadOf",
            "    git config --global --unset url.\"https://gitclone.com/\".insteadOf",
        ]
    );
}

#[test]
fn probes_are_timed_with_five_seconds() {
    let p = speed_probes("");
    assert_eq!(
        probe_args(&p[1]),
        vec![
            "curl",
            "-o",
            "/dev/null",
            "-s",
            "-w",
            "%{time_total}",
            "--connect-timeout",
            "5",
            "https://hub.fastgit.xyz/https://github.com"
        ]
    );
}
