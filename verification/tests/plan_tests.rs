use jarvis::git::{
    drop_mirrors, drop_proxy, enable_mirror, mirror_choice, mirror_choice_commands, mirror_key,
    mirror_status_args, proxy_setup, reset, route_mirror, route_proxy, MirrorChoice,
    http_proxy_query_args, https_proxy_query_args,
};
use jarvis::menu::{menu_action, menu_continues, menu_entries, MenuAction};

fn cmd(args: &[&str]) -> Vec<String> {
    args.iter().map(|s| s.to_string()).collect()
}

#[test]
fn mirror_key_text() {
    assert_eq!(mirror_key("https://hub.fastgit.xyz"), "url.https://hub.fastgit.xyz/.insteadOf");
}

#[test]
fn enable_clears_then_routes() {
    assert_eq!(
        enable_mirror(),
        vec![
            cmd(&["config", "--global", "--unset", "url.https://hub.fastgit.xyz/.insteadOf"]),
            cmd(&["config", "--global", "--unset", "url.https://gitclone.com/.insteadOf"]),
            cmd(&["config", "--global", "url.https://hub.fastgit.xyz/.insteadOf", "https://github.com/"]),
            cmd(&["config", "--global", "url.https://hub.fastgit.xyz/.insteadOf", "git://github.com/"]),
        ]
    );
    assert_eq!(drop_mirrors(), enable_mirror()[..2].to_vec());
}

#[test]
fn proxy_plans() {
    assert_eq!(proxy_setup(""), None);
    assert_eq!(
        proxy_setup("127.0.0.1:7890"),
        Some(vec![
            cmd(&["config", "--global", "http.proxy", "127.0.0.1:7890"]),
            cmd(&["config", "--global", "https.proxy", "127.0.0.1:7890"]),
        ])
    );
    assert_eq!(route_proxy("p"), proxy_setup("p").unwrap());
    assert_eq!(
        drop_proxy(),
        vec![cmd(&["config", "--global", "--unset", "http.proxy"]), cmd(&["config", "--global", "--unset", "https.proxy"])]
    );
}

#[test]
fn reset_is_both_drops() {
    let mut expected = drop_mirrors();
    expected.extend(drop_proxy());
    assert_eq!(reset(), expected);
}

#[test]
fn route_mirror_uses_given_mirror() {
    assert_eq!(
        route_mirror("https://gitclone.com"),
        vec![
            cmd(&["config", "--global", "url.https://gitclone.com/.insteadOf", "https://github.com/"]),
            cmd(&["config", "--global", "url.https://gitclone.com/.insteadOf", "git://github.com/"]),
        ]
    );
}

#[test]
fn queries() {
    assert_eq!(mirror_status_args(), cmd(&["config", "--global", "--get-regexp", "url\\..*\\.insteadOf"]));
    assert_eq!(http_proxy_query_args(), cmd(&["config", "--global", "http.proxy"]));
    assert_eq!(https_proxy_query_args(), cmd(&["config", "--global", "https.proxy"]));
}

#[test]
fn mirror_menu() {
    assert_eq!(mirror_choice(0), MirrorChoice::Enable);
    assert_eq!(mirror_choice(1), MirrorChoice::Disable);
    assert_eq!(mirror_choice(2), MirrorChoice::ShowStatus);
    assert_eq!(mirror_choice(3), MirrorChoice::Back);
    assert_eq!(mirror_choice(9), MirrorChoice::Back);
    assert_eq!(mirror_choice_commands(MirrorChoice::Enable), enable_mirror());
    assert_eq!(mirror_choice_commands(MirrorChoice::Disable), drop_mirrors());
    assert!(mirror_choice_commands(MirrorChoice::ShowStatus).is_empty());
    assert!(mirror_choice_commands(MirrorChoice::Back).is_empty());
}

#[test]
fn main_menu() {
    let entries = menu_entries();
    assert_eq!(entries.len(), 8);
    assert_eq!(entries[7], "恢复默认并退出");
    assert_eq!(menu_action(0), MenuAction::OptimizeDns);
    assert_eq!(menu_action(6), MenuAction::SpeedTest);
    assert_eq!(menu_action(7), MenuAction::RestoreAndExit);
    assert_eq!(menu_action(8), MenuAction::Invalid);
    assert!(!menu_continues(MenuAction::RestoreAndExit));
    assert!(menu_continues(MenuAction::Invalid));
    assert!(menu_continues(MenuAction::ShowConfig));
}
