//! The interactive menu: its entries and what each selection does.

use vstd::prelude::*;
use crate::text::{has_prefix, views};
use crate::command::owned;

verus! {

/// What a menu selection asks for.
#[derive(PartialEq, Eq, Structural, Clone, Copy, Debug)]
pub enum MenuAction {
    OptimizeDns,
    ConfigureMirror,
    ConfigureProxy,
    SetupSsh,
    TestConnection,
    ShowConfig,
    SpeedTest,
    RestoreAndExit,
    Invalid,
}

/// The entries of the menu, in the order the selections count them.
pub open spec fn menu_entry_list() -> Seq<Seq<char>> {
    seq![
        "直连模式 - 优化 DNS/hosts"@,
        "镜像模式 - 配置 Git 镜像加速"@,
        "代理模式 - 配置 Git 代理 (需要代理服务器)"@,
        "SSH 模式 - 配置 SSH 密钥"@,
        "测试 GitHub 连接"@,
        "查看当前配置"@,
        "自动测速 - 选择最快的方式"@,
        "恢复默认并退出"@,
    ]
}

pub fn menu_entries() -> (v: Vec<String>)
    ensures
        views(v@) == menu_entry_list(),
{
    let v = vec![
        owned("直连模式 - 优化 DNS/hosts"),
        owned("镜像模式 - 配置 Git 镜像加速"),
        owned("代理模式 - 配置 Git 代理 (需要代理服务器)"),
        owned("SSH 模式 - 配置 SSH 密钥"),
        owned("测试 GitHub 连接"),
        owned("查看当前配置"),
        owned("自动测速 - 选择最快的方式"),
        owned("恢复默认并退出"),
    ];
    assert(views(v@) =~= menu_entry_list());
    v
}

/// The action of the entry at `selection`; past the last entry, none.
pub open spec fn menu_action_at(selection: int) -> MenuAction {
    if selection == 0 {
        MenuAction::OptimizeDns
    } else if selection == 1 {
        MenuAction::ConfigureMirror
    } else if selection == 2 {
        MenuAction::ConfigureProxy
    } else if selection == 3 {
        MenuAction::SetupSsh
    } else if selection == 4 {
        MenuAction::TestConnection
    } else if selection == 5 {
        MenuAction::ShowConfig
    } else if selection == 6 {
        MenuAction::SpeedTest
    } else if selection == 7 {
        MenuAction::RestoreAndExit
    } else {
        MenuAction::Invalid
    }
}

pub fn menu_action(selection: usize) -> (a: MenuAction)
    ensures
        a == menu_action_at(selection as int),
{
    match selection {
        0 => MenuAction::OptimizeDns,
        1 => MenuAction::ConfigureMirror,
        2 => MenuAction::ConfigureProxy,
        3 => MenuAction::SetupSsh,
        4 => MenuAction::TestConnection,
        5 => MenuAction::ShowConfig,
        6 => MenuAction::SpeedTest,
        7 => MenuAction::RestoreAndExit,
        _ => MenuAction::Invalid,
    }
}

/// Every entry of the menu leads to its own action, and only a selection
/// past the entries is invalid.
pub proof fn lemma_menu_actions_distinct(i: int, j: int)
    requires
        0 <= i < menu_entry_list().len(),
        0 <= j < menu_entry_list().len(),
        i != j,
    ensures
        menu_action_at(i) != MenuAction::Invalid,
        menu_action_at(i) != menu_action_at(j),
{
}

/// After a selection, the menu is shown again, except after restoring the
/// defaults, which ends the program.
pub open spec fn continues_after(a: MenuAction) -> bool {
    a != MenuAction::RestoreAndExit
}

pub fn menu_continues(a: MenuAction) -> (b: bool)
    ensures
        b == continues_after(a),
{
    match a {
        MenuAction::RestoreAndExit => false,
        _ => true,
    }
}

/// The action a menu entry names, by the words it opens with.
pub open spec fn named_action(entry: Seq<char>) -> MenuAction {
    if has_prefix(entry, "直连"@) {
        MenuAction::OptimizeDns
    } else if has_prefix(entry, "镜像"@) {
        MenuAction::ConfigureMirror
    } else if has_prefix(entry, "代理"@) {
        MenuAction::ConfigureProxy
    } else if has_prefix(entry, "SSH"@) {
        MenuAction::SetupSsh
    } else if has_prefix(entry, "测试"@) {
        MenuAction::TestConnection
    } else if has_prefix(entry, "查看"@) {
        MenuAction::ShowConfig
    } else if has_prefix(entry, "自动测速"@) {
        MenuAction::SpeedTest
    } else if has_prefix(entry, "恢复默认"@) {
        MenuAction::RestoreAndExit
    } else {
        MenuAction::Invalid
    }
}

/// `p` is not a prefix of `s` when their first characters differ.
proof fn lemma_not_prefix(s: Seq<char>, p: Seq<char>)
    requires
        s.len() > 0,
        p.len() > 0,
        s[0] != p[0],
    ensures
        !has_prefix(s, p),
{
    if p.len() <= s.len() {
        assert(s.take(p.len() as int)[0] != p[0]);
    }
}

/// `p` is a prefix of `s` when they agree on its characters.
proof fn lemma_is_prefix(s: Seq<char>, p: Seq<char>)
    requires
        p.len() <= s.len(),
        forall|k: int| 0 <= k < p.len() ==> s[k] == p[k],
    ensures
        has_prefix(s, p),
{
    assert(s.take(p.len() as int) =~= p);
}

/// Each selection runs what the entry shown at its place names: choosing
/// the mirror entry configures the mirror, the proxy entry the proxy, and
/// so on for all eight entries.
pub proof fn lemma_selection_runs_named_action(i: int)
    requires
        0 <= i < menu_entry_list().len(),
    ensures
        menu_action_at(i) == named_action(menu_entry_list()[i]),
{
    let e = menu_entry_list()[i];
    reveal_strlit("直连模式 - 优化 DNS/hosts");
    reveal_strlit("镜像模式 - 配置 Git 镜像加速");
    reveal_strlit("代理模式 - 配置 Git 代理 (需要代理服务器)");
    reveal_strlit("SSH 模式 - 配置 SSH 密钥");
    reveal_strlit("测试 GitHub 连接");
    reveal_strlit("查看当前配置");
    reveal_strlit("自动测速 - 选择最快的方式");
    reveal_strlit("恢复默认并退出");
    reveal_strlit("直连");
    reveal_strlit("镜像");
    reveal_strlit("代理");
    reveal_strlit("SSH");
    reveal_strlit("测试");
    reveal_strlit("查看");
    reveal_strlit("自动测速");
    reveal_strlit("恢复默认");
    let keys = seq!["直连"@, "镜像"@, "代理"@, "SSH"@, "测试"@, "查看"@, "自动测速"@, "恢复默认"@];
    assert(e.len() > 0);
    assert forall|j: int| 0 <= j < 8 && j != i implies !has_prefix(e, #[trigger] keys[j]) by {
        lemma_not_prefix(e, keys[j]);
    }
    lemma_is_prefix(e, keys[i]);
    assert(keys[0] == "直连"@);
    assert(keys[1] == "镜像"@);
    assert(keys[2] == "代理"@);
    assert(keys[3] == "SSH"@);
    assert(keys[4] == "测试"@);
    assert(keys[5] == "查看"@);
    assert(keys[6] == "自动测速"@);
    assert(keys[7] == "恢复默认"@);
}

} // verus!
