//! Git configuration plans: the `git config --global` argument lists that
//! route GitHub traffic through a mirror or a proxy, and those that undo it.
//! A plan is a sequence of argument lists, each run as `git <args>`.

use vstd::prelude::*;
use crate::text::views;
use crate::command::owned;

verus! {

/// The views of a plan.
pub open spec fn plan_views(p: Seq<Vec<String>>) -> Seq<Seq<Seq<char>>> {
    p.map_values(|c: Vec<String>| views(c@))
}

/// The mirror the tool routes to by default.
pub open spec fn primary_mirror() -> Seq<char> {
    "https://hub.fastgit.xyz"@
}

/// The second mirror the speed test measures.
pub open spec fn backup_mirror() -> Seq<char> {
    "https://gitclone.com"@
}

/// The address the direct connection is measured against.
pub open spec fn github_url() -> Seq<char> {
    "https://github.com"@
}

pub fn primary_mirror_url() -> (r: &'static str)
    ensures
        r@ == primary_mirror(),
{
    "https://hub.fastgit.xyz"
}

pub fn backup_mirror_url() -> (r: &'static str)
    ensures
        r@ == backup_mirror(),
{
    "https://gitclone.com"
}

pub fn github_test_url() -> (r: &'static str)
    ensures
        r@ == github_url(),
{
    "https://github.com"
}

/// The configuration key that rewrites URLs to go through `mirror`:
/// `url.<mirror>/.insteadOf`.
pub open spec fn insteadof_key(mirror: Seq<char>) -> Seq<char> {
    "url."@ + mirror + "/.insteadOf"@
}

pub fn mirror_key(mirror: &str) -> (k: String)
    ensures
        k@ == insteadof_key(mirror@),
{
    let mut k = owned("url.");
    k.append(mirror);
    k.append("/.insteadOf");
    k
}

/// `config --global --unset <key>`.
pub open spec fn unset_command(key: Seq<char>) -> Seq<Seq<char>> {
    seq!["config"@, "--global"@, "--unset"@, key]
}

/// `config --global <key> <value>`.
pub open spec fn set_command(key: Seq<char>, value: Seq<char>) -> Seq<Seq<char>> {
    seq!["config"@, "--global"@, key, value]
}

/// `config --global <key>`: prints the value of `key`.
pub open spec fn get_command(key: Seq<char>) -> Seq<Seq<char>> {
    seq!["config"@, "--global"@, key]
}

pub fn unset_args(key: &str) -> (v: Vec<String>)
    ensures
        views(v@) == unset_command(key@),
{
    let v = vec![owned("config"), owned("--global"), owned("--unset"), owned(key)];
    assert(views(v@) =~= unset_command(key@));
    v
}

pub fn set_args(key: &str, value: &str) -> (v: Vec<String>)
    ensures
        views(v@) == set_command(key@, value@),
{
    let v = vec![owned("config"), owned("--global"), owned(key), owned(value)];
    assert(views(v@) =~= set_command(key@, value@));
    v
}

pub fn get_args(key: &str) -> (v: Vec<String>)
    ensures
        views(v@) == get_command(key@),
{
    let v = vec![owned("config"), owned("--global"), owned(key)];
    assert(views(v@) =~= get_command(key@));
    v
}

/// `config --global --get-regexp url\..*\.insteadOf`: lists every URL
/// rewrite in force.
pub open spec fn mirror_status_command() -> Seq<Seq<char>> {
    seq!["config"@, "--global"@, "--get-regexp"@, "url\\..*\\.insteadOf"@]
}

pub fn mirror_status_args() -> (v: Vec<String>)
    ensures
        views(v@) == mirror_status_command(),
{
    let v = vec![
        owned("config"),
        owned("--global"),
        owned("--get-regexp"),
        owned("url\\..*\\.insteadOf"),
    ];
    assert(views(v@) =~= mirror_status_command());
    v
}

/// The key of the HTTP proxy setting.
pub open spec fn http_proxy_key() -> Seq<char> {
    "http.proxy"@
}

/// The key of the HTTPS proxy setting.
pub open spec fn https_proxy_key() -> Seq<char> {
    "https.proxy"@
}

/// `config --global http.proxy`: prints the configured HTTP proxy.
pub fn http_proxy_query_args() -> (v: Vec<String>)
    ensures
        views(v@) == get_command(http_proxy_key()),
{
    get_args("http.proxy")
}

/// `config --global https.proxy`: prints the configured HTTPS proxy.
pub fn https_proxy_query_args() -> (v: Vec<String>)
    ensures
        views(v@) == get_command(https_proxy_key()),
{
    get_args("https.proxy")
}

/// Removes the URL rewrites of both known mirrors.
pub open spec fn drop_mirrors_plan() -> Seq<Seq<Seq<char>>> {
    seq![unset_command(insteadof_key(primary_mirror())), unset_command(insteadof_key(backup_mirror()))]
}

/// Rewrites `https://github.com/` and `git://github.com/` to `mirror`.
pub open spec fn route_mirror_plan(mirror: Seq<char>) -> Seq<Seq<Seq<char>>> {
    seq![
        set_command(insteadof_key(mirror), "https://github.com/"@),
        set_command(insteadof_key(mirror), "git://github.com/"@),
    ]
}

/// Clears both mirrors, then routes through the primary one.
pub open spec fn enable_mirror_plan() -> Seq<Seq<Seq<char>>> {
    drop_mirrors_plan() + route_mirror_plan(primary_mirror())
}

/// Removes both proxy settings.
pub open spec fn drop_proxy_plan() -> Seq<Seq<Seq<char>>> {
    seq![unset_command(http_proxy_key()), unset_command(https_proxy_key())]
}

/// Sends HTTP and HTTPS traffic through the proxy at `addr`.
pub open spec fn route_proxy_plan(addr: Seq<char>) -> Seq<Seq<Seq<char>>> {
    seq![set_command(http_proxy_key(), addr), set_command(https_proxy_key(), addr)]
}

/// Removes every mirror and proxy setting the tool makes.
pub open spec fn reset_plan() -> Seq<Seq<Seq<char>>> {
    drop_mirrors_plan() + drop_proxy_plan()
}

pub fn drop_mirrors() -> (p: Vec<Vec<String>>)
    ensures
        plan_views(p@) == drop_mirrors_plan(),
{
    let k1 = mirror_key(primary_mirror_url());
    let k2 = mirror_key(backup_mirror_url());
    let p = vec![unset_args(k1.as_str()), unset_args(k2.as_str())];
    assert(plan_views(p@) =~= drop_mirrors_plan());
    p
}

pub fn route_mirror(mirror: &str) -> (p: Vec<Vec<String>>)
    ensures
        plan_views(p@) == route_mirror_plan(mirror@),
{
    let k = mirror_key(mirror);
    let p = vec![set_args(k.as_str(), "https://github.com/"), set_args(k.as_str(), "git://github.com/")];
    assert(plan_views(p@) =~= route_mirror_plan(mirror@));
    p
}

/// Appends the commands of `tail` to `head`.
pub fn append_plan(head: &mut Vec<Vec<String>>, tail: Vec<Vec<String>>)
    ensures
        plan_views(final(head)@) == plan_views(old(head)@) + plan_views(tail@),
{
    let mut tail = tail;
    let ghost t = tail@;
    head.append(&mut tail);
    assert(plan_views(head@) =~= plan_views(old(head)@) + plan_views(t));
}

pub fn enable_mirror() -> (p: Vec<Vec<String>>)
    ensures
        plan_views(p@) == enable_mirror_plan(),
{
    let mut p = drop_mirrors();
    append_plan(&mut p, route_mirror(primary_mirror_url()));
    p
}

pub fn drop_proxy() -> (p: Vec<Vec<String>>)
    ensures
        plan_views(p@) == drop_proxy_plan(),
{
    let p = vec![unset_args("http.proxy"), unset_args("https.proxy")];
    assert(plan_views(p@) =~= drop_proxy_plan());
    p
}

pub fn route_proxy(addr: &str) -> (p: Vec<Vec<String>>)
    ensures
        plan_views(p@) == route_proxy_plan(addr@),
{
    let p = vec![set_args("http.proxy", addr), set_args("https.proxy", addr)];
    assert(plan_views(p@) =~= route_proxy_plan(addr@));
    p
}

pub fn reset() -> (p: Vec<Vec<String>>)
    ensures
        plan_views(p@) == reset_plan(),
{
    let mut p = drop_mirrors();
    append_plan(&mut p, drop_proxy());
    p
}

/// The plan of the proxy mode for the address the user gave: none when the
/// address is empty (the user cancelled), else routing through it.
pub fn proxy_setup(addr: &str) -> (p: Option<Vec<Vec<String>>>)
    ensures
        addr@.len() == 0 <==> p is None,
        p matches Some(q) ==> plan_views(q@) == route_proxy_plan(addr@),
{
    if addr.is_empty() {
        None
    } else {
        Some(route_proxy(addr))
    }
}

/// What the user picked in the mirror menu.
#[derive(PartialEq, Eq, Structural, Clone, Copy, Debug)]
pub enum MirrorChoice {
    Enable,
    Disable,
    ShowStatus,
    Back,
}

/// The entry at `selection` of the mirror menu (enable, disable, show
/// status, back); anything past the third is going back.
pub open spec fn mirror_choice_at(selection: int) -> MirrorChoice {
    if selection == 0 {
        MirrorChoice::Enable
    } else if selection == 1 {
        MirrorChoice::Disable
    } else if selection == 2 {
        MirrorChoice::ShowStatus
    } else {
        MirrorChoice::Back
    }
}

pub fn mirror_choice(selection: usize) -> (c: MirrorChoice)
    ensures
        c == mirror_choice_at(selection as int),
{
    match selection {
        0 => MirrorChoice::Enable,
        1 => MirrorChoice::Disable,
        2 => MirrorChoice::ShowStatus,
        _ => MirrorChoice::Back,
    }
}

/// The configuration commands a mirror menu choice runs.
pub open spec fn mirror_choice_plan(c: MirrorChoice) -> Seq<Seq<Seq<char>>> {
    match c {
        MirrorChoice::Enable => enable_mirror_plan(),
        MirrorChoice::Disable => drop_mirrors_plan(),
        _ => seq![],
    }
}

pub fn mirror_choice_commands(c: MirrorChoice) -> (p: Vec<Vec<String>>)
    ensures
        plan_views(p@) == mirror_choice_plan(c),
{
    match c {
        MirrorChoice::Enable => enable_mirror(),
        MirrorChoice::Disable => drop_mirrors(),
        _ => {
            let p: Vec<Vec<String>> = Vec::new();
            assert(plan_views(p@) =~= seq![]);
            p
        },
    }
}

/// Every assignment `config --global <key> <value>` in `plan` (an argument
/// list of that shape whose key is not the `--unset` option) is removed by
/// an unset of the same key in `reset`.
pub open spec fn undoes(reset: Seq<Seq<Seq<char>>>, plan: Seq<Seq<Seq<char>>>) -> bool {
    forall|i: int, key: Seq<char>, value: Seq<char>|
        0 <= i < plan.len() && #[trigger] plan[i] == #[trigger] set_command(key, value) && key
            != "--unset"@ ==> reset.contains(unset_command(key))
}

/// An assignment determines its key and value.
pub proof fn lemma_set_command_parts(k1: Seq<char>, v1: Seq<char>, k2: Seq<char>, v2: Seq<char>)
    requires
        set_command(k1, v1) == set_command(k2, v2),
    ensures
        k1 == k2,
        v1 == v2,
{
    assert(set_command(k1, v1)[2] == k1);
    assert(set_command(k2, v2)[2] == k2);
    assert(set_command(k1, v1)[3] == v1);
    assert(set_command(k2, v2)[3] == v2);
}

/// An unset is no assignment of a key other than `--unset`.
pub proof fn lemma_unset_is_no_assignment(k: Seq<char>, key: Seq<char>, value: Seq<char>)
    requires
        unset_command(k) == set_command(key, value),
    ensures
        key == "--unset"@,
{
    assert(unset_command(k)[2] == "--unset"@);
    assert(set_command(key, value)[2] == key);
}

/// Disabling the mirror removes every setting that enabling it makes.
pub proof fn lemma_disable_undoes_enable()
    ensures
        undoes(drop_mirrors_plan(), enable_mirror_plan()),
{
    let p = enable_mirror_plan();
    let k = insteadof_key(primary_mirror());
    assert(drop_mirrors_plan()[0] == unset_command(k));
    assert forall|i: int, key: Seq<char>, value: Seq<char>|
        0 <= i < p.len() && #[trigger] p[i] == #[trigger] set_command(key, value) && key
            != "--unset"@ implies drop_mirrors_plan().contains(unset_command(key)) by {
        if i == 0 {
            lemma_unset_is_no_assignment(k, key, value);
        } else if i == 1 {
            lemma_unset_is_no_assignment(insteadof_key(backup_mirror()), key, value);
        } else if i == 2 {
            lemma_set_command_parts(k, "https://github.com/"@, key, value);
        } else {
            lemma_set_command_parts(k, "git://github.com/"@, key, value);
        }
    }
}

/// Resetting removes every setting of the proxy mode, whatever the address.
pub proof fn lemma_reset_undoes_proxy(addr: Seq<char>)
    ensures
        undoes(reset_plan(), route_proxy_plan(addr)),
{
    let p = route_proxy_plan(addr);
    assert(reset_plan()[2] == unset_command(http_proxy_key()));
    assert(reset_plan()[3] == unset_command(https_proxy_key()));
    assert forall|i: int, key: Seq<char>, value: Seq<char>|
        0 <= i < p.len() && #[trigger] p[i] == #[trigger] set_command(key, value) && key
            != "--unset"@ implies reset_plan().contains(unset_command(key)) by {
        if i == 0 {
            lemma_set_command_parts(http_proxy_key(), addr, key, value);
        } else {
            lemma_set_command_parts(https_proxy_key(), addr, key, value);
        }
    }
}

/// Resetting removes every setting that enabling the mirror makes.
pub proof fn lemma_reset_undoes_enable()
    ensures
        undoes(reset_plan(), enable_mirror_plan()),
{
    lemma_disable_undoes_enable();
    let p = enable_mirror_plan();
    assert forall|i: int, key: Seq<char>, value: Seq<char>|
        0 <= i < p.len() && #[trigger] p[i] == #[trigger] set_command(key, value) && key
            != "--unset"@ implies reset_plan().contains(unset_command(key)) by {
        let j = choose|j: int| 0 <= j < drop_mirrors_plan().len() && drop_mirrors_plan()[j] == unset_command(key);
        assert(reset_plan()[j] == drop_mirrors_plan()[j]);
    }
}

} // verus!
