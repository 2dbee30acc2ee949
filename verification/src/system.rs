//! Paths on the local machine: the hosts backups and the SSH keys. The home
//! directory and the clock come from outside crates, through the two trusted
//! wrappers of this module.

use vstd::prelude::*;
use crate::text::{has_prefix, lex_lt, lemma_lex_lt_irreflexive, lemma_lex_lt_total, lemma_lex_lt_transitive, starts_with, text_lt, views};
use crate::command::owned;

verus! {

// ---------------------------------------------------------------------------
// Trusted wrappers
// ---------------------------------------------------------------------------

/// An ASCII decimal digit.
pub open spec fn is_digit(c: char) -> bool {
    '0' <= c <= '9'
}

/// What `%Y%m%d%H%M%S` renders for any date and time chrono holds: the
/// year as at least four digits (with a sign in front when it lies outside
/// 0..=9999), then month, day, hour, minute and second as two digits each.
/// So at least fourteen characters, all digits except a first one that may
/// be a sign.
pub open spec fn is_time_stamp(s: Seq<char>) -> bool {
    &&& s.len() >= 14
    &&& is_digit(s[0]) || s[0] == '+' || s[0] == '-'
    &&& forall|k: int| 1 <= k < s.len() ==> is_digit(#[trigger] s[k])
}

/// `chrono::Utc::now().format(pattern)`, rendered to a string. Rendering
/// fails, and `to_string` panics, on a pattern chrono cannot read, so only
/// the one pattern the library uses is accepted: `%Y%m%d%H%M%S` (year,
/// month, day, hour, minute, second, without separators). Which time it
/// shows depends on the clock and is not stated; its shape is, as chrono's
/// numeric formatting gives it for every date: zero-padded fields, the year
/// with a sign only outside 0..=9999. (`Utc::now` panics when the clock
/// reads before 1970; chrono offers no fallible form of it.)
#[verifier::external_body]
fn utc_now_formatted(pattern: &str) -> (r: String)
    requires
        pattern@ == "%Y%m%d%H%M%S"@,
    ensures
        is_time_stamp(r@),
{
    chrono::Utc::now().format(pattern).to_string()
}

/// `shellexpand::tilde(input)`: a leading `~` followed by nothing or by `/`
/// is replaced by the home directory when that is known and valid Unicode;
/// any other input comes back unchanged. What the home directory is depends
/// on the environment, so only this is stated: the input is unchanged when
/// it does not start with `~`, and otherwise the result is the input or ends
/// with what followed the `~`.
#[verifier::external_body]
fn expand_tilde(input: &str) -> (r: String)
    ensures
        !(input@.len() > 0 && input@[0] == '~') ==> r@ == input@,
        r@ == input@ || (input@.len() > 0 && r@.len() >= input@.len() - 1 && r@.skip(
            r@.len() - (input@.len() - 1),
        ) == input@.drop_first()),
{
    shellexpand::tilde(input).into_owned()
}

// ---------------------------------------------------------------------------
// Hosts backups
// ---------------------------------------------------------------------------

/// Where the hosts file is backed up to at the time `stamp`.
pub open spec fn backup_path_text(stamp: Seq<char>) -> Seq<char> {
    "/etc/hosts.backup."@ + stamp
}

pub fn backup_path(stamp: &str) -> (p: String)
    ensures
        p@ == backup_path_text(stamp@),
{
    let mut p = owned("/etc/hosts.backup.");
    p.append(stamp);
    p
}

/// The backup path for the current time.
pub fn new_backup_path() -> (p: String)
    ensures
        exists|stamp: Seq<char>| is_time_stamp(stamp) && p@ == backup_path_text(stamp),
{
    let stamp = utc_now_formatted("%Y%m%d%H%M%S");
    backup_path(stamp.as_str())
}

/// A file of `/etc` that restoring takes for a hosts backup.
pub open spec fn is_backup_name(name: Seq<char>) -> bool {
    has_prefix(name, "hosts.bak."@)
}

/// The paths of the backups among the names of the files in `/etc`, in
/// their order.
pub open spec fn backup_paths_in(names: Seq<Seq<char>>) -> Seq<Seq<char>>
    decreases names.len(),
{
    if names.len() == 0 {
        seq![]
    } else if is_backup_name(names.last()) {
        backup_paths_in(names.drop_last()).push("/etc/"@ + names.last())
    } else {
        backup_paths_in(names.drop_last())
    }
}

pub fn backup_paths(names: &Vec<String>) -> (v: Vec<String>)
    ensures
        views(v@) == backup_paths_in(views(names@)),
{
    let ghost all = views(names@);
    let mut v: Vec<String> = Vec::new();
    let mut i: usize = 0;
    while i < names.len()
        invariant
            i <= names@.len(),
            all == views(names@),
            views(v@) == backup_paths_in(all.take(i as int)),
        decreases names@.len() - i,
    {
        assert(all.take(i + 1).drop_last() =~= all.take(i as int));
        let name = names[i].as_str();
        if starts_with(name, "hosts.bak.") {
            let mut p = owned("/etc/");
            p.append(name);
            let ghost before = v@;
            v.push(p);
            assert(views(v@) =~= views(before).push(p@));
        }
        i = i + 1;
    }
    assert(all.take(names@.len() as int) =~= all);
    v
}

/// `latest` is one of `paths` and none of them sorts after it.
pub open spec fn is_latest(paths: Seq<Seq<char>>, latest: Seq<char>) -> bool {
    paths.contains(latest) && forall|k: int| 0 <= k < paths.len() ==> !lex_lt(latest, #[trigger] paths[k])
}

/// The path that sorts last: the newest backup.
pub fn latest_path(paths: &Vec<String>) -> (r: Option<String>)
    ensures
        r is None <==> paths@.len() == 0,
        r matches Some(p) ==> is_latest(views(paths@), p@),
{
    if paths.len() == 0 {
        return None;
    }
    let ghost all = views(paths@);
    let mut best: usize = 0;
    let mut i: usize = 1;
    proof {
        lemma_lex_lt_irreflexive(all[0]);
    }
    while i < paths.len()
        invariant
            1 <= i <= paths@.len(),
            all == views(paths@),
            best < i,
            forall|k: int| 0 <= k < i ==> !lex_lt(all[best as int], #[trigger] all[k]),
        decreases paths@.len() - i,
    {
        if text_lt(paths[best].as_str(), paths[i].as_str()) {
            let ghost old_best = all[best as int];
            assert forall|k: int| 0 <= k < i + 1 implies !lex_lt(all[i as int], #[trigger] all[k]) by {
                if k < i {
                    if lex_lt(all[i as int], all[k]) {
                        lemma_lex_lt_transitive(old_best, all[i as int], all[k]);
                    }
                } else {
                    lemma_lex_lt_irreflexive(all[i as int]);
                }
            }
            best = i;
        }
        i = i + 1;
    }
    assert(all[best as int] == paths@[best as int]@);
    Some(paths[best].clone())
}

/// The newest hosts backup among the names of the files in `/etc`.
pub fn latest_backup(names: &Vec<String>) -> (r: Option<String>)
    ensures
        r is None <==> backup_paths_in(views(names@)).len() == 0,
        r matches Some(p) ==> is_latest(backup_paths_in(views(names@)), p@),
{
    let paths = backup_paths(names);
    latest_path(&paths)
}

/// Of the paths, only one is latest: the answer does not depend on how ties
/// would be broken.
pub proof fn lemma_latest_unique(paths: Seq<Seq<char>>, a: Seq<char>, b: Seq<char>)
    requires
        is_latest(paths, a),
        is_latest(paths, b),
    ensures
        a == b,
{
    let i = choose|i: int| 0 <= i < paths.len() && paths[i] == a;
    let j = choose|j: int| 0 <= j < paths.len() && paths[j] == b;
    if a != b {
        lemma_lex_lt_total(a, b);
        assert(!lex_lt(a, paths[j]));
        assert(!lex_lt(b, paths[i]));
    }
}

// ---------------------------------------------------------------------------
// SSH keys
// ---------------------------------------------------------------------------

/// The SSH key files the tool looks for.
pub struct SshKeyPaths {
    pub ed25519: String,
    pub rsa: String,
    pub ed25519_pub: String,
    pub rsa_pub: String,
}

/// The key files under the home directory `home`.
pub open spec fn key_paths_ok(k: &SshKeyPaths, home: Seq<char>) -> bool {
    &&& k.ed25519@ == home + "/.ssh/id_ed25519"@
    &&& k.rsa@ == home + "/.ssh/id_rsa"@
    &&& k.ed25519_pub@ == home + "/.ssh/id_ed25519.pub"@
    &&& k.rsa_pub@ == home + "/.ssh/id_rsa.pub"@
}

fn joined(home: &str, tail: &str) -> (s: String)
    ensures
        s@ == home@ + tail@,
{
    let mut s = owned(home);
    s.append(tail);
    s
}

pub fn ssh_key_paths(home: &str) -> (k: SshKeyPaths)
    ensures
        key_paths_ok(&k, home@),
{
    SshKeyPaths {
        ed25519: joined(home, "/.ssh/id_ed25519"),
        rsa: joined(home, "/.ssh/id_rsa"),
        ed25519_pub: joined(home, "/.ssh/id_ed25519.pub"),
        rsa_pub: joined(home, "/.ssh/id_rsa.pub"),
    }
}

/// The key files under the home directory of the user running the tool
/// (`~` expanded).
pub fn local_ssh_key_paths() -> (k: SshKeyPaths)
    ensures
        exists|home: Seq<char>| key_paths_ok(&k, home),
{
    let home = expand_tilde("~");
    ssh_key_paths(home.as_str())
}

/// The kind of SSH key found.
#[derive(PartialEq, Eq, Structural, Clone, Copy, Debug)]
pub enum SshKey {
    Ed25519,
    Rsa,
}

/// The key in use: Ed25519 when its file exists, else RSA when its file
/// exists, else none.
pub open spec fn key_in_use(ed25519_exists: bool, rsa_exists: bool) -> Option<SshKey> {
    if ed25519_exists {
        Some(SshKey::Ed25519)
    } else if rsa_exists {
        Some(SshKey::Rsa)
    } else {
        None
    }
}

pub fn present_ssh_key(ed25519_exists: bool, rsa_exists: bool) -> (k: Option<SshKey>)
    ensures
        k == key_in_use(ed25519_exists, rsa_exists),
{
    if ed25519_exists {
        Some(SshKey::Ed25519)
    } else if rsa_exists {
        Some(SshKey::Rsa)
    } else {
        None
    }
}

/// The Ed25519 key is preferred: whenever its file exists it is the key in
/// use, whatever the RSA file; the RSA key is used only when its file exists
/// and the Ed25519 one does not; and no key is found only when neither file
/// exists.
pub proof fn lemma_key_preference(ed25519_exists: bool, rsa_exists: bool)
    ensures
        ed25519_exists ==> key_in_use(ed25519_exists, rsa_exists) == Some(SshKey::Ed25519),
        key_in_use(ed25519_exists, rsa_exists) == Some(SshKey::Rsa) <==> (!ed25519_exists
            && rsa_exists),
        key_in_use(ed25519_exists, rsa_exists) is None <==> (!ed25519_exists && !rsa_exists),
{
}

/// The SSH connection test is run when either public key file exists.
pub open spec fn ssh_test_wanted(ed25519_pub_exists: bool, rsa_pub_exists: bool) -> bool {
    ed25519_pub_exists || rsa_pub_exists
}

pub fn should_test_ssh(ed25519_pub_exists: bool, rsa_pub_exists: bool) -> (b: bool)
    ensures
        b == ssh_test_wanted(ed25519_pub_exists, rsa_pub_exists),
{
    ed25519_pub_exists || rsa_pub_exists
}

} // verus!
