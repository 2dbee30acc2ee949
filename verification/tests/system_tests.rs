use jarvis::system::{
    backup_path, backup_paths, latest_backup, latest_path, local_ssh_key_paths, new_backup_path,
    present_ssh_key, should_test_ssh, ssh_key_paths, SshKey,
};

fn strings(v: &[&str]) -> Vec<String> {
    v.iter().map(|s| s.to_string()).collect()
}

#[test]
fn backup_path_text() {
    assert_eq!(backup_path("20240101120000"), "/etc/hosts.backup.20240101120000");
}

#[test]
fn new_backup_path_has_a_timestamp() {
    let p = new_backup_path();
    let stamp = p.strip_prefix("/etc/hosts.backup.").unwrap();
    assert_eq!(stamp.len(), 14);
    assert!(stamp.chars().all(|c| c.is_ascii_digit()));
}

#[test]
fn backups_found_and_newest_chosen() {
    let names = strings(&["hosts", "hosts.bak", "hosts.bak.2023", "passwd", "hosts.bak.2024", "hosts.backup.2025"]);
    assert_eq!(backup_paths(&names), strings(&["/etc/hosts.bak.2023", "/etc/hosts.bak.2024"]));
    assert_eq!(latest_backup(&names), Some("/etc/hosts.bak.2024".to_string()));
    assert_eq!(latest_backup(&strings(&["hosts", "hosts.backup.1"])), None);
}

#[test]
fn latest_path_is_the_last_in_sorted_order() {
    let paths = strings(&["b", "ab", "b", "a", "ba"]);
    let mut sorted = paths.clone();
    sorted.sort();
    assert_eq!(latest_path(&paths), sorted.last().cloned());
    assert_eq!(latest_path(&Vec::new()), None);
}

#[test]
fn ssh_paths_under_home() {
    let k = ssh_key_paths("/home/u");
    assert_eq!(k.ed25519, "/home/u/.ssh/id_ed25519");
    assert_eq!(k.rsa, "/home/u/.ssh/id_rsa");
    assert_eq!(k.ed25519_pub, "/home/u/.ssh/id_ed25519.pub");
    assert_eq!(k.rsa_pub, "/home/u/.ssh/id_rsa.pub");
}

#[test]
fn local_ssh_paths_expand_the_home_directory() {
    let k = local_ssh_key_paths();
    assert!(k.ed25519.ends_with("/.ssh/id_ed25519"));
    assert!(!k.ed25519.starts_with('~'));
}

#[test]
fn key_preference() {
    assert_eq!(present_ssh_key(true, true), Some(SshKey::Ed25519));
    assert_eq!(present_ssh_key(false, true), Some(SshKey::Rsa));
    assert_eq!(present_ssh_key(false, false), None);
}

#[test]
fn ssh_test_when_any_public_key_exists() {
    assert!(should_test_ssh(true, false));
    assert!(should_test_ssh(false, true));
    assert!(should_test_ssh(true, true));
    assert!(!should_test_ssh(false, false));
}
