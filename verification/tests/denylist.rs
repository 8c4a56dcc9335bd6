use enhanced_terminal::denylist::{default_denylist, find_matched_pattern, is_denied};

#[test]
fn test_dangerous_commands() {
    assert!(is_denied("rm -rf /", &[]));
    assert!(is_denied("sudo rm -rf /", &[]));
    assert!(is_denied("chmod 777 /etc", &[]));
    assert!(is_denied("mkfs /dev/sda", &[]));
    assert!(is_denied("dd if=/dev/zero of=/dev/sda", &[]));
    assert!(is_denied(":(){:|:&};:", &[]));
}

#[test]
fn test_safe_commands() {
    assert!(!is_denied("ls -la", &[]));
    assert!(!is_denied("cat /etc/hosts", &[]));
    assert!(!is_denied("grep pattern file.txt", &[]));
    assert!(!is_denied("rm file.txt", &[]));
    assert!(!is_denied("chmod 755 script.sh", &[]));
}

#[test]
fn test_custom_patterns() {
    let custom = vec!["docker rm".to_string(), "kubectl delete".to_string()];
    assert!(is_denied("docker rm -f container", &custom));
    assert!(is_denied("kubectl delete pod", &custom));
    assert!(!is_denied("docker ps", &custom));
}

#[test]
fn test_case_insensitive() {
    assert!(is_denied("RM -RF /", &[]));
    assert!(is_denied("SHUTDOWN", &[]));
    assert!(is_denied("Chmod 777 /", &[]));
}

#[test]
fn matched_pattern_reports_first_default_hit() {
    assert_eq!(
        find_matched_pattern("sudo rm -rf / now", &[]),
        Some("rm -rf /".to_string())
    );
    assert_eq!(find_matched_pattern("ls -la", &[]), None);
}

#[test]
fn matched_pattern_reports_custom_hit_in_original_case() {
    let custom = vec!["Docker RM".to_string()];
    assert_eq!(
        find_matched_pattern("docker rm -f c1", &custom),
        Some("Docker RM".to_string())
    );
}

#[test]
fn empty_custom_patterns_are_ignored() {
    let custom = vec![String::new()];
    assert!(!is_denied("anything at all", &custom));
    assert_eq!(find_matched_pattern("anything at all", &custom), None);
}

#[test]
fn default_list_holds_the_known_patterns() {
    let d = default_denylist();
    assert_eq!(d.len(), 48);
    assert_eq!(d[0], "rm -rf /");
    assert!(d.contains(&"shutdown"));
    assert!(d.contains(&"mv /lib"));
}

#[test]
fn denied_iff_pattern_found() {
    let custom = vec!["frobnicate".to_string()];
    for cmd in ["echo ok", "frobnicate now", "rm -rf /", "wget http://x"] {
        assert_eq!(
            is_denied(cmd, &custom),
            find_matched_pattern(cmd, &custom).is_some()
        );
    }
}
