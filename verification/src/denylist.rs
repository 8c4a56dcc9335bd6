//! Denylist matcher: case-insensitive substring matching of a command
//! against a built-in pattern set plus caller-supplied extensions.
//!
//! Matching is deliberately coarse (plain substring containment, ASCII case
//! folding, no shell parsing); false positives are acceptable by design.

use vstd::prelude::*;

use crate::text::{contains_chars, is_substring_of, lower_seq, to_lower_chars};

verus! {

/// The built-in dangerous command patterns.
pub open spec fn default_patterns() -> Seq<Seq<char>> {
    seq![
        // Destructive file operations
        "rm -rf /"@,
        "rm -rf /*"@,
        "rm -rf ~"@,
        "rm -rf *"@,
        "rm -fr /"@,
        "rm --no-preserve-root"@,
        "> /dev/sda"@,
        "> /dev/hda"@,
        "dd if=/dev/zero"@,
        "dd if=/dev/random"@,
        "mkfs"@,
        "mkfs.ext"@,
        "format c:"@,
        // System manipulation
        "shutdown"@,
        "reboot"@,
        "halt"@,
        "poweroff"@,
        "init 0"@,
        "init 6"@,
        "systemctl poweroff"@,
        "systemctl reboot"@,
        "systemctl halt"@,
        // Fork bombs and resource exhaustion
        ":(){:|:&};:"@,
        ":(){ :|:& };:"@,
        "fork while fork"@,
        // Permission changes
        "chmod 777 /"@,
        "chmod -R 777 /"@,
        "chown -R root"@,
        "chown root /"@,
        // Package manager dangers
        "apt-get remove --purge"@,
        "apt remove --purge"@,
        "yum remove"@,
        "dnf remove"@,
        "pacman -R"@,
        "brew uninstall --force"@,
        // Kernel manipulation
        "modprobe -r"@,
        "rmmod"@,
        "insmod"@,
        // Network attacks
        "tcpdump -w /dev/null"@,
        "wget http"@,
        "curl http"@,
        // Cron/service manipulation
        "crontab -r"@,
        // Moving system directories
        "mv /etc"@,
        "mv /usr"@,
        "mv /var"@,
        "mv /bin"@,
        "mv /sbin"@,
        "mv /lib"@,
    ]
}

/// The built-in patterns as string slices, in the order of `default_patterns`.
#[verifier::rlimit(50)]
pub fn default_denylist() -> (r: Vec<&'static str>)
    ensures
        r@.map_values(|p: &str| p@) == default_patterns(),
{
    let mut v: Vec<&'static str> = Vec::new();
    v.push("rm -rf /");
    v.push("rm -rf /*");
    v.push("rm -rf ~");
    v.push("rm -rf *");
    v.push("rm -fr /");
    v.push("rm --no-preserve-root");
    v.push("> /dev/sda");
    v.push("> /dev/hda");
    v.push("dd if=/dev/zero");
    v.push("dd if=/dev/random");
    v.push("mkfs");
    v.push("mkfs.ext");
    v.push("format c:");
    v.push("shutdown");
    v.push("reboot");
    v.push("halt");
    v.push("poweroff");
    v.push("init 0");
    v.push("init 6");
    v.push("systemctl poweroff");
    v.push("systemctl reboot");
    v.push("systemctl halt");
    v.push(":(){:|:&};:");
    v.push(":(){ :|:& };:");
    v.push("fork while fork");
    v.push("chmod 777 /");
    v.push("chmod -R 777 /");
    v.push("chown -R root");
    v.push("chown root /");
    v.push("apt-get remove --purge");
    v.push("apt remove --purge");
    v.push("yum remove");
    v.push("dnf remove");
    v.push("pacman -R");
    v.push("brew uninstall --force");
    v.push("modprobe -r");
    v.push("rmmod");
    v.push("insmod");
    v.push("tcpdump -w /dev/null");
    v.push("wget http");
    v.push("curl http");
    v.push("crontab -r");
    v.push("mv /etc");
    v.push("mv /usr");
    v.push("mv /var");
    v.push("mv /bin");
    v.push("mv /sbin");
    v.push("mv /lib");
    assert(v@.map_values(|p: &str| p@) =~= default_patterns());
    v
}

/// The command matches a pattern when the folded pattern occurs in the
/// folded command.
pub open spec fn pattern_matches(command: Seq<char>, pattern: Seq<char>) -> bool {
    is_substring_of(lower_seq(pattern), lower_seq(command))
}

/// Some built-in pattern matches the command.
pub open spec fn denied_by_default(command: Seq<char>) -> bool {
    exists|k: int|
        0 <= k < default_patterns().len() && pattern_matches(command, #[trigger] default_patterns()[k])
}

/// Some non-empty caller-supplied pattern matches the command.
pub open spec fn denied_by_custom(command: Seq<char>, custom: Seq<Seq<char>>) -> bool {
    exists|k: int|
        0 <= k < custom.len() && (#[trigger] custom[k]).len() > 0 && pattern_matches(command, custom[k])
}

/// The command is refused by the denylist.
pub open spec fn spec_is_denied(command: Seq<char>, custom: Seq<Seq<char>>) -> bool {
    denied_by_default(command) || denied_by_custom(command, custom)
}

/// The first matching pattern of `patterns` at index `k` or later; when
/// `skip_empty` holds, empty patterns are passed over.
pub open spec fn first_match_from(
    command: Seq<char>,
    patterns: Seq<Seq<char>>,
    skip_empty: bool,
    k: int,
) -> Option<Seq<char>>
    decreases patterns.len() - k,
    when 0 <= k <= patterns.len()
{
    if k == patterns.len() {
        None
    } else if (!skip_empty || patterns[k].len() > 0) && pattern_matches(command, patterns[k]) {
        Some(patterns[k])
    } else {
        first_match_from(command, patterns, skip_empty, k + 1)
    }
}

/// The pattern that `find_matched_pattern` reports: the first matching
/// built-in pattern, else the first matching non-empty custom pattern.
pub open spec fn spec_find_matched(command: Seq<char>, custom: Seq<Seq<char>>) -> Option<
    Seq<char>,
> {
    match first_match_from(command, default_patterns(), false, 0) {
        Some(p) => Some(p),
        None => first_match_from(command, custom, true, 0),
    }
}

proof fn lemma_first_match_exists(
    command: Seq<char>,
    patterns: Seq<Seq<char>>,
    skip_empty: bool,
    k: int,
)
    requires
        0 <= k <= patterns.len(),
    ensures
        first_match_from(command, patterns, skip_empty, k) is Some <==> exists|j: int|
            k <= j < patterns.len() && (!skip_empty || (#[trigger] patterns[j]).len() > 0)
                && pattern_matches(command, patterns[j]),
    decreases patterns.len() - k,
{
    if k < patterns.len() {
        lemma_first_match_exists(command, patterns, skip_empty, k + 1);
    }
}

/// A command is denied exactly when a matched pattern can be reported.
///
/// Law: `spec_is_denied` holds if and only if `spec_find_matched` yields a
/// pattern, so `is_denied` and `find_matched_pattern` always agree.
pub proof fn lemma_denied_iff_matched(command: Seq<char>, custom: Seq<Seq<char>>)
    ensures
        spec_is_denied(command, custom) <==> spec_find_matched(command, custom) is Some,
{
    lemma_first_match_exists(command, default_patterns(), false, 0);
    lemma_first_match_exists(command, custom, true, 0);
}

/// Check if a command matches any pattern in the denylist.
pub fn is_denied(command: &str, custom_patterns: &[String]) -> (r: bool)
    ensures
        r == spec_is_denied(command@, custom_patterns.deep_view()),
{
    let ghost custom = custom_patterns.deep_view();
    let cmd = to_lower_chars(command);
    let defaults = default_denylist();
    let n = defaults.len();
    let mut k: usize = 0;
    while k < n
        invariant
            k <= n,
            n == default_patterns().len(),
            defaults@.map_values(|p: &str| p@) == default_patterns(),
            cmd@ == lower_seq(command@),
            forall|j: int| 0 <= j < k ==> !pattern_matches(command@, #[trigger] default_patterns()[j]),
        decreases n - k,
    {
        let pat = to_lower_chars(defaults[k]);
        assert(pat@ == lower_seq(default_patterns()[k as int]));
        if contains_chars(&cmd, &pat) {
            assert(pattern_matches(command@, default_patterns()[k as int]));
            return true;
        }
        k = k + 1;
    }
    let m = custom_patterns.len();
    let mut k: usize = 0;
    while k < m
        invariant
            k <= m,
            m == custom.len(),
            custom == custom_patterns.deep_view(),
            cmd@ == lower_seq(command@),
            !denied_by_default(command@),
            forall|j: int|
                0 <= j < k ==> !((#[trigger] custom[j]).len() > 0 && pattern_matches(
                    command@,
                    custom[j],
                )),
        decreases m - k,
    {
        let pat = to_lower_chars(custom_patterns[k].as_str());
        assert(custom[k as int] == custom_patterns@[k as int]@);
        assert(pat@ == lower_seq(custom[k as int]));
        if pat.len() > 0 && contains_chars(&cmd, &pat) {
            assert(custom[k as int].len() > 0 && pattern_matches(command@, custom[k as int]));
            return true;
        }
        k = k + 1;
    }
    false
}

/// Get the matched pattern for reporting.
pub fn find_matched_pattern(command: &str, custom_patterns: &[String]) -> (r: Option<String>)
    ensures
        match r {
            Some(p) => spec_find_matched(command@, custom_patterns.deep_view()) == Some(p@),
            None => spec_find_matched(command@, custom_patterns.deep_view()) is None,
        },
{
    let ghost custom = custom_patterns.deep_view();
    let cmd = to_lower_chars(command);
    let defaults = default_denylist();
    let n = defaults.len();
    let mut k: usize = 0;
    while k < n
        invariant
            k <= n,
            n == default_patterns().len(),
            defaults@.map_values(|p: &str| p@) == default_patterns(),
            cmd@ == lower_seq(command@),
            first_match_from(command@, default_patterns(), false, 0) == first_match_from(
                command@,
                default_patterns(),
                false,
                k as int,
            ),
        decreases n - k,
    {
        let pat = to_lower_chars(defaults[k]);
        assert(pat@ == lower_seq(default_patterns()[k as int]));
        if contains_chars(&cmd, &pat) {
            assert(pattern_matches(command@, default_patterns()[k as int]));
            return Some(String::from_str(defaults[k]));
        }
        k = k + 1;
    }
    let m = custom_patterns.len();
    let mut k: usize = 0;
    while k < m
        invariant
            k <= m,
            m == custom.len(),
            custom == custom_patterns.deep_view(),
            cmd@ == lower_seq(command@),
            first_match_from(command@, default_patterns(), false, 0) is None,
            first_match_from(command@, custom, true, 0) == first_match_from(
                command@,
                custom,
                true,
                k as int,
            ),
        decreases m - k,
    {
        let pat = to_lower_chars(custom_patterns[k].as_str());
        assert(custom[k as int] == custom_patterns@[k as int]@);
        assert(pat@ == lower_seq(custom[k as int]));
        if pat.len() > 0 && contains_chars(&cmd, &pat) {
            assert(custom[k as int].len() > 0 && pattern_matches(command@, custom[k as int]));
            return Some(custom_patterns[k].clone());
        }
        k = k + 1;
    }
    None
}

} // verus!
