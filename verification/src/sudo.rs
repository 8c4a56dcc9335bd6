//! Cooperative credential keep-alive helpers.
//!
//! The subprocess invocations (credential probes, the interactive refresh)
//! run in the application layer; this module holds the decisions around
//! them: recognizing commands that elevate privileges, the conservative
//! non-interactive rewrite of such commands, boolean and integer
//! environment-token parsing, the password-helper resolution order, the
//! session environment handed to the helper, and the diagnostic block
//! appended to results when priming was attempted.

use vstd::prelude::*;

use crate::text::{
    chars_eq_str, chars_occur_at, contains_chars, int_decimal, is_prefix_of,
    is_substring_of, lower_seq, replace_all, replace_all_spec, str_eq, str_to_chars, str_trim,
    to_lower_chars, trim_spec, i32_to_string,
};

verus! {

// ---------------------------------------------------------------------------
// Recognizing and rewriting sudo commands
// ---------------------------------------------------------------------------

/// The command invokes sudo: "sudo " occurs in it, or it starts with "sudo".
pub open spec fn spec_sudo_looks_used(command: Seq<char>) -> bool {
    is_substring_of("sudo "@, command) || is_prefix_of("sudo"@, command)
}

/// Does the command look like it uses sudo?
pub fn sudo_looks_used(command: &str) -> (r: bool)
    ensures
        r == spec_sudo_looks_used(command@),
{
    let cmd = str_to_chars(command);
    let pat = str_to_chars("sudo ");
    if contains_chars(&cmd, &pat) {
        return true;
    }
    let p2 = str_to_chars("sudo");
    if cmd.len() >= p2.len() && chars_occur_at(&cmd, &p2, 0) {
        assert(is_prefix_of("sudo"@, command@));
        true
    } else {
        assert(!is_prefix_of("sudo"@, command@));
        false
    }
}

/// The non-interactive rewrite: "sudo " at the start of the command, and
/// after the common separators, becomes "sudo -n ".  A conservative string
/// substitution, not a shell parser; documented as best-effort.
pub open spec fn wrap_sudo_spec(command: Seq<char>) -> Seq<char> {
    let s0 = if is_prefix_of("sudo "@, command) {
        "sudo -n "@ + command.subrange("sudo "@.len() as int, command.len() as int)
    } else {
        command
    };
    let s1 = replace_all_spec(s0, "&& sudo "@, "&& sudo -n "@);
    let s2 = replace_all_spec(s1, "|| sudo "@, "|| sudo -n "@);
    let s3 = replace_all_spec(s2, "; sudo "@, "; sudo -n "@);
    let s4 = replace_all_spec(s3, "\n sudo "@, "\n sudo -n "@);
    let s5 = replace_all_spec(s4, "\n\tsudo "@, "\n\tsudo -n "@);
    replace_all_spec(s5, "\tsudo "@, "\tsudo -n "@)
}

/// Rewrite every recognized sudo invocation so it never prompts.
pub fn wrap_sudo_command_for_server(command: &str) -> (r: String)
    ensures
        r@ == wrap_sudo_spec(command@),
{
    proof {
        reveal_strlit("sudo ");
        reveal_strlit("sudo -n ");
        reveal_strlit("&& sudo ");
        reveal_strlit("|| sudo ");
        reveal_strlit("; sudo ");
        reveal_strlit("\n sudo ");
        reveal_strlit("\n\tsudo ");
        reveal_strlit("\tsudo ");
        reveal_strlit("&& sudo -n ");
        reveal_strlit("|| sudo -n ");
        reveal_strlit("; sudo -n ");
        reveal_strlit("\n sudo -n ");
        reveal_strlit("\n\tsudo -n ");
        reveal_strlit("\tsudo -n ");
    }
    let n = command.unicode_len();
    let plen = "sudo ".unicode_len();
    let s0: String = if n >= plen && str_occurs_at_start(command, "sudo ", n, plen) {
        let mut t = String::from_str("sudo -n ");
        t.append(command.substring_char(plen, n));
        t
    } else {
        String::from_str(command)
    };
    let s1 = replace_all(s0.as_str(), "&& sudo ", "&& sudo -n ");
    let s2 = replace_all(s1.as_str(), "|| sudo ", "|| sudo -n ");
    let s3 = replace_all(s2.as_str(), "; sudo ", "; sudo -n ");
    let s4 = replace_all(s3.as_str(), "\n sudo ", "\n sudo -n ");
    let s5 = replace_all(s4.as_str(), "\n\tsudo ", "\n\tsudo -n ");
    replace_all(s5.as_str(), "\tsudo ", "\tsudo -n ")
}

/// Does `pat` occur at the start of `s`?
fn str_occurs_at_start(s: &str, pat: &str, s_len: usize, pat_len: usize) -> (r: bool)
    requires
        s_len == s@.len(),
        pat_len == pat@.len(),
        pat_len <= s_len,
    ensures
        r == is_prefix_of(pat@, s@),
{
    let r = crate::text::str_occurs_at(s, pat, 0, s_len, pat_len);
    assert(crate::text::occurs_at(s@, pat@, 0) == is_prefix_of(pat@, s@));
    r
}

// ---------------------------------------------------------------------------
// Environment token parsing
// ---------------------------------------------------------------------------

/// The value of a boolean environment token after trimming and folding:
/// 1/true/yes/on enable, 0/false/no/off disable, anything else (and the
/// empty string) keeps the default.
pub open spec fn spec_bool_token(folded: Seq<char>, default: bool) -> bool {
    if folded.len() == 0 {
        default
    } else if folded == "1"@ || folded == "true"@ || folded == "yes"@ || folded == "on"@ {
        true
    } else if folded == "0"@ || folded == "false"@ || folded == "no"@ || folded == "off"@ {
        false
    } else {
        default
    }
}

/// Parse a boolean environment value ("" stands for an unset variable).
pub fn bool_token_value(raw: &str, default: bool) -> (r: bool)
    ensures
        r == spec_bool_token(lower_seq(trim_spec(raw@)), default),
{
    let folded = to_lower_chars(str_trim(raw));
    if folded.len() == 0 {
        default
    } else if chars_eq_str(&folded, "1") || chars_eq_str(&folded, "true") || chars_eq_str(
        &folded,
        "yes",
    ) || chars_eq_str(&folded, "on") {
        true
    } else if chars_eq_str(&folded, "0") || chars_eq_str(&folded, "false") || chars_eq_str(
        &folded,
        "no",
    ) || chars_eq_str(&folded, "off") {
        false
    } else {
        default
    }
}

/// The keep-alive switches default to on; any other name defaults to off.
pub fn env_default_true(name: &str) -> (r: bool)
    ensures
        r == (name@ == "ENHANCED_TERMINAL_SUDO_KEEPALIVE"@ || name@
            == "ENHANCED_TERMINAL_SUDO_KEEPALIVE_PRIME"@ || name@ == "ENHANCED_TERMINAL_SUDO_WRAP"@),
{
    str_eq(name, "ENHANCED_TERMINAL_SUDO_KEEPALIVE") || str_eq(
        name,
        "ENHANCED_TERMINAL_SUDO_KEEPALIVE_PRIME",
    ) || str_eq(name, "ENHANCED_TERMINAL_SUDO_WRAP")
}

/// An ASCII decimal digit.
pub open spec fn is_ascii_digit(c: char) -> bool {
    48 <= c as u32 && c as u32 <= 57
}

/// All characters are decimal digits.
pub open spec fn all_digits(s: Seq<char>) -> bool {
    forall|i: int| 0 <= i < s.len() ==> is_ascii_digit(#[trigger] s[i])
}

/// The integer a digit string denotes.
pub open spec fn digits_value(s: Seq<char>) -> int
    decreases s.len(),
{
    if s.len() == 0 {
        0
    } else {
        digits_value(s.drop_last()) * 10 + (s.last() as u32 - 48)
    }
}

/// The digits of a number token: everything after an optional leading '+'.
pub open spec fn parse_tail(s: Seq<char>) -> Seq<char> {
    if s.len() > 0 && s[0] == '+' {
        s.drop_first()
    } else {
        s
    }
}

/// What `str::parse::<u64>` accepts: an optional '+', then at least one
/// digit, denoting a value that fits.
pub open spec fn spec_parse_u64(s: Seq<char>) -> Option<u64> {
    let t = parse_tail(s);
    if t.len() > 0 && all_digits(t) && digits_value(t) <= u64::MAX {
        Some(digits_value(t) as u64)
    } else {
        None
    }
}

proof fn lemma_digits_value_nonneg(t: Seq<char>)
    requires
        all_digits(t),
    ensures
        digits_value(t) >= 0,
    decreases t.len(),
{
    if t.len() > 0 {
        assert(all_digits(t.drop_last())) by {
            assert(forall|i: int|
                0 <= i < t.drop_last().len() ==> #[trigger] t.drop_last()[i] == t[i]);
        }
        lemma_digits_value_nonneg(t.drop_last());
    }
}

proof fn lemma_digits_prefix_le(t: Seq<char>, k: int)
    requires
        all_digits(t),
        0 <= k <= t.len(),
    ensures
        digits_value(t.subrange(0, k)) <= digits_value(t),
    decreases t.len() - k,
{
    if k == t.len() {
        assert(t.subrange(0, k) =~= t);
    } else {
        let a = t.subrange(0, k);
        let b = t.subrange(0, k + 1);
        assert(b.drop_last() =~= a);
        assert(all_digits(a)) by {
            assert(forall|i: int| 0 <= i < a.len() ==> #[trigger] a[i] == t[i]);
        }
        lemma_digits_value_nonneg(a);
        assert(digits_value(b) == digits_value(a) * 10 + (t[k] as u32 - 48));
        assert(digits_value(a) <= digits_value(b));
        lemma_digits_prefix_le(t, k + 1);
    }
}

/// Parse a decimal `u64`, as `str::parse` does.
pub fn parse_u64_value(s: &str) -> (r: Option<u64>)
    ensures
        r == spec_parse_u64(s@),
{
    let n = s.unicode_len();
    let start: usize = if n > 0 && s.get_char(0) == '+' {
        1
    } else {
        0
    };
    let ghost t = parse_tail(s@);
    proof {
        assert(t =~= s@.subrange(start as int, s@.len() as int));
    }
    if start == n {
        return None;
    }
    let mut acc: u64 = 0;
    let mut i: usize = start;
    while i < n
        invariant
            start <= i <= n,
            n == s@.len(),
            t == parse_tail(s@),
            t == s@.subrange(start as int, s@.len() as int),
            t.len() == n - start,
            all_digits(t.subrange(0, i - start)),
            acc == digits_value(t.subrange(0, i - start)),
        decreases n - i,
    {
        let ghost k = i - start;
        let c = s.get_char(i);
        let u = c as u32;
        proof {
            assert(t[k as int] == s@[i as int]);
        }
        if !(48 <= u && u <= 57) {
            proof {
                assert(!is_ascii_digit(t[k as int]));
                assert(!all_digits(t)) by {
                    if all_digits(t) {
                        assert(is_ascii_digit(t[k as int]));
                    }
                }
            }
            return None;
        }
        let d = (u - 48) as u64;
        proof {
            assert(t.subrange(0, k + 1).drop_last() =~= t.subrange(0, k as int));
            assert(t.subrange(0, k + 1).last() == t[k as int]);
            assert forall|j: int| 0 <= j < k + 1 implies is_ascii_digit(
                #[trigger] t.subrange(0, k + 1)[j],
            ) by {
                assert(t.subrange(0, k + 1)[j] == t[j]);
                if j < k {
                    assert(t.subrange(0, k as int)[j] == t[j]);
                    assert(is_ascii_digit(t.subrange(0, k as int)[j]));
                } else {
                    assert(is_ascii_digit(t[k as int]));
                }
            }
            assert(all_digits(t.subrange(0, k + 1)));
            assert(digits_value(t.subrange(0, k + 1)) == digits_value(t.subrange(0, k as int)) * 10
                + (t[k as int] as u32 - 48));
            assert(digits_value(t.subrange(0, k + 1)) == acc * 10 + d);
        }
        if acc > (u64::MAX - d) / 10 {
            proof {
                assert((u64::MAX - d) / 10 * 10 + ((u64::MAX - d) % 10) == (u64::MAX - d) as int);
                assert(acc * 10 + d > u64::MAX);
                assert(digits_value(t.subrange(0, k + 1)) > u64::MAX);
                if all_digits(t) {
                    lemma_digits_prefix_le(t, k + 1);
                    assert(digits_value(t) > u64::MAX);
                }
            }
            return None;
        }
        proof {
            assert(acc * 10 + d <= ((u64::MAX - d) / 10) * 10 + d);
            assert(((u64::MAX - d) / 10) * 10 <= (u64::MAX - d) as int);
        }
        acc = acc * 10 + d;
        i = i + 1;
    }
    proof {
        assert(t.subrange(0, (n - start) as int) =~= t);
    }
    Some(acc)
}

/// The refresh interval: the parsed override when present, else 300
/// seconds, floored at 30.
pub open spec fn spec_refresh_secs(raw: Option<Seq<char>>) -> u64 {
    let v = match raw {
        None => 300u64,
        Some(s) => match spec_parse_u64(trim_spec(s)) {
            Some(x) => x,
            None => 300u64,
        },
    };
    if v < 30 {
        30u64
    } else {
        v
    }
}

/// The periodic refresh interval, in seconds, from the raw environment
/// value (None when the variable is unset).
pub fn refresh_interval_secs(raw: Option<&str>) -> (r: u64)
    ensures
        r == spec_refresh_secs(match raw {
            Some(s) => Some(s@),
            None => None,
        }),
{
    let v = match raw {
        None => 300,
        Some(s) => match parse_u64_value(str_trim(s)) {
            Some(x) => x,
            None => 300,
        },
    };
    if v < 30 {
        30
    } else {
        v
    }
}

// ---------------------------------------------------------------------------
// Askpass resolution and session environment
// ---------------------------------------------------------------------------

/// A trimmed environment value, or None when unset or blank.
pub open spec fn norm_env(o: Option<Seq<char>>) -> Option<Seq<char>> {
    match o {
        Some(s) => if trim_spec(s).len() > 0 {
            Some(trim_spec(s))
        } else {
            None
        },
        None => None,
    }
}

/// The password helper the priming step uses: the server-level override,
/// then the server's SUDO_ASKPASS, then the request's, then the
/// conventional helper script under the home directory; a blank winner
/// means none.
pub open spec fn spec_resolve_askpass(
    server_override: Option<Seq<char>>,
    server_askpass: Option<Seq<char>>,
    request_askpass: Option<Seq<char>>,
    home: Seq<char>,
) -> Option<Seq<char>> {
    let candidate = match norm_env(server_override) {
        Some(v) => Some(v),
        None => match norm_env(server_askpass) {
            Some(v) => Some(v),
            None => match request_askpass {
                Some(v) => Some(v),
                None => Some(home + "/scripts/askpass-zenity.sh"@),
            },
        },
    };
    match candidate {
        Some(p) => if trim_spec(p).len() > 0 {
            Some(p)
        } else {
            None
        },
        None => None,
    }
}

/// Resolve the password helper path (see `spec_resolve_askpass`).  `home`
/// is the home directory, empty when unknown.
pub fn resolve_askpass(
    server_override: Option<&str>,
    server_askpass: Option<&str>,
    request_askpass: Option<&str>,
    home: &str,
) -> (r: Option<String>)
    ensures
        ({
            let spec_r = spec_resolve_askpass(
                match server_override {
                    Some(s) => Some(s@),
                    None => None,
                },
                match server_askpass {
                    Some(s) => Some(s@),
                    None => None,
                },
                match request_askpass {
                    Some(s) => Some(s@),
                    None => None,
                },
                home@,
            );
            match r {
                Some(p) => spec_r == Some(p@),
                None => spec_r is None,
            }
        }),
{
    let candidate: String = if let Some(s) = server_override_nonblank(server_override) {
        s
    } else if let Some(s) = server_override_nonblank(server_askpass) {
        s
    } else if let Some(s) = request_askpass {
        String::from_str(s)
    } else {
        let mut p = String::from_str(home);
        p.append("/scripts/askpass-zenity.sh");
        p
    };
    if str_trim(candidate.as_str()).unicode_len() > 0 {
        Some(candidate)
    } else {
        None
    }
}

/// The trimmed value when it is not blank.
fn server_override_nonblank(o: Option<&str>) -> (r: Option<String>)
    ensures
        ({
            let spec_r = norm_env(match o {
                Some(s) => Some(s@),
                None => None,
            });
            match r {
                Some(p) => spec_r == Some(p@),
                None => spec_r is None,
            }
        }),
{
    match o {
        None => None,
        Some(s) => {
            let t = str_trim(s);
            if t.unicode_len() > 0 {
                Some(String::from_str(t))
            } else {
                None
            }
        },
    }
}

/// The view of an environment pair list.
pub open spec fn env_pairs_view(env: Seq<(String, String)>) -> Seq<(Seq<char>, Seq<char>)> {
    env.map_values(|p: (String, String)| (p.0@, p.1@))
}

/// The value of the first pair with this key.
pub open spec fn lookup_spec(pairs: Seq<(Seq<char>, Seq<char>)>, key: Seq<char>) -> Option<
    Seq<char>,
>
    decreases pairs.len(),
{
    if pairs.len() == 0 {
        None
    } else if pairs[0].0 == key {
        Some(pairs[0].1)
    } else {
        lookup_spec(pairs.drop_first(), key)
    }
}

/// Find the value of `key` among the request's environment variables.
pub fn lookup_env(env: &Vec<(String, String)>, key: &str) -> (r: Option<String>)
    ensures
        ({
            let spec_r = lookup_spec(env_pairs_view(env@), key@);
            match r {
                Some(v) => spec_r == Some(v@),
                None => spec_r is None,
            }
        }),
{
    let ghost pairs = env_pairs_view(env@);
    let n = env.len();
    let mut i: usize = 0;
    proof {
        assert(pairs.subrange(0, pairs.len() as int) =~= pairs);
    }
    while i < n
        invariant
            i <= n,
            n == env@.len(),
            pairs == env_pairs_view(env@),
            lookup_spec(pairs, key@) == lookup_spec(
                pairs.subrange(i as int, pairs.len() as int),
                key@,
            ),
        decreases n - i,
    {
        let ghost rest = pairs.subrange(i as int, pairs.len() as int);
        proof {
            assert(rest[0] == pairs[i as int]);
            assert(rest.drop_first() =~= pairs.subrange(i + 1, pairs.len() as int));
        }
        if str_eq(env[i].0.as_str(), key) {
            return Some(env[i].1.clone());
        }
        i = i + 1;
    }
    proof {
        assert(pairs.subrange(n as int, pairs.len() as int) =~= Seq::<(Seq<char>, Seq<char>)>::empty());
    }
    None
}

/// The first of two optional values.
pub open spec fn first_some(a: Option<Seq<char>>, b: Option<Seq<char>>) -> Option<Seq<char>> {
    match a {
        Some(v) => Some(v),
        None => b,
    }
}

/// One resolved session value: server environment first, then the request,
/// then the fallback.
pub open spec fn choose_env(
    server: Option<Seq<char>>,
    request: Option<Seq<char>>,
    fallback: Seq<char>,
) -> Seq<char> {
    match first_some(norm_env(server), request) {
        Some(v) => v,
        None => fallback,
    }
}

/// The environment handed to the password helper: DISPLAY and
/// WAYLAND_DISPLAY always (with GNOME-style fallbacks), XDG_RUNTIME_DIR and
/// DBUS_SESSION_BUS_ADDRESS only when known.
pub open spec fn session_env_spec(
    server_display: Option<Seq<char>>,
    server_wayland: Option<Seq<char>>,
    server_xdg: Option<Seq<char>>,
    server_dbus: Option<Seq<char>>,
    request: Seq<(Seq<char>, Seq<char>)>,
) -> Seq<(Seq<char>, Seq<char>)> {
    let base = seq![
        ("DISPLAY"@, choose_env(server_display, lookup_spec(request, "DISPLAY"@), ":0"@)),
        (
            "WAYLAND_DISPLAY"@,
            choose_env(server_wayland, lookup_spec(request, "WAYLAND_DISPLAY"@), "wayland-0"@),
        ),
    ];
    let with_xdg = match first_some(
        norm_env(server_xdg),
        lookup_spec(request, "XDG_RUNTIME_DIR"@),
    ) {
        Some(v) => base.push(("XDG_RUNTIME_DIR"@, v)),
        None => base,
    };
    match first_some(norm_env(server_dbus), lookup_spec(request, "DBUS_SESSION_BUS_ADDRESS"@)) {
        Some(v) => with_xdg.push(("DBUS_SESSION_BUS_ADDRESS"@, v)),
        None => with_xdg,
    }
}

/// Build the session environment for the password helper.  The four
/// `server_*` arguments are the raw values of the server's own environment
/// variables; `env_vars` are the request's.
pub fn default_gnome_session_env(
    server_display: Option<&str>,
    server_wayland: Option<&str>,
    server_xdg: Option<&str>,
    server_dbus: Option<&str>,
    env_vars: &Vec<(String, String)>,
) -> (r: Vec<(String, String)>)
    ensures
        env_pairs_view(r@) == session_env_spec(
            match server_display {
                Some(s) => Some(s@),
                None => None,
            },
            match server_wayland {
                Some(s) => Some(s@),
                None => None,
            },
            match server_xdg {
                Some(s) => Some(s@),
                None => None,
            },
            match server_dbus {
                Some(s) => Some(s@),
                None => None,
            },
            env_pairs_view(env_vars@),
        ),
{
    let mut out: Vec<(String, String)> = Vec::new();
    let display = choose_env_exec(server_display, lookup_env(env_vars, "DISPLAY"), ":0");
    out.push((String::from_str("DISPLAY"), display));
    let wayland = choose_env_exec(
        server_wayland,
        lookup_env(env_vars, "WAYLAND_DISPLAY"),
        "wayland-0",
    );
    out.push((String::from_str("WAYLAND_DISPLAY"), wayland));
    let xdg = first_some_exec(server_xdg, lookup_env(env_vars, "XDG_RUNTIME_DIR"));
    match xdg {
        Some(v) => {
            out.push((String::from_str("XDG_RUNTIME_DIR"), v));
        },
        None => {},
    }
    let dbus = first_some_exec(server_dbus, lookup_env(env_vars, "DBUS_SESSION_BUS_ADDRESS"));
    match dbus {
        Some(v) => {
            out.push((String::from_str("DBUS_SESSION_BUS_ADDRESS"), v));
        },
        None => {},
    }
    proof {
        assert(env_pairs_view(out@) =~= session_env_spec(
            match server_display {
                Some(s) => Some(s@),
                None => None,
            },
            match server_wayland {
                Some(s) => Some(s@),
                None => None,
            },
            match server_xdg {
                Some(s) => Some(s@),
                None => None,
            },
            match server_dbus {
                Some(s) => Some(s@),
                None => None,
            },
            env_pairs_view(env_vars@),
        ));
    }
    out
}

/// Executable mirror of `choose_env`.
fn choose_env_exec(server: Option<&str>, request: Option<String>, fallback: &str) -> (r: String)
    ensures
        r@ == choose_env(
            match server {
                Some(s) => Some(s@),
                None => None,
            },
            match request {
                Some(s) => Some(s@),
                None => None,
            },
            fallback@,
        ),
{
    match server_override_nonblank(server) {
        Some(v) => v,
        None => match request {
            Some(v) => v,
            None => String::from_str(fallback),
        },
    }
}

/// Executable mirror of `first_some` over normalized server values.
fn first_some_exec(server: Option<&str>, request: Option<String>) -> (r: Option<String>)
    ensures
        ({
            let spec_r = first_some(
                norm_env(match server {
                    Some(s) => Some(s@),
                    None => None,
                }),
                match request {
                    Some(s) => Some(s@),
                    None => None,
                },
            );
            match r {
                Some(v) => spec_r == Some(v@),
                None => spec_r is None,
            }
        }),
{
    match server_override_nonblank(server) {
        Some(v) => Some(v),
        None => request,
    }
}

// ---------------------------------------------------------------------------
// Priming reports
// ---------------------------------------------------------------------------

/// What one priming attempt observed; surfaced as a diagnostic block.
pub struct SudoPrimeReport {
    pub success: bool,
    pub askpass: Option<String>,
    pub display: Option<String>,
    pub wayland_display: Option<String>,
    pub xdg_runtime_dir: Option<String>,
    pub dbus_session_bus_address: Option<String>,
    pub exit_code: Option<i32>,
    pub stderr: String,
}

/// An optional labelled line: "label: value\n" when present.
pub open spec fn opt_line(label: Seq<char>, v: Option<Seq<char>>) -> Seq<char> {
    match v {
        Some(s) => label + ": "@ + s + "\n"@,
        None => Seq::empty(),
    }
}

/// The view of an optional string.
pub open spec fn opt_text(o: Option<String>) -> Option<Seq<char>> {
    match o {
        Some(s) => Some(s@),
        None => None,
    }
}

impl SudoPrimeReport {
    /// The diagnostic block appended to a result when priming ran.
    pub open spec fn diagnostics_spec(self) -> Seq<char> {
        "\n\n[SUDO_PRIME]\n"@ + "success: "@ + (if self.success {
            "true"@
        } else {
            "false"@
        }) + "\n"@ + (match self.exit_code {
            Some(c) => "exit_code: "@ + int_decimal(c as int) + "\n"@,
            None => Seq::empty(),
        }) + opt_line("askpass"@, opt_text(self.askpass)) + opt_line(
            "DISPLAY"@,
            opt_text(self.display),
        ) + opt_line("WAYLAND_DISPLAY"@, opt_text(self.wayland_display)) + opt_line(
            "XDG_RUNTIME_DIR"@,
            opt_text(self.xdg_runtime_dir),
        ) + opt_line("DBUS_SESSION_BUS_ADDRESS"@, opt_text(self.dbus_session_bus_address)) + (
        if trim_spec(self.stderr@).len() > 0 {
            "stderr:\n"@ + trim_spec(self.stderr@) + "\n"@
        } else {
            Seq::empty()
        })
    }

    /// Render the diagnostic block.
    pub fn diagnostics_text(&self) -> (r: String)
        ensures
            r@ == self.diagnostics_spec(),
    {
        let mut s = String::from_str("\n\n[SUDO_PRIME]\n");
        s.append("success: ");
        if self.success {
            s.append("true");
        } else {
            s.append("false");
        }
        s.append("\n");
        match self.exit_code {
            Some(c) => {
                s.append("exit_code: ");
                let d = i32_to_string(c);
                s.append(d.as_str());
                s.append("\n");
            },
            None => {},
        }
        append_opt_line(&mut s, "askpass", &self.askpass);
        append_opt_line(&mut s, "DISPLAY", &self.display);
        append_opt_line(&mut s, "WAYLAND_DISPLAY", &self.wayland_display);
        append_opt_line(&mut s, "XDG_RUNTIME_DIR", &self.xdg_runtime_dir);
        append_opt_line(&mut s, "DBUS_SESSION_BUS_ADDRESS", &self.dbus_session_bus_address);
        let st = str_trim(self.stderr.as_str());
        if st.unicode_len() > 0 {
            s.append("stderr:\n");
            s.append(st);
            s.append("\n");
        }
        assert(s@ =~= self.diagnostics_spec());
        s
    }
}

/// Append "label: value\n" when the value is present.
fn append_opt_line(s: &mut String, label: &str, v: &Option<String>)
    ensures
        final(s)@ == old(s)@ + opt_line(label@, opt_text(*v)),
{
    match v {
        Some(value) => {
            s.append(label);
            s.append(": ");
            s.append(value.as_str());
            s.append("\n");
            assert(s@ =~= old(s)@ + opt_line(label@, opt_text(*v)));
        },
        None => {
            assert(s@ =~= old(s)@ + opt_line(label@, opt_text(*v)));
        },
    }
}

} // verus!
