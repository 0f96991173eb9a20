//! The relay binary's command line: which command runs, the secret token
//! given on the command line or in the environment, and the insecure
//! development switch.
use vstd::prelude::*;

use crate::crypto::keys::arg_texts;
use crate::text::{ascii_lower, str_equals, str_from, str_starts_with, to_ascii_lowercase, trim, str_trim};
use vstd::string::StrSliceExecFns;

verus! {

/// What the binary does.
#[derive(Debug, Clone, Copy, PartialEq, Eq)]
pub enum Command {
    /// Print the relay's public key in Base64 and exit.
    ShowPublicKey,
    /// Print the provisioning credentials as JSON and exit.
    ShowCredentials,
    /// Run the relay.
    Run,
}

/// Some argument is one of the two texts.
pub open spec fn has_arg(args: Seq<Seq<char>>, a: Seq<char>, b: Seq<char>) -> bool {
    exists|i: int| 0 <= i < args.len() && (args[i] == a || args[i] == b)
}

/// Whether some argument is `a` or `b`.
fn any_arg(args: &[String], a: &str, b: &str) -> (r: bool)
    ensures
        r == has_arg(arg_texts(args@), a@, b@),
{
    let mut i: usize = 0;
    while i < args.len()
        invariant
            i <= args@.len(),
            forall|j: int| 0 <= j < i ==> !(arg_texts(args@)[j] == a@ || arg_texts(args@)[j] == b@),
        decreases args@.len() - i,
    {
        let x = args[i].as_str();
        assert(arg_texts(args@)[i as int] == x@);
        if str_equals(x, a) || str_equals(x, b) {
            return true;
        }
        i = i + 1;
    }
    false
}

/// The command the arguments ask for: showing the public key wins over
/// showing the credentials; otherwise the relay runs.
pub fn command_of(args: &[String]) -> (r: Command)
    ensures
        r == (if has_arg(arg_texts(args@), "--show-public-key"@, "show-key"@) {
            Command::ShowPublicKey
        } else if has_arg(arg_texts(args@), "--show-credentials"@, "--show-credentials"@) {
            Command::ShowCredentials
        } else {
            Command::Run
        }),
{
    if any_arg(args, "--show-public-key", "show-key") {
        Command::ShowPublicKey
    } else if any_arg(args, "--show-credentials", "--show-credentials") {
        Command::ShowCredentials
    } else {
        Command::Run
    }
}

/// The value of a switch read from the environment: `1` or `true` in any case.
pub open spec fn flag_on(v: Seq<char>) -> bool {
    v == "1"@ || ascii_lower(v) == "true"@
}

/// Whether an environment value turns a switch on.
pub fn env_flag_enabled(value: &str) -> (r: bool)
    ensures
        r == flag_on(value@),
{
    if str_equals(value, "1") {
        return true;
    }
    let lower = to_ascii_lowercase(value);
    proof {
        reveal_strlit("true");
    }
    str_equals(lower.as_str(), "true")
}

/// Whether an optional environment value turns a switch on.
pub open spec fn opt_flag_on(v: Option<Seq<char>>) -> bool {
    match v {
        Some(t) => flag_on(t),
        None => false,
    }
}

/// The insecure development switch: one of its three arguments, or either
/// environment switch.
pub fn insecure_mode(args: &[String], env_no_auth: Option<&str>, env_no_token: Option<&str>) -> (r: bool)
    ensures
        r == (has_arg(arg_texts(args@), "--insecure-no-auth"@, "--insecure-no-token"@) || has_arg(
            arg_texts(args@),
            "--dev-mode"@,
            "--dev-mode"@,
        ) || opt_flag_on(
            match env_no_auth {
                Some(v) => Some(v@),
                None => None,
            },
        ) || opt_flag_on(
            match env_no_token {
                Some(v) => Some(v@),
                None => None,
            },
        )),
{
    let by_args = any_arg(args, "--insecure-no-auth", "--insecure-no-token") || any_arg(args, "--dev-mode", "--dev-mode");
    let by_auth = match env_no_auth {
        Some(v) => env_flag_enabled(v),
        None => false,
    };
    let by_token = match env_no_token {
        Some(v) => env_flag_enabled(v),
        None => false,
    };
    by_args || by_auth || by_token
}

/// The secret token given as `--secret TOKEN` or `--secret-token TOKEN`
/// (the first such pair at or after `i`).
pub open spec fn secret_pair_from(args: Seq<Seq<char>>, i: int) -> Option<Seq<char>>
    decreases args.len() - i,
{
    if i < 0 || i + 1 >= args.len() {
        None
    } else if args[i] == "--secret"@ || args[i] == "--secret-token"@ {
        Some(args[i + 1])
    } else {
        secret_pair_from(args, i + 1)
    }
}

/// The rest of `a` after prefix `p`, when `a` starts with it.
pub open spec fn after_prefix(a: Seq<char>, p: Seq<char>) -> Option<Seq<char>> {
    if p.len() <= a.len() && a.subrange(0, p.len() as int) == p {
        Some(a.subrange(p.len() as int, a.len() as int))
    } else {
        None
    }
}

/// The secret token given as `--secret=TOKEN` or `--secret-token=TOKEN` (the
/// first such argument at or after `i`).
pub open spec fn secret_assignment_from(args: Seq<Seq<char>>, i: int) -> Option<Seq<char>>
    decreases args.len() - i,
{
    if i < 0 || i >= args.len() {
        None
    } else if after_prefix(args[i], "--secret="@) is Some {
        after_prefix(args[i], "--secret="@)
    } else if after_prefix(args[i], "--secret-token="@) is Some {
        after_prefix(args[i], "--secret-token="@)
    } else {
        secret_assignment_from(args, i + 1)
    }
}

/// The configured secret token, as text: a `--secret`/`--secret-token` pair,
/// else a `--secret=`/`--secret-token=` argument, else the environment's
/// value when it is not blank.
pub open spec fn configured_secret(args: Seq<Seq<char>>, env_secret: Option<Seq<char>>) -> Option<Seq<char>> {
    match secret_pair_from(args, 0) {
        Some(t) => Some(t),
        None => match secret_assignment_from(args, 0) {
            Some(t) => Some(t),
            None => match env_secret {
                Some(v) => if trim(v).len() > 0 { Some(v) } else { None },
                None => None,
            },
        },
    }
}

/// The configured secret token's UTF-8 bytes, by `configured_secret`.
pub fn resolve_secret_token(args: &[String], env_secret: Option<&str>) -> (r: Option<Vec<u8>>)
    ensures
        match configured_secret(
            arg_texts(args@),
            match env_secret {
                Some(v) => Some(v@),
                None => None,
            },
        ) {
            Some(t) => r matches Some(b) && b@ == vstd::utf8::encode_utf8(t),
            None => r is None,
        },
{
    let n = args.len();
    let mut i: usize = 0;
    while n > 0 && i < n - 1
        invariant
            n == args@.len(),
            i <= n,
            secret_pair_from(arg_texts(args@), 0) == secret_pair_from(arg_texts(args@), i as int),
        decreases n - i,
    {
        let a = args[i].as_str();
        assert(arg_texts(args@)[i as int] == a@);
        if str_equals(a, "--secret") || str_equals(a, "--secret-token") {
            let v = args[i + 1].as_str();
            assert(arg_texts(args@)[i + 1] == v@);
            return Some(to_bytes(v));
        }
        i = i + 1;
    }
    let mut j: usize = 0;
    while j < n
        invariant
            n == args@.len(),
            j <= n,
            secret_pair_from(arg_texts(args@), 0) is None,
            secret_assignment_from(arg_texts(args@), 0) == secret_assignment_from(arg_texts(args@), j as int),
        decreases n - j,
    {
        let a = args[j].as_str();
        assert(arg_texts(args@)[j as int] == a@);
        if str_starts_with(a, "--secret=") {
            let rest = str_from(a, "--secret=".unicode_len());
            return Some(to_bytes(rest.as_str()));
        }
        if str_starts_with(a, "--secret-token=") {
            let rest = str_from(a, "--secret-token=".unicode_len());
            return Some(to_bytes(rest.as_str()));
        }
        j = j + 1;
    }
    match env_secret {
        Some(v) => {
            if str_trim(v).is_empty() {
                None
            } else {
                Some(to_bytes(v))
            }
        },
        None => None,
    }
}

/// The UTF-8 bytes of a text.
fn to_bytes(s: &str) -> (r: Vec<u8>)
    ensures
        r@ == vstd::utf8::encode_utf8(s@),
{
    let mut out: Vec<u8> = Vec::new();
    crate::protocol::wire::put_slice(&mut out, s.as_bytes());
    out
}

} // verus!
