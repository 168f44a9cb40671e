//! The dedicated `ed25519` key: what to do with its files, reading its public
//! half, and the remote shell script that installs that public half into
//! `ec2-user`'s `authorized_keys` (run via SSM Run Command).

use vstd::prelude::*;

use super::{HOST_ALIAS, REMOTE_USER};
use crate::text::{replace_char, replace_char_str, trim, trim_str, views};

verus! {

broadcast use vstd::string::group_string_axioms;

/// The `install_key USER KEY` shell function, this library's own script:
/// makes sure `USER`'s `~/.ssh/authorized_keys` exists with strict ownership and permissions, and
/// appends `KEY` to it unless it is already listed. Line endings are `\n` only.
pub const INSTALL_KEY_SH: &'static str = "install_key() {\n    user=\"$1\"\n    key=\"$2\"\n    home_dir=\"$(getent passwd \"$user\" | cut -d: -f6)\"\n    if [ -z \"$home_dir\" ]; then\n        echo \"user $user does not exist\" >&2\n        return 1\n    fi\n    ssh_dir=\"$home_dir/.ssh\"\n    auth_keys=\"$ssh_dir/authorized_keys\"\n    install -d -m 700 -o \"$user\" -g \"$user\" \"$ssh_dir\"\n    if [ ! -f \"$auth_keys\" ]; then\n        install -m 600 -o \"$user\" -g \"$user\" /dev/null \"$auth_keys\"\n    fi\n    if grep -qF -- \"$key\" \"$auth_keys\"; then\n        echo \"public key already installed for $user\"\n    else\n        printf '%s\\n' \"$key\" >> \"$auth_keys\"\n        echo \"installed public key for $user\"\n    fi\n    chown \"$user:$user\" \"$auth_keys\"\n    chmod 600 \"$auth_keys\"\n}";

/// `s` wrapped in single quotes, each embedded single quote written `'\''`.
pub open spec fn spec_shell_single_quote(s: Seq<char>) -> Seq<char> {
    seq!['\''] + replace_char(s, '\'', seq!['\'', '\\', '\'', '\'']) + seq!['\'']
}

/// Wraps `s` in single quotes for safe embedding in a POSIX shell script,
/// escaping any embedded single quotes.
pub fn shell_single_quote(s: &str) -> (r: String)
    ensures
        r@ == spec_shell_single_quote(s@),
{
    assert("'"@ =~= seq!['\'']) by {
        reveal_strlit("'");
    }
    assert("'\\''"@ =~= seq!['\'', '\\', '\'', '\'']) by {
        reveal_strlit("'\\''");
    }
    let mut r = String::from_str("'");
    let body = replace_char_str(s, '\'', "'\\''");
    r.append(body.as_str());
    r.append("'");
    r
}

/// Replacing a character by text without `x` leaves no `x` behind where there
/// was none.
pub proof fn lemma_replace_char_avoids(s: Seq<char>, c: char, r: Seq<char>, x: char)
    requires
        !s.contains(x),
        !r.contains(x),
    ensures
        !replace_char(s, c, r).contains(x),
    decreases s.len(),
{
    if s.len() > 0 {
        assert(!s.drop_last().contains(x)) by {
            if s.drop_last().contains(x) {
                let i = choose|i: int| 0 <= i < s.drop_last().len() && s.drop_last()[i] == x;
                assert(s[i] == x);
            }
        }
        lemma_replace_char_avoids(s.drop_last(), c, r, x);
        let piece = if s.last() == c {
            r
        } else {
            seq![s.last()]
        };
        assert(!piece.contains(x)) by {
            if s.last() != c && piece.contains(x) {
                assert(piece[0] == x);
                assert(s[s.len() - 1] == x);
            }
        }
        let whole = replace_char(s.drop_last(), c, r) + piece;
        assert(!whole.contains(x)) by {
            if whole.contains(x) {
                let i = choose|i: int| 0 <= i < whole.len() && whole[i] == x;
                let n = replace_char(s.drop_last(), c, r).len();
                if i < n {
                    assert(replace_char(s.drop_last(), c, r)[i] == x);
                } else {
                    assert(piece[i - n] == x);
                }
            }
        }
    }
}

/// No part of a concatenation holds `x`, so neither does the whole.
proof fn lemma_concat_avoids(a: Seq<char>, b: Seq<char>, x: char)
    requires
        !a.contains(x),
        !b.contains(x),
    ensures
        !(a + b).contains(x),
{
    if (a + b).contains(x) {
        let i = choose|i: int| 0 <= i < (a + b).len() && (a + b)[i] == x;
        if i < a.len() {
            assert(a[i] == x);
        } else {
            assert(b[i - a.len()] == x);
        }
    }
}

/// The remote script for `public_key`.
pub open spec fn spec_build_push_script(public_key: Seq<char>) -> Seq<char> {
    "set -eu\n"@ + INSTALL_KEY_SH@ + "\ninstall_key "@ + REMOTE_USER@ + " "@
        + spec_shell_single_quote(public_key)
}

/// Builds the remote shell script (run by SSM Run Command as root) that
/// installs `public_key` into `ec2-user`'s `authorized_keys`, by defining the
/// `install_key` function and invoking it with the user and the quoted key.
pub fn build_push_script(public_key: &str) -> (r: String)
    ensures
        r@ == spec_build_push_script(public_key@),
        !public_key@.contains('\r') ==> !r@.contains('\r'),
{
    let mut r = String::from_str("set -eu\n");
    r.append(INSTALL_KEY_SH);
    r.append("\ninstall_key ");
    r.append(REMOTE_USER);
    r.append(" ");
    let quoted = shell_single_quote(public_key);
    r.append(quoted.as_str());
    proof {
        if !public_key@.contains('\r') {
            reveal_strlit("set -eu\n");
            reveal_strlit("\ninstall_key ");
            reveal_strlit(" ");
            reveal_strlit("ec2-user");
            reveal_strlit("install_key() {\n    user=\"$1\"\n    key=\"$2\"\n    home_dir=\"$(getent passwd \"$user\" | cut -d: -f6)\"\n    if [ -z \"$home_dir\" ]; then\n        echo \"user $user does not exist\" >&2\n        return 1\n    fi\n    ssh_dir=\"$home_dir/.ssh\"\n    auth_keys=\"$ssh_dir/authorized_keys\"\n    install -d -m 700 -o \"$user\" -g \"$user\" \"$ssh_dir\"\n    if [ ! -f \"$auth_keys\" ]; then\n        install -m 600 -o \"$user\" -g \"$user\" /dev/null \"$auth_keys\"\n    fi\n    if grep -qF -- \"$key\" \"$auth_keys\"; then\n        echo \"public key already installed for $user\"\n    else\n        printf '%s\\n' \"$key\" >> \"$auth_keys\"\n        echo \"installed public key for $user\"\n    fi\n    chown \"$user:$user\" \"$auth_keys\"\n    chmod 600 \"$auth_keys\"\n}");
            let q = seq!['\'', '\\', '\'', '\''];
            assert(!q.contains('\r'));
            lemma_replace_char_avoids(public_key@, '\'', q, '\r');
            assert(!seq!['\''].contains('\r'));
            let body = replace_char(public_key@, '\'', q);
            lemma_concat_avoids(seq!['\''], body, '\r');
            lemma_concat_avoids(seq!['\''] + body, seq!['\''], '\r');
            assert(!"set -eu\n"@.contains('\r'));
            assert(!INSTALL_KEY_SH@.contains('\r'));
            assert(!"\ninstall_key "@.contains('\r'));
            assert(!REMOTE_USER@.contains('\r'));
            assert(!" "@.contains('\r'));
            lemma_concat_avoids("set -eu\n"@, INSTALL_KEY_SH@, '\r');
            lemma_concat_avoids("set -eu\n"@ + INSTALL_KEY_SH@, "\ninstall_key "@, '\r');
            lemma_concat_avoids("set -eu\n"@ + INSTALL_KEY_SH@ + "\ninstall_key "@, REMOTE_USER@, '\r');
            lemma_concat_avoids("set -eu\n"@ + INSTALL_KEY_SH@ + "\ninstall_key "@ + REMOTE_USER@, " "@, '\r');
            lemma_concat_avoids(
                "set -eu\n"@ + INSTALL_KEY_SH@ + "\ninstall_key "@ + REMOTE_USER@ + " "@,
                spec_shell_single_quote(public_key@),
                '\r',
            );
        }
    }
    r
}

/// What to do about the dedicated key pair, given which of its files exist.
#[derive(PartialEq, Eq, Structural, Debug, Clone, Copy)]
pub enum KeyAction {
    /// Both halves exist: use them as they are.
    Reuse,
    /// Neither half exists: generate a new pair.
    Generate,
}

/// Exactly one half of the key pair exists.
#[derive(PartialEq, Eq, Structural, Debug, Clone, Copy)]
pub struct KeyCorruption {
    pub private_exists: bool,
    pub public_exists: bool,
}

/// Decides how to prepare the dedicated key location: reuse a complete pair,
/// generate a missing one, and refuse a half-present pair (manual intervention
/// is required).
pub fn ensure_local_ssh_key_exists(private_exists: bool, public_exists: bool) -> (r: Result<
    KeyAction,
    KeyCorruption,
>)
    ensures
        r == (if private_exists != public_exists {
            Err(KeyCorruption { private_exists, public_exists })
        } else if private_exists {
            Ok(KeyAction::Reuse)
        } else {
            Ok(KeyAction::Generate)
        }),
{
    if (private_exists && !public_exists) || (!private_exists && public_exists) {
        return Err(KeyCorruption { private_exists, public_exists });
    }
    if private_exists && public_exists {
        return Ok(KeyAction::Reuse);
    }
    Ok(KeyAction::Generate)
}

/// The dedicated public key, from the contents of its file: trimmed.
pub fn read_public_ssh_key(contents: &str) -> (r: String)
    ensures
        r@ == trim(contents@),
{
    trim_str(contents)
}

/// A program run: the program and its arguments, in order.
#[derive(Debug)]
pub struct KeygenCommand {
    pub program: String,
    pub args: Vec<String>,
}

/// The `ssh-keygen` run that generates a fresh `ed25519` key pair at
/// `private_key` (writing the matching `.pub` alongside it), with an empty
/// passphrase for non-interactive use and the alias as its comment.
pub fn generate_key(private_key: &str) -> (r: KeygenCommand)
    ensures
        r.program@ == "ssh-keygen"@,
        views(r.args@) == seq![
            "-t"@,
            "ed25519"@,
            "-f"@,
            private_key@,
            "-N"@,
            ""@,
            "-C"@,
            HOST_ALIAS@,
        ],
{
    let mut args: Vec<String> = Vec::new();
    // key type: https://man.openbsd.org/ssh-keygen.1#t
    args.push(String::from_str("-t"));
    args.push(String::from_str("ed25519"));
    // output keyfile path: https://man.openbsd.org/ssh-keygen.1#f
    args.push(String::from_str("-f"));
    args.push(String::from_str(private_key));
    // new passphrase: https://man.openbsd.org/ssh-keygen.1#N
    args.push(String::from_str("-N"));
    args.push(String::from_str(""));
    // comment: https://man.openbsd.org/ssh-keygen.1#C
    args.push(String::from_str("-C"));
    args.push(String::from_str(HOST_ALIAS));
    assert(views(args@) =~= seq![
        "-t"@,
        "ed25519"@,
        "-f"@,
        private_key@,
        "-N"@,
        ""@,
        "-C"@,
        HOST_ALIAS@,
    ]);
    KeygenCommand { program: String::from_str("ssh-keygen"), args }
}

} // verus!
