//! Local SSH-setup logic for `awsome ssh`: the dedicated key's locations, the
//! remote script that trusts its public half, and the managed `~/.ssh/config`
//! entry whose `ProxyCommand` tunnels SSH through SSM.
//!
//! The connection target is intentionally not baked into the SSH config: the
//! `Host awsome` entry calls back into `awsome ssh-proxy`, which opens a Session
//! Manager tunnel to whichever profile/instance group is currently selected.

pub mod config;
pub mod conflicts;
pub mod idempotence;
pub mod keys;

use vstd::prelude::*;

verus! {

/// Fixed SSH `Host` alias written to `~/.ssh/config`. Generic on purpose so a
/// single `ssh awsome` follows the currently selected group.
pub const HOST_ALIAS: &'static str = "awsome";

/// Remote Linux user the key is installed for and that SSH logs in as.
pub const REMOTE_USER: &'static str = "ec2-user";

/// A path separator: `/` everywhere, and the platform's own separator `sep`.
pub open spec fn is_separator(c: char, sep: char) -> bool {
    c == '/' || c == sep
}

/// A bare Windows drive such as `C:`: an ASCII letter and a colon, on a
/// platform whose separator is `\`.
pub open spec fn is_bare_drive(base: Seq<char>, sep: char) -> bool {
    &&& sep == '\\'
    &&& base.len() == 2
    &&& base[1] == ':'
    &&& (('a' <= base[0] && base[0] <= 'z') || ('A' <= base[0] && base[0] <= 'Z'))
}

/// `base` joined with the relative component `comp` (`Path::join`): a
/// separator is put between them unless `base` is empty, already ends with
/// one, or is a bare drive (`C:` joined with `x` is the drive-relative `C:x`).
pub open spec fn spec_path_join(base: Seq<char>, comp: Seq<char>, sep: char) -> Seq<char> {
    if base.len() == 0 || is_separator(base.last(), sep) || is_bare_drive(base, sep) {
        base + comp
    } else {
        base + seq![sep] + comp
    }
}

/// `base` joined with the relative component `comp`.
pub fn path_join(base: &str, comp: &str, sep: char) -> (r: String)
    ensures
        r@ == spec_path_join(base@, comp@, sep),
{
    let n = base.unicode_len();
    let mut r = String::from_str(base);
    if n > 0 {
        let last = base.get_char(n - 1);
        let bare_drive = if sep == '\\' && n == 2 && last == ':' {
            let d = base.get_char(0);
            ('a' <= d && d <= 'z') || ('A' <= d && d <= 'Z')
        } else {
            false
        };
        if !(last == '/' || last == sep || bare_drive) {
            crate::text::push_char(&mut r, sep);
        }
    }
    r.append(comp);
    r
}

/// Resolved on-disk locations of the dedicated key pair and the SSH config.
pub struct SshPaths {
    pub ssh_dir: String,
    pub private_key: String,
    /// The private key as the SSH config's `IdentityFile` names it.
    pub ssh_conf_relative_private_key: String,
    pub public_key: String,
    pub config: String,
}

/// The SSH config's `IdentityFile` value: `~/` and the key's path relative to
/// the home directory, with forward slashes (the only ones `ssh_config`'s tilde
/// expansion recognizes) and embedded quotes escaped, in double quotes.
pub open spec fn spec_conf_relative_private_key(sep: char) -> Seq<char> {
    seq!['"', '~', '/'] + crate::text::replace_char(
        crate::text::replace_char(spec_path_join(".ssh"@, HOST_ALIAS@, sep), '\\', seq!['/']),
        '"',
        seq!['\\', '"'],
    ) + seq!['"']
}

impl SshPaths {
    /// The locations under the home directory `home`, on a platform whose path
    /// separator is `sep`.
    pub fn from_home(home: &str, sep: char) -> (r: SshPaths)
        ensures
            r.ssh_dir@ == spec_path_join(home@, ".ssh"@, sep),
            r.private_key@ == spec_path_join(r.ssh_dir@, HOST_ALIAS@, sep),
            r.public_key@ == spec_path_join(r.ssh_dir@, HOST_ALIAS@ + ".pub"@, sep),
            r.config@ == spec_path_join(r.ssh_dir@, "config"@, sep),
            r.ssh_conf_relative_private_key@ == spec_conf_relative_private_key(sep),
    {
        let ssh_dir = path_join(home, ".ssh", sep);
        let private_key = path_join(ssh_dir.as_str(), HOST_ALIAS, sep);
        let relative = path_join(".ssh", HOST_ALIAS, sep);
        let forward = crate::text::replace_char_str(relative.as_str(), '\\', "/");
        let escaped = crate::text::replace_char_str(forward.as_str(), '"', "\\\"");
        assert("/"@ =~= seq!['/']) by {
            reveal_strlit("/");
        }
        assert("\\\""@ =~= seq!['\\', '"']) by {
            reveal_strlit("\\\"");
        }
        assert("\"~/"@ =~= seq!['"', '~', '/']) by {
            reveal_strlit("\"~/");
        }
        assert("\""@ =~= seq!['"']) by {
            reveal_strlit("\"");
        }
        let mut ssh_conf_relative_private_key = String::from_str("\"~/");
        ssh_conf_relative_private_key.append(escaped.as_str());
        ssh_conf_relative_private_key.append("\"");
        let mut pub_name = String::from_str(HOST_ALIAS);
        pub_name.append(".pub");
        let public_key = path_join(ssh_dir.as_str(), pub_name.as_str(), sep);
        let config = path_join(ssh_dir.as_str(), "config", sep);
        SshPaths { ssh_dir, private_key, ssh_conf_relative_private_key, public_key, config }
    }
}

/// The script that installs the dedicated public key on the instance, from the
/// contents of the public key file: the key is trimmed first.
pub fn setup_ssh(public_key_contents: &str) -> (r: String)
    ensures
        r@ == keys::spec_build_push_script(crate::text::trim(public_key_contents@)),
{
    let public_key = keys::read_public_ssh_key(public_key_contents);
    keys::build_push_script(public_key.as_str())
}

} // verus!
