//! The managed `Host awsome` block of `~/.ssh/config`: rendering it, and
//! replacing (or appending) it in the existing file contents.

use vstd::prelude::*;

use super::{SshPaths, HOST_ALIAS, REMOTE_USER};
use crate::text::{
    eq_ignore_ascii_case, join, join_strs, lines, lines_of, str_eq,
    str_eq_ignore_ascii_case, trim, trim_end, trim_end_str, trim_str, views, words, words_of,
};

verus! {

broadcast use vstd::string::group_string_axioms;

/// First line of the managed block.
pub const MANAGED_BLOCK_BEGIN: &'static str = "# >>> awsome managed >>>";

/// Last line of the managed block.
pub const MANAGED_BLOCK_END: &'static str = "# <<< awsome managed <<<";

/// Why an existing SSH config cannot take the managed block.
#[derive(PartialEq, Eq, Structural, Debug, Clone, Copy)]
pub enum SshConfigError {
    /// A second begin marker after a complete managed block.
    DuplicateBlock,
    /// A begin marker inside an open managed block.
    ConsecutiveBegins,
    /// An end marker outside any managed block.
    ConsecutiveEnds,
    /// A hand-written `Host` line that already names the alias.
    ConflictingHost,
    /// A managed block that is never closed.
    UnclosedBlock,
}

impl SshConfigError {
    /// The message the error is reported with.
    pub fn message(&self) -> (r: &'static str)
        ensures
            r@ == self.spec_message(),
    {
        match self {
            SshConfigError::DuplicateBlock => "can only have one managed block",
            SshConfigError::ConsecutiveBegins => "2 managed block begins one after the other",
            SshConfigError::ConsecutiveEnds => "2 managed block ends one after the other",
            SshConfigError::ConflictingHost => "seems like there already is an awsome host, this will conflict",
            SshConfigError::UnclosedBlock => "seems like we found a managed block that is corrupted and isn't closed",
        }
    }

    /// The message of each error.
    pub open spec fn spec_message(&self) -> Seq<char> {
        match self {
            SshConfigError::DuplicateBlock => "can only have one managed block"@,
            SshConfigError::ConsecutiveBegins => "2 managed block begins one after the other"@,
            SshConfigError::ConsecutiveEnds => "2 managed block ends one after the other"@,
            SshConfigError::ConflictingHost => "seems like there already is an awsome host, this will conflict"@,
            SshConfigError::UnclosedBlock => "seems like we found a managed block that is corrupted and isn't closed"@,
        }
    }
}

/// A line whose trimmed text is the begin marker.
pub open spec fn is_begin_line(l: Seq<char>) -> bool {
    trim(l) == MANAGED_BLOCK_BEGIN@
}

/// A line whose trimmed text is the end marker.
pub open spec fn is_end_line(l: Seq<char>) -> bool {
    trim(l) == MANAGED_BLOCK_END@
}

/// A `Host` directive (keyword matched without regard to ASCII case) that lists
/// the alias among its patterns.
pub open spec fn is_host_alias_line(l: Seq<char>) -> bool {
    let w = words(l);
    &&& w.len() > 0
    &&& eq_ignore_ascii_case(w[0], "Host"@)
    &&& w.drop_first().contains(HOST_ALIAS@)
}

/// What reading a config keeps: the lines before the managed block (all kept
/// lines when there is none), the lines after it, and whether there is one.
pub type Kept = (Seq<Seq<char>>, Seq<Seq<char>>, bool);

/// Reading `ls` with the managed block open (`inside`) or already seen
/// (`found`): the lines kept outside the managed block, before and after it,
/// and whether a block was seen; or the first problem.
pub open spec fn scan_lines(ls: Seq<Seq<char>>, inside: bool, found: bool) -> Result<
    Kept,
    SshConfigError,
>
    decreases ls.len(),
{
    if ls.len() == 0 {
        if inside {
            Err(SshConfigError::UnclosedBlock)
        } else {
            Ok((seq![], seq![], found))
        }
    } else {
        let l = ls[0];
        let rest = ls.drop_first();
        if is_begin_line(l) {
            if found {
                Err(SshConfigError::DuplicateBlock)
            } else if inside {
                Err(SshConfigError::ConsecutiveBegins)
            } else {
                scan_lines(rest, true, found)
            }
        } else if is_end_line(l) {
            if !inside {
                Err(SshConfigError::ConsecutiveEnds)
            } else {
                scan_lines(rest, false, true)
            }
        } else if inside {
            scan_lines(rest, inside, found)
        } else if is_host_alias_line(l) {
            Err(SshConfigError::ConflictingHost)
        } else {
            add_kept(seq![l], found, scan_lines(rest, inside, found))
        }
    }
}

/// `kept` in front of the kept lines of `r` that come after the managed
/// block (`after`) or before it, or the error of `r`.
pub open spec fn add_kept(kept: Seq<Seq<char>>, after: bool, r: Result<Kept, SshConfigError>) -> Result<
    Kept,
    SshConfigError,
> {
    match r {
        Ok((pre, post, f)) => if after {
            Ok((pre, kept + post, f))
        } else {
            Ok((kept + pre, post, f))
        },
        Err(e) => Err(e),
    }
}

/// The kept lines read so far (`pre` before the block, `post` after it) in
/// front of those of the rest `r`, or the error of `r`.
pub open spec fn combine_kept(
    pre: Seq<Seq<char>>,
    post: Seq<Seq<char>>,
    r: Result<Kept, SshConfigError>,
) -> Result<Kept, SshConfigError> {
    match r {
        Ok((p, q, f)) => Ok((pre + p, post + q, f)),
        Err(e) => Err(e),
    }
}

/// The unrelated content kept from a config without a managed block: its
/// lines joined, with trailing whitespace removed.
pub open spec fn kept_body(kept: Seq<Seq<char>>) -> Seq<char> {
    trim_end(join(kept, seq!['\n']))
}

/// For a config without a managed block: the kept content, a blank line if
/// there is any, then the block and a single trailing newline.
pub open spec fn assemble(kept: Seq<Seq<char>>, block: Seq<char>) -> Seq<char> {
    let body = kept_body(kept);
    (if body.len() > 0 {
        body + seq!['\n', '\n']
    } else {
        body
    }) + block + seq!['\n']
}

/// Each line followed by a line ending.
pub open spec fn join_term(ls: Seq<Seq<char>>) -> Seq<char>
    decreases ls.len(),
{
    if ls.len() == 0 {
        seq![]
    } else {
        ls[0] + seq!['\n'] + join_term(ls.drop_first())
    }
}

/// Appending a line appends it and a line ending.
pub proof fn lemma_join_term_push(ls: Seq<Seq<char>>, x: Seq<char>)
    ensures
        join_term(ls.push(x)) == join_term(ls) + x + seq!['\n'],
    decreases ls.len(),
{
    if ls.len() == 0 {
        let one = ls.push(x);
        assert(one.len() == 1 && one[0] == x);
        assert(one.drop_first() =~= Seq::<Seq<char>>::empty());
        assert(join_term(one.drop_first()) =~= Seq::<char>::empty());
        assert(join_term(one) == x + seq!['\n'] + join_term(one.drop_first()));
        assert(x + seq!['\n'] + Seq::<char>::empty() =~= Seq::<char>::empty() + x + seq!['\n']);
    } else {
        lemma_join_term_push(ls.drop_first(), x);
        assert(ls.push(x).drop_first() =~= ls.drop_first().push(x));
        assert(ls.push(x)[0] == ls[0]);
        let j = join_term(ls.drop_first());
        assert(ls[0] + seq!['\n'] + (j + x + seq!['\n']) =~= (ls[0] + seq!['\n'] + j) + x + seq![
            '\n',
        ]);
    }
}

/// A config with a managed block: the content before it written as when
/// appending (trailing whitespace removed, then a blank line if any is left),
/// the new block where the old one stood, then the lines after it, each
/// ending with `\n`.
pub open spec fn replace_in_place(pre: Seq<Seq<char>>, post: Seq<Seq<char>>, block: Seq<char>) -> Seq<
    char,
> {
    assemble(pre, block) + join_term(post)
}

/// The config `conf` with its managed block replaced by `block` where it
/// stood, or with `block` appended when there is none; or the first problem
/// found reading `conf` line by line.
pub open spec fn spec_upsert_config(conf: Seq<char>, block: Seq<char>) -> Result<
    Seq<char>,
    SshConfigError,
> {
    match scan_lines(lines(conf), false, false) {
        Ok((pre, post, found)) => if found {
            Ok(replace_in_place(pre, post, block))
        } else {
            Ok(assemble(pre, block))
        },
        Err(e) => Err(e),
    }
}

/// Whether `line` is a `Host` directive that lists `awsome` as a pattern.
pub fn is_host_awsome_line(line: &str) -> (r: bool)
    ensures
        r == is_host_alias_line(line@),
{
    let parts = words_of(line);
    if parts.len() == 0 {
        return false;
    }
    if !str_eq_ignore_ascii_case(parts[0].as_str(), "Host") {
        return false;
    }
    let n = parts.len();
    let mut i: usize = 1;
    assert(views(parts@)[0] == parts@[0]@);
    while i < n
        invariant
            n == parts@.len(),
            1 <= i <= n,
            views(parts@) == words(line@),
            eq_ignore_ascii_case(views(parts@)[0], "Host"@),
            forall|k: int| 1 <= k < i ==> views(parts@)[k] != HOST_ALIAS@,
        decreases n - i,
    {
        if str_eq(parts[i].as_str(), HOST_ALIAS) {
            assert(views(parts@)[i as int] == parts@[i as int]@);
            assert(views(parts@)[0] == parts@[0]@);
            assert(words(line@).drop_first()[i - 1] == HOST_ALIAS@);
            assert(words(line@).drop_first().contains(HOST_ALIAS@));
            return true;
        }
        i = i + 1;
    }
    assert(!words(line@).drop_first().contains(HOST_ALIAS@)) by {
        if words(line@).drop_first().contains(HOST_ALIAS@) {
            let k = choose|k: int| 0 <= k < words(line@).drop_first().len() && words(line@).drop_first()[k] == HOST_ALIAS@;
            assert(views(parts@)[k + 1] == HOST_ALIAS@);
        }
    }
    false
}

/// Appends each of `ls` followed by a line ending to `out`.
fn append_lines(out: &mut String, ls: &Vec<String>)
    ensures
        final(out)@ == old(out)@ + join_term(views(ls@)),
{
    let n = ls.len();
    let mut i: usize = 0;
    assert(views(ls@).take(0) =~= Seq::<Seq<char>>::empty());
    assert(old(out)@ + join_term(Seq::<Seq<char>>::empty()) =~= old(out)@);
    assert("\n"@ =~= seq!['\n']) by {
        reveal_strlit("\n");
    }
    while i < n
        invariant
            n == ls@.len(),
            i <= n,
            out@ == old(out)@ + join_term(views(ls@).take(i as int)),
        decreases n - i,
    {
        let ghost prefix = views(ls@).take(i as int);
        out.append(ls[i].as_str());
        out.append("\n");
        proof {
            reveal_strlit("\n");
            assert(views(ls@)[i as int] == ls@[i as int]@);
            lemma_join_term_push(prefix, ls@[i as int]@);
            assert(views(ls@).take(i + 1) =~= prefix.push(ls@[i as int]@));
            assert(old(out)@ + join_term(prefix) + ls@[i as int]@ + seq!['\n'] =~= old(out)@ + (
            join_term(prefix) + ls@[i as int]@ + seq!['\n']));
        }
        i = i + 1;
    }
    assert(views(ls@).take(n as int) =~= views(ls@));
}

/// Replaces the managed block in `conf` with `block` where it stood (or
/// appends it when there is none), erroring on the first conflict or
/// corruption found.
pub fn upsert_config(conf: &str, block: &str) -> (r: Result<String, SshConfigError>)
    ensures
        match r {
            Ok(s) => spec_upsert_config(conf@, block@) == Ok::<Seq<char>, SshConfigError>(s@),
            Err(e) => spec_upsert_config(conf@, block@) == Err::<Seq<char>, SshConfigError>(e),
        },
{
    let ls = lines_of(conf);
    let n = ls.len();
    let mut pre: Vec<String> = Vec::new();
    let mut post: Vec<String> = Vec::new();
    let mut inside = false;
    let mut found = false;
    let mut i: usize = 0;
    assert(views(ls@).skip(0) =~= views(ls@));
    proof {
        match scan_lines(lines(conf@), false, false) {
            Ok((p, q, f)) => {
                assert(views(pre@) + p =~= p);
                assert(views(post@) + q =~= q);
            },
            Err(e) => {},
        }
    }
    while i < n
        invariant
            n == ls@.len(),
            i <= n,
            views(ls@) == lines(conf@),
            scan_lines(lines(conf@), false, false) == combine_kept(
                views(pre@),
                views(post@),
                scan_lines(views(ls@).skip(i as int), inside, found),
            ),
        decreases n - i,
    {
        let ghost rest = views(ls@).skip(i as int);
        assert(rest.drop_first() =~= views(ls@).skip(i + 1));
        assert(rest[0] == ls@[i as int]@);
        let line = ls[i].as_str();
        let trimmed = trim_str(line);
        if str_eq(trimmed.as_str(), MANAGED_BLOCK_BEGIN) {
            if found {
                return Err(SshConfigError::DuplicateBlock);
            }
            if inside {
                return Err(SshConfigError::ConsecutiveBegins);
            }
            inside = true;
        } else if str_eq(trimmed.as_str(), MANAGED_BLOCK_END) {
            if !inside {
                return Err(SshConfigError::ConsecutiveEnds);
            }
            inside = false;
            found = true;
        } else if inside {
        } else if is_host_awsome_line(line) {
            return Err(SshConfigError::ConflictingHost);
        } else {
            let ghost pre0 = views(pre@);
            let ghost post0 = views(post@);
            if found {
                post.push(ls[i].clone());
                assert(views(post@) =~= post0.push(line@));
            } else {
                pre.push(ls[i].clone());
                assert(views(pre@) =~= pre0.push(line@));
            }
            proof {
                let tail = scan_lines(views(ls@).skip(i + 1), inside, found);
                match tail {
                    Ok((p, q, f)) => {
                        assert(pre0 + (seq![line@] + p) =~= pre0.push(line@) + p);
                        assert(post0 + (seq![line@] + q) =~= post0.push(line@) + q);
                    },
                    Err(e) => {},
                }
            }
        }
        i = i + 1;
    }
    if inside {
        return Err(SshConfigError::UnclosedBlock);
    }
    assert(views(pre@) + Seq::<Seq<char>>::empty() =~= views(pre@));
    assert(views(post@) + Seq::<Seq<char>>::empty() =~= views(post@));
    assert("\n"@ =~= seq!['\n']) by {
        reveal_strlit("\n");
    }
    let joined = join_strs(&pre, "\n");
    let mut out = trim_end_str(joined.as_str());
    if out.unicode_len() > 0 {
        out.append("\n\n");
        assert("\n\n"@ =~= seq!['\n', '\n']) by {
            reveal_strlit("\n\n");
        }
    }
    out.append(block);
    out.append("\n");
    assert(out@ =~= assemble(views(pre@), block@));
    if found {
        append_lines(&mut out, &post);
        assert(out@ =~= replace_in_place(views(pre@), views(post@), block@));
    }
    Ok(out)
}

/// The lines of the managed block for the given `IdentityFile`,
/// `ProxyCommand` and `UserKnownHostsFile` values.
pub open spec fn managed_block_lines(
    identity_file: Seq<char>,
    proxy_command: Seq<char>,
    null_known_hosts: Seq<char>,
) -> Seq<Seq<char>> {
    seq![
        MANAGED_BLOCK_BEGIN@,
        "# Added by the awsome CLI (`awsome setup-ssh`). Do not edit this block by"@,
        "# hand; it is regenerated automatically and your changes will be lost."@,
        "Host "@ + HOST_ALIAS@,
        "    User "@ + REMOTE_USER@,
        "    IdentityFile "@ + identity_file,
        "    IdentitiesOnly yes"@,
        "    ProxyCommand "@ + proxy_command,
        "    # This alias tunnels to whichever instance is currently selected, and"@,
        "    # each instance has its own host key, so host-key pinning under the"@,
        "    # shared `"@ + HOST_ALIAS@ + "` name would break on every switch. Skip it."@,
        "    UserKnownHostsFile "@ + null_known_hosts,
        "    StrictHostKeyChecking no"@,
        "    LogLevel ERROR"@,
        "    ServerAliveInterval 30"@,
        MANAGED_BLOCK_END@,
    ]
}

/// The managed block: its lines joined with `\n`, with no trailing newline.
pub open spec fn spec_render_managed_block(
    identity_file: Seq<char>,
    proxy_command: Seq<char>,
    null_known_hosts: Seq<char>,
) -> Seq<char> {
    join(managed_block_lines(identity_file, proxy_command, null_known_hosts), seq!['\n'])
}

/// `a` followed by `b`, as a new string.
fn concat2(a: &str, b: &str) -> (r: String)
    ensures
        r@ == a@ + b@,
{
    let mut r = String::from_str(a);
    r.append(b);
    r
}

/// Renders the managed SSH-config block (no trailing newline).
pub fn render_managed_block(identity_file: &str, proxy_command: &str, null_known_hosts: &str) -> (r:
    String)
    ensures
        r@ == spec_render_managed_block(identity_file@, proxy_command@, null_known_hosts@),
{
    let mut ls: Vec<String> = Vec::new();
    ls.push(String::from_str(MANAGED_BLOCK_BEGIN));
    ls.push(
        String::from_str(
            "# Added by the awsome CLI (`awsome setup-ssh`). Do not edit this block by",
        ),
    );
    ls.push(
        String::from_str(
            "# hand; it is regenerated automatically and your changes will be lost.",
        ),
    );
    ls.push(concat2("Host ", HOST_ALIAS));
    ls.push(concat2("    User ", REMOTE_USER));
    ls.push(concat2("    IdentityFile ", identity_file));
    ls.push(String::from_str("    IdentitiesOnly yes"));
    ls.push(concat2("    ProxyCommand ", proxy_command));
    ls.push(
        String::from_str(
            "    # This alias tunnels to whichever instance is currently selected, and",
        ),
    );
    ls.push(
        String::from_str("    # each instance has its own host key, so host-key pinning under the"),
    );
    let shared = concat2("    # shared `", HOST_ALIAS);
    ls.push(concat2(shared.as_str(), "` name would break on every switch. Skip it."));
    ls.push(concat2("    UserKnownHostsFile ", null_known_hosts));
    ls.push(String::from_str("    StrictHostKeyChecking no"));
    ls.push(String::from_str("    LogLevel ERROR"));
    ls.push(String::from_str("    ServerAliveInterval 30"));
    ls.push(String::from_str(MANAGED_BLOCK_END));
    assert(views(ls@) =~= managed_block_lines(identity_file@, proxy_command@, null_known_hosts@));
    assert("\n"@ =~= seq!['\n']) by {
        reveal_strlit("\n");
    }
    join_strs(&ls, "\n")
}

/// Null device for `UserKnownHostsFile`, so no host key is pinned for the
/// shared alias: `NUL` on Windows, `/dev/null` elsewhere.
pub fn get_null_known_hosts(windows: bool) -> (r: &'static str)
    ensures
        r@ == (if windows {
            "NUL"@
        } else {
            "/dev/null"@
        }),
{
    if windows {
        "NUL"
    } else {
        "/dev/null"
    }
}

/// The `ProxyCommand` that calls back into `awsome ssh-proxy`.
pub open spec fn spec_proxy_command() -> Seq<char> {
    HOST_ALIAS@ + " ssh-proxy %p"@
}

/// What writing the managed block into `conf` calls for: the new contents, or
/// `None` when `conf` already holds exactly that block.
pub open spec fn spec_ensure_ssh_config(
    conf: Seq<char>,
    identity_file: Seq<char>,
    null_known_hosts: Seq<char>,
) -> Result<Option<Seq<char>>, SshConfigError> {
    match spec_upsert_config(
        conf,
        spec_render_managed_block(identity_file, spec_proxy_command(), null_known_hosts),
    ) {
        Ok(updated) => if updated == conf {
            Ok(None)
        } else {
            Ok(Some(updated))
        },
        Err(e) => Err(e),
    }
}

/// Ensures the SSH config contents `conf` hold the managed `Host awsome`
/// block for the dedicated key in `paths`, replacing any previous managed
/// block in place. Returns the contents to write, or `None` when `conf` is
/// already up to date.
pub fn ensure_ssh_config(paths: &SshPaths, conf: &str, null_known_hosts: &str) -> (r: Result<
    Option<String>,
    SshConfigError,
>)
    ensures
        match r {
            Ok(Some(s)) => spec_ensure_ssh_config(
                conf@,
                paths.ssh_conf_relative_private_key@,
                null_known_hosts@,
            ) == Ok::<Option<Seq<char>>, SshConfigError>(Some(s@)),
            Ok(None) => spec_ensure_ssh_config(
                conf@,
                paths.ssh_conf_relative_private_key@,
                null_known_hosts@,
            ) == Ok::<Option<Seq<char>>, SshConfigError>(None),
            Err(e) => spec_ensure_ssh_config(
                conf@,
                paths.ssh_conf_relative_private_key@,
                null_known_hosts@,
            ) == Err::<Option<Seq<char>>, SshConfigError>(e),
        },
{
    let mut proxy_command = String::from_str(HOST_ALIAS);
    proxy_command.append(" ssh-proxy %p");
    let block = render_managed_block(
        paths.ssh_conf_relative_private_key.as_str(),
        proxy_command.as_str(),
        null_known_hosts,
    );
    let updated = upsert_config(conf, block.as_str())?;
    if str_eq(updated.as_str(), conf) {
        Ok(None)
    } else {
        Ok(Some(updated))
    }
}

} // verus!
