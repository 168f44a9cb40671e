use awsome::ssh_setup::config::{
    ensure_ssh_config, get_null_known_hosts, is_host_awsome_line, render_managed_block,
    upsert_config, SshConfigError, MANAGED_BLOCK_BEGIN, MANAGED_BLOCK_END,
};
use awsome::ssh_setup::keys::{
    build_push_script, ensure_local_ssh_key_exists, generate_key, read_public_ssh_key,
    shell_single_quote, KeyAction, KeyCorruption,
};
use awsome::ssh_setup::{setup_ssh, SshPaths};
use std::path::{PathBuf, MAIN_SEPARATOR};

fn null() -> &'static str {
    get_null_known_hosts(false)
}

#[test]
fn render_managed_block_contains_expected_directives() {
    let block = render_managed_block("~/.ssh/awsome", "awsome ssh-proxy %p", null());
    assert!(block.starts_with(MANAGED_BLOCK_BEGIN), "{block}");
    assert!(block.ends_with(MANAGED_BLOCK_END), "{block}");
    assert!(block.contains("Host awsome"));
    assert!(block.contains("User ec2-user"));
    assert!(block.contains("IdentityFile ~/.ssh/awsome"));
    assert!(block.contains("IdentitiesOnly yes"));
    assert!(block.contains("ProxyCommand awsome ssh-proxy %p"));
    assert!(block.contains("StrictHostKeyChecking no"));
    assert!(block.contains("ServerAliveInterval 30"));
    assert!(block.contains(&format!("UserKnownHostsFile {}", null())));
}

#[test]
fn upsert_config_inserts_into_empty_config() {
    let block = render_managed_block("~/.ssh/awsome", "awsome ssh-proxy %p", null());
    let out = upsert_config("", &block).unwrap();
    assert!(out.contains(MANAGED_BLOCK_BEGIN));
    assert!(out.contains(MANAGED_BLOCK_END));
    assert!(out.ends_with('\n'));
}

#[test]
fn upsert_config_appends_after_existing_unrelated_content() {
    let existing = "Host other\n    HostName example.com\n";
    let block = render_managed_block("~/.ssh/awsome", "awsome ssh-proxy %p", null());
    let out = upsert_config(existing, &block).unwrap();

    assert!(out.starts_with("Host other"));
    assert!(out.contains(MANAGED_BLOCK_BEGIN));
    // A blank line separates the prior content from the managed block.
    assert!(out.contains("example.com\n\n# >>> awsome managed >>>"));
}

#[test]
fn upsert_config_replaces_existing_managed_block_idempotently() {
    let block_v1 = render_managed_block("~/.ssh/awsome", "old-proxy %p", null());
    let existing = upsert_config("Host keep\n    HostName keep.example\n", &block_v1).unwrap();

    let block_v2 = render_managed_block("~/.ssh/awsome", "awsome ssh-proxy %p", null());
    let once = upsert_config(&existing, &block_v2).unwrap();

    assert!(once.contains("ProxyCommand awsome ssh-proxy %p"));
    assert!(!once.contains("old-proxy"));
    // Unrelated content is preserved.
    assert!(once.contains("Host keep"));
    // Exactly one managed block.
    assert_eq!(once.matches(MANAGED_BLOCK_BEGIN).count(), 1);
    assert_eq!(once.matches(MANAGED_BLOCK_END).count(), 1);

    // Running again with the same block is a no-op.
    let twice = upsert_config(&once, &block_v2).unwrap();
    assert_eq!(once, twice);
}

#[test]
fn upsert_config_refuses_conflicting_manual_host() {
    let existing = "Host awsome\n    HostName manually-set.example\n";
    let block = render_managed_block("~/.ssh/awsome", "awsome ssh-proxy %p", null());
    assert!(upsert_config(existing, &block).is_err());
}

#[test]
fn upsert_config_errors_on_unterminated_managed_block() {
    // A managed block whose end marker was lost should error rather than
    // silently leaving the block open (and swallowing the rest of the file).
    let existing = format!("{MANAGED_BLOCK_BEGIN}\nHost awsome\n    User ec2-user\n");
    let block = render_managed_block("~/.ssh/awsome", "awsome ssh-proxy %p", null());
    let err = upsert_config(&existing, &block).unwrap_err().message().to_string();
    assert!(err.contains("corrupted and isn't closed"), "{err}");
}

#[test]
fn upsert_config_errors_on_end_marker_without_begin() {
    // A stray end marker with no matching begin marker should error
    // rather than being silently accepted.
    let existing = format!("Host other\n    HostName example.com\n{MANAGED_BLOCK_END}\n");
    let block = render_managed_block("~/.ssh/awsome", "awsome ssh-proxy %p", null());
    let err = upsert_config(&existing, &block).unwrap_err().message().to_string();
    assert!(err.contains("2 managed block ends"), "{err}");
}

#[test]
fn is_host_awsome_line_matches_only_the_alias() {
    assert!(is_host_awsome_line("Host awsome"));
    assert!(is_host_awsome_line("  host   awsome  "));
    assert!(is_host_awsome_line("Host awsome other"));
    assert!(!is_host_awsome_line("Host awsome-prod"));
    assert!(!is_host_awsome_line("HostName awsome"));
    assert!(!is_host_awsome_line("    IdentityFile ~/.ssh/awsome"));
}

#[test]
fn upsert_config_reports_each_kind_of_corruption() {
    let block = render_managed_block("k", "p", null());
    let twice = format!("{MANAGED_BLOCK_BEGIN}\n{MANAGED_BLOCK_END}\n{MANAGED_BLOCK_BEGIN}\n{MANAGED_BLOCK_END}\n");
    assert_eq!(upsert_config(&twice, &block).unwrap_err(), SshConfigError::DuplicateBlock);
    let nested = format!("{MANAGED_BLOCK_BEGIN}\n  {MANAGED_BLOCK_BEGIN}  \n");
    assert_eq!(upsert_config(&nested, &block).unwrap_err(), SshConfigError::ConsecutiveBegins);
    assert_eq!(
        SshConfigError::DuplicateBlock.message(),
        "can only have one managed block"
    );
    assert_eq!(
        SshConfigError::ConflictingHost.message(),
        "seems like there already is an awsome host, this will conflict"
    );
    // A conflicting host inside the managed block is replaced, not refused.
    let inside = format!("{MANAGED_BLOCK_BEGIN}\nHost awsome\n{MANAGED_BLOCK_END}\n");
    assert_eq!(upsert_config(&inside, &block).unwrap(), format!("{block}\n"));
}

#[test]
fn upsert_config_trims_trailing_blank_lines_before_the_block() {
    let out = upsert_config("Host a\r\n  \n\t\n", "B").unwrap();
    assert_eq!(out, "Host a\n\nB\n");
}

#[test]
fn ensure_ssh_config_reports_when_already_up_to_date() {
    let paths = SshPaths::from_home("/home/u", '/');
    let first = ensure_ssh_config(&paths, "Host x\n", null()).unwrap().unwrap();
    assert!(first.contains("IdentityFile \"~/.ssh/awsome\""));
    assert!(first.contains("ProxyCommand awsome ssh-proxy %p"));
    assert!(ensure_ssh_config(&paths, &first, null()).unwrap().is_none());
    assert!(ensure_ssh_config(&paths, "Host awsome\n", null()).is_err());
}

#[test]
fn null_known_hosts_depends_on_the_platform() {
    assert_eq!(get_null_known_hosts(true), "NUL");
    assert_eq!(get_null_known_hosts(false), "/dev/null");
}

#[test]
fn build_push_script_embeds_function_and_invokes_it_for_ec2_user() {
    let script = build_push_script("ssh-ed25519 AAAAKEY awsome");

    // The embedded function definition is present...
    assert!(script.contains("install_key() {"));
    assert!(script.contains("getent passwd \"$user\""));
    assert!(script.contains("install -d -m 700 -o \"$user\" -g \"$user\""));
    assert!(script.contains("grep -qF"));
    // ...and it is invoked with the remote user and the quoted key.
    assert!(script.contains("install_key ec2-user 'ssh-ed25519 AAAAKEY awsome'"));
}

#[test]
fn build_push_script_has_no_carriage_returns() {
    let script = build_push_script("ssh-ed25519 AAAAKEY awsome");
    assert!(!script.contains('\r'));
}

#[test]
fn build_push_script_escapes_single_quotes() {
    let script = build_push_script("key-with-'quote'");
    assert!(script.contains("'key-with-'\\''quote'\\'''"));
}

#[test]
fn shell_single_quote_wraps_and_escapes() {
    assert_eq!(shell_single_quote(""), "''");
    assert_eq!(shell_single_quote("a b"), "'a b'");
    assert_eq!(shell_single_quote("it's"), "'it'\\''s'");
}

#[test]
fn read_public_ssh_key_trims_the_key_file_contents() {
    let public_key = read_public_ssh_key("ssh-ed25519 AAAAC3NzaC1lZDI1NTE5AAAAITest awsome\n");
    assert_eq!(
        public_key,
        "ssh-ed25519 AAAAC3NzaC1lZDI1NTE5AAAAITest awsome"
    );
}

#[test]
fn setup_ssh_builds_the_script_for_the_trimmed_key() {
    let script = setup_ssh("  ssh-ed25519 KEY c \n");
    assert!(script.starts_with("set -eu\ninstall_key() {"));
    assert!(script.ends_with("\ninstall_key ec2-user 'ssh-ed25519 KEY c'"));
}

#[test]
fn key_files_decide_between_reuse_generate_and_refusal() {
    assert_eq!(ensure_local_ssh_key_exists(true, true), Ok(KeyAction::Reuse));
    assert_eq!(ensure_local_ssh_key_exists(false, false), Ok(KeyAction::Generate));
    assert_eq!(
        ensure_local_ssh_key_exists(true, false),
        Err(KeyCorruption { private_exists: true, public_exists: false })
    );
    assert_eq!(
        ensure_local_ssh_key_exists(false, true),
        Err(KeyCorruption { private_exists: false, public_exists: true })
    );
}

#[test]
fn derives_all_ssh_paths_from_the_user_home() {
    let paths = SshPaths::from_home("home", MAIN_SEPARATOR);

    assert_eq!(PathBuf::from(&paths.ssh_dir), PathBuf::from("home").join(".ssh"));
    assert_eq!(
        PathBuf::from(&paths.private_key),
        PathBuf::from("home").join(".ssh").join("awsome")
    );
    assert_eq!(
        PathBuf::from(&paths.public_key),
        PathBuf::from("home").join(".ssh").join("awsome.pub")
    );
    assert_eq!(
        PathBuf::from(&paths.config),
        PathBuf::from("home").join(".ssh").join("config")
    );
    assert_eq!(paths.ssh_conf_relative_private_key, "\"~/.ssh/awsome\"");
}

#[test]
fn ssh_paths_do_not_double_separators() {
    let paths = SshPaths::from_home("/home/u/", '/');
    assert_eq!(paths.ssh_dir, "/home/u/.ssh");
    assert_eq!(paths.config, "/home/u/.ssh/config");
    let windows = SshPaths::from_home("C:\\Users\\u", '\\');
    assert_eq!(windows.private_key, "C:\\Users\\u\\.ssh\\awsome");
    assert_eq!(windows.ssh_conf_relative_private_key, "\"~/.ssh/awsome\"");
}

#[test]
fn a_second_write_is_a_no_op_unless_kept_content_has_crlf_endings() {
    let block = render_managed_block("\"~/.ssh/awsome\"", "awsome ssh-proxy %p", null());
    let once = upsert_config("Host a\r\n  User x\r\n", &block).unwrap();
    assert_eq!(upsert_config(&once, &block).unwrap(), once);
    // A lone carriage return before a CRLF line ending survives the first
    // write as a CRLF, which the second write then reads as a plain ending.
    let once = upsert_config("a\r\r\nb\n", &block).unwrap();
    assert_eq!(once, format!("a\r\nb\n\n{block}\n"));
    assert_eq!(upsert_config(&once, &block).unwrap(), format!("a\nb\n\n{block}\n"));
}

#[test]
fn upsert_config_replaces_the_block_where_it_stood() {
    let conf = format!("Host a\n{MANAGED_BLOCK_BEGIN}\nold\n{MANAGED_BLOCK_END}\nHost b\n");
    let out = upsert_config(&conf, "NEW").unwrap();
    assert_eq!(out, "Host a\n\nNEW\nHost b\n");
    assert!(!out.contains("old"));
    let block = render_managed_block("k", "p", null());
    let out = upsert_config(&conf, &block).unwrap();
    assert_eq!(out, format!("Host a\n\n{block}\nHost b\n"));
    assert_eq!(upsert_config(&out, &block).unwrap(), out);
    assert_eq!(out.matches(MANAGED_BLOCK_BEGIN).count(), 1);
    assert_eq!(out.matches(MANAGED_BLOCK_END).count(), 1);
}

#[test]
fn generate_key_runs_ssh_keygen_without_a_passphrase() {
    let cmd = generate_key("/home/u/.ssh/awsome");
    assert_eq!(cmd.program, "ssh-keygen");
    assert_eq!(
        cmd.args,
        vec!["-t", "ed25519", "-f", "/home/u/.ssh/awsome", "-N", "", "-C", "awsome"]
    );
}

#[test]
fn a_bare_drive_home_joins_drive_relative() {
    let paths = SshPaths::from_home("C:", '\\');
    assert_eq!(paths.ssh_dir, "C:.ssh");
    assert_eq!(paths.private_key, "C:.ssh\\awsome");
    let unix = SshPaths::from_home("C:", '/');
    assert_eq!(unix.ssh_dir, "C:/.ssh");
}

#[test]
fn upsert_config_separates_earlier_content_by_one_blank_line() {
    let conf = format!("A\n{MANAGED_BLOCK_BEGIN}\n{MANAGED_BLOCK_END}\n");
    assert_eq!(upsert_config(&conf, "B").unwrap(), "A\n\nB\n");
    let spaced = format!("A\n\n   \n{MANAGED_BLOCK_BEGIN}\nx\n{MANAGED_BLOCK_END}\nC\n");
    assert_eq!(upsert_config(&spaced, "B").unwrap(), "A\n\nB\nC\n");
    let only_block = format!("{MANAGED_BLOCK_BEGIN}\n{MANAGED_BLOCK_END}\n\nC\n");
    assert_eq!(upsert_config(&only_block, "B").unwrap(), "B\n\nC\n");
}
