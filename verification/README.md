# awsome

A small utility around the AWS CLI for managing EC2 instance state, SSO login
and first-time SSH setup, with its logic verified by Verus.

- `src/` is the verified library: the configuration of profile/instance
  groups, the `aws` invocations and the interpretation of what they print,
  login and SSM-script decisions, the shutdown scheduling arithmetic, and the
  managed `Host awsome` block of `~/.ssh/config` together with the dedicated
  key's install script. `src/text.rs` specifies the string operations these
  rely on (`lines`, `trim`, `split_whitespace`, `join`, ...), and
  `src/ssh_setup/idempotence.rs` proves that writing the managed block twice
  leaves the config unchanged and that a write leaves exactly one managed
  block, for every config whose content around the block reads back as the
  same lines (`kept_lines_clean`), which holds of every config without a
  carriage return (`lemma_no_cr_config_is_clean`).
- `app/` is the command-line program: argument parsing, running `aws` and
  `ssh-keygen`, files, prompts and terminal output.
- `tests/` exercises the library on concrete values.
