use awsome::cli::{Cli, Command, ConfigureAction};

#[test]
fn no_command_defaults_to_start_without_a_shutdown() {
    let (command, is_default) = Cli { command: None }.command_or_default();
    assert!(is_default);
    assert!(matches!(command, Command::Start { schedule_shutdown: None }));
    let (command, is_default) = Cli {
        command: Some(Command::Configure { action: ConfigureAction::Show }),
    }
    .command_or_default();
    assert!(!is_default);
    assert!(matches!(command, Command::Configure { action: ConfigureAction::Show }));
}
