//! The command-line surface as the library models it.

use time_tracker::cli::{Cli, Command};

#[test]
fn cli_model_carries_overrides_and_command() {
    let cli = Cli {
        db_dir: Some("records.db".to_string()),
        lockfile: None,
        command: Command::Start,
    };
    assert!(matches!(cli.command, Command::Start));
    assert_eq!(cli.db_dir.as_deref(), Some("records.db"));
    assert!(cli.lockfile.is_none());
}
