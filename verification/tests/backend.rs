//! Backend decision behaviour: the shell backend's commands, wait-status
//! interpretation, and the port-forward backend's commands.

use autobahn::router::Input;
use autobahn::shell::{
    exit_code, portfwd_command, shell_command, ChildSignal, PortfwdCommand, PtySize, ShellCommand,
    ABNORMAL_STATUS,
};

#[test]
fn shell_commands_for_each_input() {
    assert_eq!(
        shell_command(Input::Data(b"ls\n".to_vec())),
        ShellCommand::Write(b"ls\n".to_vec())
    );
    assert_eq!(shell_command(Input::Continue), ShellCommand::Signal(ChildSignal::Cont));
    assert_eq!(shell_command(Input::Stop), ShellCommand::Signal(ChildSignal::Stop));
    assert_eq!(shell_command(Input::End), ShellCommand::Kill);
}

#[test]
fn winch_sets_rows_then_cols() {
    // A window change of 120 columns and 40 rows resizes the terminal to
    // 40 rows and 120 columns.
    assert_eq!(
        shell_command(Input::Winch(120, 40)),
        ShellCommand::Resize(PtySize { rows: 40, cols: 120 })
    );
}

#[test]
fn exit_codes_from_wait_status() {
    // A normal exit carries the code in the second byte of the status.
    assert_eq!(exit_code(0), 0);
    assert_eq!(exit_code(42 << 8), 42);
    assert_eq!(exit_code(255 << 8), 255);
    // Termination by a signal is reported with the abnormal sentinel.
    assert_eq!(exit_code(9), ABNORMAL_STATUS);
    assert_eq!(exit_code(0x008b), ABNORMAL_STATUS);
}

#[test]
fn portfwd_commands() {
    assert!(matches!(
        portfwd_command(Input::Data(b"ping".to_vec())),
        PortfwdCommand::Write(w) if w == b"ping".to_vec()
    ));
    assert!(matches!(portfwd_command(Input::End), PortfwdCommand::Shutdown));
}
