//! Decisions of the two server-side session backends. The shell backend
//! turns each input event into a command against the pseudo-terminal and the
//! child process; the port-forward backend turns its events into commands
//! against the upstream TCP connection. The interpretation of the child's
//! wait status lives here too.

use vstd::prelude::*;

use crate::router::{Input, InputV};

verus! {

/// A signal the shell backend delivers to its child.
#[derive(Clone, Copy, Debug, PartialEq, Eq, Structural)]
pub enum ChildSignal {
    /// Resume a stopped child.
    Cont,
    /// Stop the child while the menu is open.
    Stop,
    /// Tell the child that the terminal size changed.
    Winch,
}

/// A pseudo-terminal size: rows, then columns, as the kernel's window-size
/// structure orders them.
#[derive(Clone, Copy, Debug, PartialEq, Eq, Structural)]
pub struct PtySize {
    pub rows: u16,
    pub cols: u16,
}

/// One command the shell backend performs.
#[derive(Clone, Debug, PartialEq)]
pub enum ShellCommand {
    /// Write these bytes to the pseudo-terminal master.
    Write(Vec<u8>),
    /// Deliver this signal to the child.
    Signal(ChildSignal),
    /// Set the pseudo-terminal size to this, then tell the child with a
    /// window-change signal.
    Resize(PtySize),
    /// Kill the child and stop servicing the session.
    Kill,
}

/// The mathematical image of a [`ShellCommand`].
#[verifier::ext_equal]
pub enum ShellCommandV {
    Write(Seq<u8>),
    Signal(ChildSignal),
    Resize(PtySize),
    Kill,
}

impl View for ShellCommand {
    type V = ShellCommandV;

    open spec fn view(&self) -> ShellCommandV {
        match self {
            ShellCommand::Write(d) => ShellCommandV::Write(d@),
            ShellCommand::Signal(s) => ShellCommandV::Signal(*s),
            ShellCommand::Resize(size) => ShellCommandV::Resize(*size),
            ShellCommand::Kill => ShellCommandV::Kill,
        }
    }
}

/// The command the shell backend performs for one input event. A window
/// change of `cols` columns and `rows` rows resizes the pseudo-terminal to
/// `rows` rows and `cols` columns.
pub open spec fn spec_shell_command(i: InputV) -> ShellCommandV {
    match i {
        InputV::Data(d) => ShellCommandV::Write(d),
        InputV::Continue => ShellCommandV::Signal(ChildSignal::Cont),
        InputV::Stop => ShellCommandV::Signal(ChildSignal::Stop),
        InputV::Winch(cols, rows) => ShellCommandV::Resize(PtySize { rows, cols }),
        InputV::End => ShellCommandV::Kill,
    }
}

/// Maps one input event to the shell backend's command.
pub fn shell_command(i: Input) -> (r: ShellCommand)
    ensures
        r@ == spec_shell_command(i@),
{
    match i {
        Input::Data(d) => ShellCommand::Write(d),
        Input::Continue => ShellCommand::Signal(ChildSignal::Cont),
        Input::Stop => ShellCommand::Signal(ChildSignal::Stop),
        Input::Winch(cols, rows) => ShellCommand::Resize(PtySize { rows, cols }),
        Input::End => ShellCommand::Kill,
    }
}

/// Window size mirrors the window-change event: after `Winch(cols, rows)`
/// the pseudo-terminal is set to exactly `rows` rows and `cols` columns, so
/// a query of its size returns `(rows, cols)`.
pub proof fn lemma_winch_mirrors_size(cols: u16, rows: u16)
    ensures
        spec_shell_command(InputV::Winch(cols, rows)) == ShellCommandV::Resize(
            PtySize { rows, cols },
        ),
{
}

/// The exit code reported for an abnormally terminated child.
pub const ABNORMAL_STATUS: u8 = 255;

/// The exit code reported for a reaped child with the given wait status: the
/// low byte of the child's exit status when it exited normally (low seven
/// status bits clear), the abnormal-death sentinel otherwise.
pub open spec fn spec_exit_code(status: i32) -> u8 {
    let u = status as u32;
    if u & 0x7f == 0 {
        ((u >> 8) & 0xff) as u8
    } else {
        ABNORMAL_STATUS
    }
}

/// Interprets a child's wait status as the exit code the tunnel reports.
pub fn exit_code(status: i32) -> (r: u8)
    ensures
        r == spec_exit_code(status),
{
    let u = status as u32;
    if u & 0x7f == 0 {
        assert((u >> 8) & 0xff < 0x100) by (bit_vector);
        ((u >> 8) & 0xff) as u8
    } else {
        ABNORMAL_STATUS
    }
}

/// One command the port-forward backend performs.
#[derive(Clone, Debug, PartialEq)]
pub enum PortfwdCommand {
    /// Write these bytes to the upstream TCP connection.
    Write(Vec<u8>),
    /// Shut the upstream connection down in both directions and stop.
    Shutdown,
}

/// The command the port-forward backend performs for one input event. Only
/// data and the end of the session ever reach a port-forward backend.
pub fn portfwd_command(i: Input) -> (r: PortfwdCommand)
    requires
        i@ matches InputV::Data(_) || i@ is End,
    ensures
        (i@ matches InputV::Data(d) ==> r matches PortfwdCommand::Write(w) && w@ == d),
        (i@ is End ==> r is Shutdown),
{
    match i {
        Input::Data(d) => PortfwdCommand::Write(d),
        _ => PortfwdCommand::Shutdown,
    }
}

} // verus!
