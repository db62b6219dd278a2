//! The client shell frontend's decisions: where a keystroke chunk triggers
//! the menu and how the chunk is split around it, what each menu keystroke
//! does, how the cursor is addressed, and the line printed when the session
//! ends.

use vstd::prelude::*;
use vstd::slice::{slice_subrange, slice_to_vec};
use vstd::string::StrSliceExecFns;
use vstd::string::StringExecFns;

use crate::router::{Input, InputV};
use crate::scan::{find_byte_from, lemma_find_byte, spec_find_byte};

verus! {

/// The byte that opens the menu overlay: control-Z.
pub const MENU_CHAR: u8 = 26;

/// Finds the menu trigger in a keystroke chunk: the position of the first
/// control-Z byte, if any.
pub fn find_menu_trigger(chunk: &[u8]) -> (r: Option<usize>)
    ensures
        match r {
            Some(p) => p < chunk@.len() && chunk@[p as int] == MENU_CHAR && forall|j: int|
                0 <= j < p ==> chunk@[j] != MENU_CHAR,
            None => forall|j: int| 0 <= j < chunk@.len() ==> chunk@[j] != MENU_CHAR,
        },
{
    assert(chunk@.skip(0) =~= chunk@);
    proof {
        lemma_find_byte(chunk@, MENU_CHAR);
    }
    find_byte_from(chunk, MENU_CHAR, 0)
}

/// The inputs sent before the menu opens: the bytes ahead of the trigger,
/// when there are any, then the stop request.
pub open spec fn spec_menu_inputs_before(chunk: Seq<u8>, p: int) -> Seq<InputV> {
    if p > 0 {
        seq![InputV::Data(chunk.take(p)), InputV::Stop]
    } else {
        seq![InputV::Stop]
    }
}

/// The inputs sent after the menu closes without quitting: the continue
/// request, then the bytes past the trigger, when there are any.
pub open spec fn spec_menu_inputs_after(chunk: Seq<u8>, p: int) -> Seq<InputV> {
    if p + 1 < chunk.len() {
        seq![InputV::Continue, InputV::Data(chunk.skip(p + 1))]
    } else {
        seq![InputV::Continue]
    }
}

/// The view of a sequence of inputs.
pub open spec fn spec_inputs(v: Seq<Input>) -> Seq<InputV> {
    v.map_values(|i: Input| i@)
}

/// The inputs to send before opening the menu, for a chunk whose trigger
/// stands at `p`: `Data(chunk[..p])` — omitted when `p` is 0 — then `Stop`.
pub fn menu_inputs_before(chunk: &[u8], p: usize) -> (r: Vec<Input>)
    requires
        p < chunk@.len(),
    ensures
        spec_inputs(r@) == spec_menu_inputs_before(chunk@, p as int),
{
    let mut r: Vec<Input> = Vec::new();
    if p > 0 {
        r.push(Input::Data(slice_to_vec(slice_subrange(chunk, 0, p))));
        assert(chunk@.subrange(0, p as int) =~= chunk@.take(p as int));
    }
    r.push(Input::Stop);
    assert(spec_inputs(r@) =~= spec_menu_inputs_before(chunk@, p as int));
    r
}

/// The inputs to send after the menu closes without quitting, for a chunk
/// whose trigger stands at `p`: `Continue`, then `Data(chunk[p+1..])` —
/// omitted when the trigger is the last byte.
pub fn menu_inputs_after(chunk: &[u8], p: usize) -> (r: Vec<Input>)
    requires
        p < chunk@.len(),
    ensures
        spec_inputs(r@) == spec_menu_inputs_after(chunk@, p as int),
{
    let len = chunk.len();
    let mut r: Vec<Input> = Vec::new();
    r.push(Input::Continue);
    if p + 1 < len {
        r.push(Input::Data(slice_to_vec(slice_subrange(chunk, p + 1, len))));
        assert(chunk@.subrange(p as int + 1, chunk@.len() as int) =~= chunk@.skip(p as int + 1));
    }
    assert(spec_inputs(r@) =~= spec_menu_inputs_after(chunk@, p as int));
    r
}

/// Ordering around the menu: for a chunk whose first trigger byte stands at
/// `p`, the outbound inputs are exactly `Data(chunk[..p])` (omitted when `p`
/// is 0), `Stop`, then — after the menu interaction — `Continue`,
/// `Data(chunk[p+1..])` (omitted when `p` is the last position); and the two
/// data parts together with the trigger byte reassemble the chunk, so no
/// byte is lost or reordered.
pub proof fn lemma_menu_ordering(chunk: Seq<u8>, p: int)
    requires
        0 <= p < chunk.len(),
        chunk[p] == MENU_CHAR,
    ensures
        spec_menu_inputs_before(chunk, p) == if p > 0 {
            seq![InputV::Data(chunk.take(p)), InputV::Stop]
        } else {
            seq![InputV::Stop]
        },
        spec_menu_inputs_after(chunk, p) == if p + 1 < chunk.len() {
            seq![InputV::Continue, InputV::Data(chunk.skip(p + 1))]
        } else {
            seq![InputV::Continue]
        },
        chunk.take(p) + seq![MENU_CHAR] + chunk.skip(p + 1) == chunk,
{
    assert(chunk.take(p) + seq![MENU_CHAR] + chunk.skip(p + 1) =~= chunk);
}

/// What one menu keystroke means.
#[derive(Clone, Copy, Debug, PartialEq, Eq, Structural)]
pub enum MenuChoice {
    /// End the session.
    Quit,
    /// Close the menu and resume.
    Cancel,
    /// Show the unknown-command banner, then resume.
    Unknown,
}

/// The meaning of a menu keystroke: `q` quits, escape or `x` cancels,
/// anything else is unknown.
pub open spec fn spec_menu_choice(key: u8) -> MenuChoice {
    if key == 0x71 {
        MenuChoice::Quit
    } else if key == 0x1b || key == 0x78 {
        MenuChoice::Cancel
    } else {
        MenuChoice::Unknown
    }
}

/// Interprets the keystroke read while the menu is open.
pub fn menu_choice(key: u8) -> (r: MenuChoice)
    ensures
        r == spec_menu_choice(key),
{
    if key == 0x71 {
        MenuChoice::Quit
    } else if key == 0x1b || key == 0x78 {
        MenuChoice::Cancel
    } else {
        MenuChoice::Unknown
    }
}

/// The character of one decimal digit.
pub open spec fn spec_digit(d: nat) -> char {
    if d == 0 {
        '0'
    } else if d == 1 {
        '1'
    } else if d == 2 {
        '2'
    } else if d == 3 {
        '3'
    } else if d == 4 {
        '4'
    } else if d == 5 {
        '5'
    } else if d == 6 {
        '6'
    } else if d == 7 {
        '7'
    } else if d == 8 {
        '8'
    } else {
        '9'
    }
}

/// The decimal digits of `n`, most significant first, without leading
/// zeroes (`0` is written as one digit).
pub open spec fn spec_decimal(n: nat) -> Seq<char>
    decreases n,
{
    if n < 10 {
        seq![spec_digit(n)]
    } else {
        spec_decimal(n / 10) + seq![spec_digit(n % 10)]
    }
}

/// One decimal digit as a borrowed string.
fn digit_str(d: u64) -> (r: &'static str)
    requires
        d < 10,
    ensures
        r@ == seq![spec_digit(d as nat)],
{
    proof {
        reveal_strlit("0");
        reveal_strlit("1");
        reveal_strlit("2");
        reveal_strlit("3");
        reveal_strlit("4");
        reveal_strlit("5");
        reveal_strlit("6");
        reveal_strlit("7");
        reveal_strlit("8");
        reveal_strlit("9");
    }
    let r = if d == 0 {
        "0"
    } else if d == 1 {
        "1"
    } else if d == 2 {
        "2"
    } else if d == 3 {
        "3"
    } else if d == 4 {
        "4"
    } else if d == 5 {
        "5"
    } else if d == 6 {
        "6"
    } else if d == 7 {
        "7"
    } else if d == 8 {
        "8"
    } else {
        "9"
    };
    assert(r@ =~= seq![spec_digit(d as nat)]);
    r
}

/// Appends the decimal digits of `n`.
pub fn write_decimal(out: &mut String, n: u64)
    ensures
        final(out)@ == old(out)@ + spec_decimal(n as nat),
    decreases n,
{
    if n < 10 {
        out.append(digit_str(n));
        assert(out@ =~= old(out)@ + spec_decimal(n as nat));
    } else {
        write_decimal(out, n / 10);
        out.append(digit_str(n % 10));
        assert(out@ =~= old(out)@ + spec_decimal(n as nat));
    }
}

/// The decimal rendering of `n`.
pub fn decimal_string(n: u64) -> (r: String)
    ensures
        r@ == spec_decimal(n as nat),
{
    let mut s = String::new();
    write_decimal(&mut s, n);
    assert(s@ =~= spec_decimal(n as nat));
    s
}

/// The exit code the shell backend reports for an abnormal child death.
pub const ABNORMAL_EXIT: u8 = 255;

/// The line printed when the session ends: the child's exit code, or the
/// abnormal-death notice for the sentinel code.
pub open spec fn spec_exit_message(code: u8) -> Seq<char> {
    if code == ABNORMAL_EXIT {
        "Process died unusually"@
    } else {
        "Process exited with code "@ + spec_decimal(code as nat)
    }
}

/// The line to print when the session ends with the given exit code.
pub fn exit_message(code: u8) -> (r: String)
    ensures
        r@ == spec_exit_message(code),
{
    if code == ABNORMAL_EXIT {
        let mut s = String::new();
        s.append("Process died unusually");
        assert(s@ =~= spec_exit_message(code));
        s
    } else {
        let mut s = String::new();
        s.append("Process exited with code ");
        write_decimal(&mut s, code as u64);
        assert(s@ =~= spec_exit_message(code));
        s
    }
}

/// The escape sequence that moves the cursor to the given one-based row and
/// column.
pub open spec fn spec_move_cursor(row: u16, col: u16) -> Seq<char> {
    "\x1b["@ + spec_decimal(row as nat) + ";"@ + spec_decimal(col as nat) + "H"@
}

/// The escape sequence addressing the one-based row and column, written as
/// `ESC [ row ; col H`.
pub fn move_cursor_string(row: u16, col: u16) -> (r: String)
    ensures
        r@ == spec_move_cursor(row, col),
{
    let mut s = String::new();
    s.append("\x1b[");
    write_decimal(&mut s, row as u64);
    s.append(";");
    write_decimal(&mut s, col as u64);
    s.append("H");
    assert(s@ =~= spec_move_cursor(row, col));
    s
}

} // verus!
