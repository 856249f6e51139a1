//! What is kept in the registry: the flags of the game lists, and the command that Windows runs
//! at startup.

use vstd::prelude::*;
use vstd::slice::slice_subrange;

use crate::lists;
use crate::lists::{sanitize_game_list_flags, INITIAL_GAME_LIST_FLAGS};
use crate::status::{is_not_found, registry_status_is, ERROR_FILE_NOT_FOUND, ERROR_SUCCESS};
use crate::text;
use crate::text::{chars_of, lower_chars, same_chars, string_of, trim_white, white_space};
use crate::wide;
use crate::wide::fixed_wide_to_string;

verus! {

/// The name of the application.
pub const APP_NAME: &'static str = "HDR Auto";

/// The key of the settings.
pub const SETTINGS_REGISTRY_SUBKEY: &'static str = "Software\\HDR Auto";

/// The name of the value that holds the flags of the game lists.
pub const GAME_LIST_FLAGS_REGISTRY_VALUE_NAME: &'static str = "GameListFlags";

/// The key of the commands that Windows runs at startup.
pub const STARTUP_REGISTRY_SUBKEY: &'static str = "Software\\Microsoft\\Windows\\CurrentVersion\\Run";

/// The name of the value that holds the startup command.
pub const STARTUP_REGISTRY_VALUE_NAME: &'static str = APP_NAME;

/// The type of a value that is a string.
pub const REG_SZ: u32 = 1;

/// The type of a value that is a 32-bit number.
pub const REG_DWORD: u32 = 4;

// ---------------------------------------------------------------------------
// The flags
// ---------------------------------------------------------------------------
/// A number as it stands in the registry.
#[derive(Clone, Copy, Debug, PartialEq, Eq, Structural)]
pub struct NumberValue {
    pub value_type: u32,
    pub value: u32,
    pub byte_len: u32,
}

/// What reading a number gave: the status of the call and what it wrote.
#[derive(Clone, Copy, Debug)]
pub struct NumberRead {
    pub status: i32,
    pub found: NumberValue,
}

/// The flags that reading them gave. The initial flags stand for a key or a value that does not
/// exist and for a value that is no 32-bit number; any other failure is handed on.
pub open spec fn flags_read(read: Result<NumberRead, i32>) -> Result<usize, i32> {
    match read {
        Err(code) => if code == ERROR_FILE_NOT_FOUND as i32 {
            Ok(INITIAL_GAME_LIST_FLAGS)
        } else {
            Err(code)
        },
        Ok(read) => if read.status == ERROR_FILE_NOT_FOUND as i32 {
            Ok(INITIAL_GAME_LIST_FLAGS)
        } else if read.status != 0 {
            Err(read.status)
        } else if read.found.value_type != REG_DWORD || read.found.byte_len != 4 {
            Ok(INITIAL_GAME_LIST_FLAGS)
        } else {
            Ok(read.found.value as usize)
        },
    }
}

/// The flags that reading them gave. `read` is the error where the key could not be opened.
pub fn saved_game_list_flags(read: Result<NumberRead, i32>) -> (r: Result<usize, i32>)
    ensures
        r == flags_read(read),
{
    let read = match read {
        Ok(read) => read,
        Err(code) => {
            return if is_not_found(Some(code)) {
                Ok(INITIAL_GAME_LIST_FLAGS)
            } else {
                Err(code)
            };
        },
    };
    if registry_status_is(read.status, ERROR_FILE_NOT_FOUND) {
        return Ok(INITIAL_GAME_LIST_FLAGS);
    }
    if !registry_status_is(read.status, ERROR_SUCCESS) {
        return Err(read.status);
    }
    if read.found.value_type != REG_DWORD || read.found.byte_len != 4 {
        return Ok(INITIAL_GAME_LIST_FLAGS);
    }
    Ok(read.found.value as usize)
}

/// The number that flags are saved as.
pub open spec fn saved_number(flags: usize) -> NumberValue {
    NumberValue { value_type: REG_DWORD, value: lists::sanitized(flags) as u32, byte_len: 4 }
}

/// The number that flags are saved as.
pub fn save_game_list_flags(flags: usize) -> (r: NumberValue)
    ensures
        r == saved_number(flags),
{
    NumberValue {
        value_type: REG_DWORD,
        value: sanitize_game_list_flags(flags) as u32,
        byte_len: 4,
    }
}

// ---------------------------------------------------------------------------
// Reading the startup command
// ---------------------------------------------------------------------------
/// Where reading the startup command stands.
#[derive(Debug)]
pub enum StartupRead {
    /// The size of the value is to be asked for.
    AskSize,
    /// The value is to be read into a buffer of this many units, all zero.
    AskValue { units: usize },
    /// There is no command.
    NoCommand,
    /// The reading failed with a code.
    Failed(i32),
}

/// Where reading the startup command stands once its key was opened or could not be.
pub fn startup_key_opened(opened: Result<(), i32>) -> (r: StartupRead)
    ensures
        r == (match opened {
            Ok(_) => StartupRead::AskSize,
            Err(code) => if code == ERROR_FILE_NOT_FOUND as i32 {
                StartupRead::NoCommand
            } else {
                StartupRead::Failed(code)
            },
        }),
{
    match opened {
        Ok(_) => StartupRead::AskSize,
        Err(code) => {
            if is_not_found(Some(code)) {
                StartupRead::NoCommand
            } else {
                StartupRead::Failed(code)
            }
        },
    }
}

/// The number of units that hold a number of bytes.
pub open spec fn units_for(byte_len: u32) -> int {
    (byte_len + 1) / 2
}

/// Where reading the startup command stands once its type and its size were asked for. A value
/// that is no string or that is empty is no command.
pub fn startup_command_sized(status: i32, value_type: u32, byte_len: u32) -> (r: StartupRead)
    ensures
        if status == ERROR_FILE_NOT_FOUND as i32 {
            r == StartupRead::NoCommand
        } else if status != 0 {
            r == StartupRead::Failed(status)
        } else if value_type != REG_SZ || byte_len == 0 {
            r == StartupRead::NoCommand
        } else {
            r matches StartupRead::AskValue { units } && units == units_for(byte_len)
        },
{
    if registry_status_is(status, ERROR_FILE_NOT_FOUND) {
        return StartupRead::NoCommand;
    }
    if !registry_status_is(status, ERROR_SUCCESS) {
        return StartupRead::Failed(status);
    }
    if value_type != REG_SZ || byte_len == 0 {
        return StartupRead::NoCommand;
    }
    let units: usize = ((byte_len as u64 + 1) / 2) as usize;
    StartupRead::AskValue { units }
}

/// The text in a buffer into which `byte_len` bytes were read: what stands before the first zero
/// unit among the units that these bytes fill.
pub open spec fn command_text(buffer: Seq<u16>, byte_len: u32) -> Seq<char> {
    let filled = if byte_len / 2 < buffer.len() {
        buffer.take((byte_len / 2) as int)
    } else {
        buffer
    };
    wide::decode_wide(wide::until_nul(filled))
}

/// The startup command from what reading its value gave.
pub fn startup_command(status: i32, buffer: Vec<u16>, byte_len: u32) -> (r: Result<Option<String>, i32>)
    ensures
        if status == ERROR_FILE_NOT_FOUND as i32 {
            r == Ok::<Option<String>, i32>(None)
        } else if status != 0 {
            r == Err::<Option<String>, i32>(status)
        } else {
            r matches Ok(Some(command)) && command@ == command_text(buffer@, byte_len)
        },
{
    if registry_status_is(status, ERROR_FILE_NOT_FOUND) {
        return Ok(None);
    }
    if !registry_status_is(status, ERROR_SUCCESS) {
        return Err(status);
    }
    let mut filled: usize = (byte_len / 2) as usize;
    if filled > buffer.len() {
        filled = buffer.len();
    }
    let units = slice_subrange(buffer.as_slice(), 0, filled);
    assert(filled == buffer@.len() ==> units@ =~= buffer@);
    assert(units@ =~= buffer@.take(filled as int));
    Ok(Some(fixed_wide_to_string(units)))
}

// ---------------------------------------------------------------------------
// What the startup command names
// ---------------------------------------------------------------------------
/// The path of the executable that a command names: what stands in double quotes where the
/// command starts with one, else the first word. A command that is blank, or whose quotes do not
/// close, names none.
pub open spec fn executable_of(command: Seq<char>) -> Option<Seq<char>> {
    let trimmed = text::trim(command);
    if trimmed.len() == 0 {
        None
    } else if trimmed[0] == '"' {
        let rest = trimmed.skip(1);
        let end = text::span(rest, text::is_not_char('"'));
        if end == rest.len() {
            None
        } else {
            Some(rest.take(end as int))
        }
    } else {
        Some(trimmed.take(text::span(trimmed, text::not_white()) as int))
    }
}

/// The path of the executable that a command names.
pub fn command_exe_path(command: &str) -> (r: Option<String>)
    ensures
        text::opt_view(r) == executable_of(command@),
{
    let all = chars_of(command);
    let trimmed = trim_white(all.as_slice());
    if trimmed.len() == 0 {
        return None;
    }
    let mut end: usize = 0;
    if trimmed[0] == '"' {
        let rest = slice_subrange(trimmed, 1, trimmed.len());
        assert(rest@ =~= trimmed@.skip(1));
        let ghost p = text::is_not_char('"');
        while end < rest.len() && rest[end] != '"'
            invariant
                p == text::is_not_char('"'),
                end <= rest@.len(),
                forall|j: int| 0 <= j < end ==> p(#[trigger] rest@[j]),
            decreases rest@.len() - end,
        {
            end = end + 1;
        }
        proof {
            text::lemma_span_is(rest@, p, end as nat);
        }
        if end == rest.len() {
            return None;
        }
        let path = slice_subrange(rest, 0, end);
        assert(path@ =~= rest@.take(end as int));
        return Some(string_of(path));
    }
    let ghost p = text::not_white();
    while end < trimmed.len() && !white_space(trimmed[end])
        invariant
            p == text::not_white(),
            end <= trimmed@.len(),
            forall|j: int| 0 <= j < end ==> p(#[trigger] trimmed@[j]),
        decreases trimmed@.len() - end,
    {
        end = end + 1;
    }
    proof {
        text::lemma_span_is(trimmed@, p, end as nat);
    }
    let path = slice_subrange(trimmed, 0, end);
    assert(path@ =~= trimmed@.take(end as int));
    Some(string_of(path))
}

/// A path as it was given and, where it could be resolved, as the file system has it.
pub struct ResolvedPath {
    pub given: String,
    pub canonical: Option<String>,
}

impl ResolvedPath {
    /// The path as it is compared.
    pub open spec fn compared(&self) -> Seq<char> {
        match self.canonical {
            Some(path) => path@,
            None => self.given@,
        }
    }

    /// The characters of the path as it is compared.
    fn compared_chars(&self) -> (r: Vec<char>)
        ensures
            r@ == self.compared(),
    {
        match &self.canonical {
            Some(path) => chars_of(path.as_str()),
            None => chars_of(self.given.as_str()),
        }
    }
}

/// Whether two paths are the same but for the case of ASCII letters.
pub fn same_path(left: &ResolvedPath, right: &ResolvedPath) -> (r: bool)
    ensures
        r == (text::lower(left.compared()) == text::lower(right.compared())),
{
    let a = lower_chars(left.compared_chars().as_slice());
    let b = lower_chars(right.compared_chars().as_slice());
    same_chars(a.as_slice(), b.as_slice())
}

/// The path of the executable that runs at startup, from what reading the startup command gave.
pub fn startup_executable<E>(command: Result<Option<String>, E>) -> (r: Option<String>)
    ensures
        text::opt_view(r) == (match command {
            Ok(Some(command)) => executable_of(command@),
            _ => None,
        }),
{
    match command {
        Ok(Some(command)) => command_exe_path(command.as_str()),
        _ => None,
    }
}

/// Whether the running executable runs at startup.
pub fn startup_enabled(current_exe: Option<ResolvedPath>, startup_exe: Option<ResolvedPath>) -> (r: bool)
    ensures
        r == (current_exe is Some && startup_exe is Some && text::lower(current_exe->0.compared())
            == text::lower(startup_exe->0.compared())),
{
    match current_exe {
        Some(current) => match startup_exe {
            Some(path) => same_path(&path, &current),
            None => false,
        },
        None => false,
    }
}

// ---------------------------------------------------------------------------
// Changing the startup command
// ---------------------------------------------------------------------------
/// A change to whether the application runs at startup.
#[derive(Clone, Copy, Debug, PartialEq, Eq, Structural)]
pub enum StartupChange {
    Enable,
    Disable,
}

/// The change that makes the application run at startup or not, as `enabled` says.
pub fn set_startup_enabled(enabled: bool) -> (r: StartupChange)
    ensures
        r == (if enabled {
            StartupChange::Enable
        } else {
            StartupChange::Disable
        }),
{
    if enabled {
        StartupChange::Enable
    } else {
        StartupChange::Disable
    }
}

/// The change that turns running at startup over, from whether it is on.
pub fn toggle_startup(enabled: bool) -> (r: StartupChange)
    ensures
        r == (if enabled {
            StartupChange::Disable
        } else {
            StartupChange::Enable
        }),
{
    set_startup_enabled(!enabled)
}

/// The units of the command that runs an executable: its path in double quotes, closed by a zero
/// unit.
pub open spec fn quoted_command(exe_path: Seq<u16>) -> Seq<u16> {
    seq![34u16] + exe_path + seq![34u16, 0u16]
}

/// The units of the command that runs an executable.
pub fn startup_command_wide(exe_path: &[u16]) -> (r: Vec<u16>)
    ensures
        r@ == quoted_command(exe_path@),
{
    let mut command: Vec<u16> = Vec::new();
    command.push(34);
    let mut i: usize = 0;
    while i < exe_path.len()
        invariant
            i <= exe_path@.len(),
            command@ == seq![34u16] + exe_path@.take(i as int),
        decreases exe_path@.len() - i,
    {
        command.push(exe_path[i]);
        i = i + 1;
        assert(command@ =~= seq![34u16] + exe_path@.take(i as int));
    }
    command.push(34);
    command.push(0);
    assert(command@ =~= quoted_command(exe_path@));
    command
}

/// A string to be written to the registry.
#[derive(Debug)]
pub struct StringValue {
    pub value_type: u32,
    pub units: Vec<u16>,
    pub byte_len: u32,
}

/// What has to be written so that an executable runs at startup, from whether the key could be
/// made and from the path of the executable. The first failure is handed on.
pub fn enable_startup<E>(key: Result<(), E>, exe_path: Result<Vec<u16>, E>) -> (r: Result<
    StringValue,
    E,
>)
    ensures
        match (key, exe_path) {
            (Err(e), _) => r == Err::<StringValue, E>(e),
            (Ok(_), Err(e)) => r == Err::<StringValue, E>(e),
            (Ok(_), Ok(path)) => r matches Ok(value) && value.value_type == REG_SZ && value.units@
                == quoted_command(path@) && value.byte_len == (2 * value.units@.len())
                % 0x1_0000_0000,
        },
{
    match key {
        Ok(_) => {},
        Err(e) => {
            return Err(e);
        },
    }
    match exe_path {
        Ok(path) => {
            let units = startup_command_wide(path.as_slice());
            let bytes: u128 = units.len() as u128 * 2;
            let byte_len: u32 = #[verifier::truncate] (bytes as u32);
            assert(bytes as u32 == bytes % 0x1_0000_0000) by (bit_vector);
            Ok(StringValue { value_type: REG_SZ, units, byte_len })
        },
        Err(e) => Err(e),
    }
}

/// What is done so that the application does not run at startup.
#[derive(Debug)]
pub enum StartupRemoval {
    /// The value is to be deleted.
    DeleteValue,
    /// It is done.
    Done(Result<(), i32>),
}

/// What is done so that the application does not run at startup, once the key was opened or could
/// not be. Where there is no key, there is nothing to do.
pub fn disable_startup(key: Result<(), i32>) -> (r: StartupRemoval)
    ensures
        r == (match key {
            Ok(_) => StartupRemoval::DeleteValue,
            Err(code) => StartupRemoval::Done(
                if code == ERROR_FILE_NOT_FOUND as i32 {
                    Ok(())
                } else {
                    Err(code)
                },
            ),
        }),
{
    match key {
        Ok(_) => StartupRemoval::DeleteValue,
        Err(code) => {
            if is_not_found(Some(code)) {
                StartupRemoval::Done(Ok(()))
            } else {
                StartupRemoval::Done(Err(code))
            }
        },
    }
}

/// What came of deleting the startup command. One that did not exist counts as deleted.
pub fn startup_command_deleted(status: i32) -> (r: Result<(), i32>)
    ensures
        r == (if status == 0 || status == ERROR_FILE_NOT_FOUND as i32 {
            Ok::<(), i32>(())
        } else {
            Err(status)
        }),
{
    if registry_status_is(status, ERROR_SUCCESS) || registry_status_is(status, ERROR_FILE_NOT_FOUND) {
        Ok(())
    } else {
        Err(status)
    }
}

// ---------------------------------------------------------------------------
// Laws
// ---------------------------------------------------------------------------
/// Flags that were saved are read again as they were in effect.
pub proof fn saved_flags_are_read_again(flags: usize)
    ensures
        flags_read(Ok(NumberRead { status: 0, found: saved_number(flags) })) == Ok::<usize, i32>(
            lists::sanitized(flags),
        ),
        lists::sanitized(lists::sanitized(flags)) == lists::sanitized(flags),
{
    lists::sanitized_flags_are_stable(flags);
}

/// The command that is written for an executable fits the buffer that its size calls for, and is
/// read back as a command for that executable, whatever the buffer holds behind it: for every path
/// without a double quote and without NUL.
pub proof fn written_command_names_the_executable(path: Seq<char>, rest: Seq<u16>, byte_len: u32)
    requires
        !path.contains('"'),
        !path.contains('\0'),
        byte_len == 2 * quoted_command(wide::encode_wide(path)).len(),
    ensures
        units_for(byte_len) == quoted_command(wide::encode_wide(path)).len(),
        executable_of(command_text(quoted_command(wide::encode_wide(path)) + rest, byte_len)) == Some(
            path,
        ),
{
    let w = wide::encode_wide(path);
    let units = quoted_command(w);
    let buffer = units + rest;
    assert(buffer.take(units.len() as int) =~= units);
    assert(rest.len() == 0 ==> buffer =~= units);
    let body = seq![34u16] + w + seq![34u16];
    wide::encoded_text_has_no_nul(path);
    assert(units =~= body.push(0));
    wide::lemma_until_nul(body, Seq::empty());
    let quoted = seq!['"'] + path + seq!['"'];
    assert(body =~= wide::encode_wide(seq!['"']) + (w + seq![34u16])) by {
        reveal_with_fuel(wide::encode_wide, 2);
        assert(wide::encode_wide(seq!['"']) =~= seq![34u16]);
    }
    assert(wide::decode_wide(seq![34u16]) =~= seq!['"']) by {
        reveal_with_fuel(wide::decode_wide, 2);
    }
    wide::encoded_text_decodes_before_anything(seq!['"'], w + seq![34u16]);
    wide::encoded_text_decodes_before_anything(path, seq![34u16]);
    assert(wide::decode_wide(body) =~= quoted);
    let white = text::white();
    text::lemma_trim_while_clean(quoted, white);
    let inner = quoted.skip(1);
    let p = text::is_not_char('"');
    assert forall|i: int| 0 <= i < path.len() implies p(#[trigger] inner[i]) by {
        assert(inner[i] == path[i]);
        if path[i] == '"' {
            assert(path.contains('"'));
        }
    }
    assert(inner[path.len() as int] == '"');
    text::lemma_span_is(inner, p, path.len());
    assert(inner.take(path.len() as int) =~= path);
}

} // verus!
