//! The tray icon: its menu, the messages of its window, and how it is set up and taken down.

use vstd::prelude::*;

use crate::hdr::toggle_hdr_menu_text;
use crate::lists;
use crate::lists::{default_list_enabled, game_list_flags};
use crate::status::ERROR_ALREADY_EXISTS;
use crate::text;
use crate::text::push_signed_decimal;

verus! {

// ---------------------------------------------------------------------------
// One instance
// ---------------------------------------------------------------------------
/// The name of the mutex that the running instance holds.
pub const SINGLE_INSTANCE_MUTEX: &'static str = "Local\\HdrAutoSingleInstance";

/// Whether this instance may run.
#[derive(Clone, Copy, Debug, PartialEq, Eq, Structural)]
pub enum SingleInstance {
    /// It is the only one.
    Acquired,
    /// Another one runs already.
    AlreadyRunning,
    /// The mutex could not be made; the operating system knows why.
    Failed,
}

impl SingleInstance {
    /// Whether this instance may run, from whether the mutex could be made and from the error code
    /// after that.
    pub fn acquire(created: bool, last_error: u32) -> (r: Self)
        ensures
            r == (if !created {
                SingleInstance::Failed
            } else if last_error == ERROR_ALREADY_EXISTS {
                SingleInstance::AlreadyRunning
            } else {
                SingleInstance::Acquired
            }),
    {
        if !created {
            return SingleInstance::Failed;
        }
        if last_error == ERROR_ALREADY_EXISTS {
            return SingleInstance::AlreadyRunning;
        }
        SingleInstance::Acquired
    }
}

// ---------------------------------------------------------------------------
// The menu
// ---------------------------------------------------------------------------
pub const MENU_TOGGLE_HDR: usize = 1001;

pub const MENU_USE_DEFAULT_LIST: usize = 1002;

pub const MENU_RELOAD_GAME_LISTS: usize = 1003;

pub const MENU_EDIT_CUSTOM_LIST: usize = 1004;

pub const MENU_EDIT_EXCLUSION_LIST: usize = 1007;

pub const MENU_RUN_AT_STARTUP: usize = 1005;

pub const MENU_QUIT: usize = 1006;

pub const MF_STRING: u32 = 0;

pub const MF_UNCHECKED: u32 = 0;

pub const MF_CHECKED: u32 = 8;

pub const MF_SEPARATOR: u32 = 0x800;

/// What an item of the menu does.
#[derive(Clone, Copy, Debug, PartialEq, Eq, Structural)]
pub enum MenuCommand {
    ToggleHdr,
    UseDefaultList,
    ReloadGameLists,
    EditCustomList,
    EditExclusionList,
    RunAtStartup,
    Quit,
}

/// The number of the item that does `command`.
pub open spec fn menu_id(command: MenuCommand) -> usize {
    match command {
        MenuCommand::ToggleHdr => MENU_TOGGLE_HDR,
        MenuCommand::UseDefaultList => MENU_USE_DEFAULT_LIST,
        MenuCommand::ReloadGameLists => MENU_RELOAD_GAME_LISTS,
        MenuCommand::EditCustomList => MENU_EDIT_CUSTOM_LIST,
        MenuCommand::EditExclusionList => MENU_EDIT_EXCLUSION_LIST,
        MenuCommand::RunAtStartup => MENU_RUN_AT_STARTUP,
        MenuCommand::Quit => MENU_QUIT,
    }
}

/// The mark of an item that is checked or not.
pub open spec fn check_mark(condition: bool) -> u32 {
    if condition {
        MF_CHECKED
    } else {
        MF_UNCHECKED
    }
}

/// The mark of an item that is checked where `condition` holds.
pub fn checked_if(condition: bool) -> (r: u32)
    ensures
        r == check_mark(condition),
{
    if condition {
        MF_CHECKED
    } else {
        MF_UNCHECKED
    }
}

/// An entry of the menu as it is appended to it. A separator has no text.
#[derive(Clone, Copy, Debug)]
pub struct MenuEntry {
    pub flags: u32,
    pub id: usize,
    pub text: Option<&'static str>,
}

/// An entry of the menu, with its text as a sequence.
pub struct MenuItem {
    pub flags: u32,
    pub id: usize,
    pub text: Option<Seq<char>>,
}

impl View for MenuEntry {
    type V = MenuItem;

    open spec fn view(&self) -> MenuItem {
        MenuItem { flags: self.flags, id: self.id, text: text::opt_str_view(self.text) }
    }
}

/// An item that does `command`.
pub open spec fn item(command: MenuCommand, text: Seq<char>, checked: bool) -> MenuItem {
    MenuItem { flags: check_mark(checked), id: menu_id(command), text: Some(text) }
}

/// A separator.
pub open spec fn separator() -> MenuItem {
    MenuItem { flags: MF_SEPARATOR, id: 0, text: None }
}

/// The menu: what switches HDR says what it will do, the community list is checked where it is in
/// use, and running at startup is checked where it is on.
pub open spec fn menu(hdr_is_on: bool, flags: usize, run_at_startup: bool) -> Seq<MenuItem> {
    seq![
        item(
            MenuCommand::ToggleHdr,
            if hdr_is_on {
                "Toggle HDR Off"@
            } else {
                "Toggle HDR On"@
            },
            false,
        ),
        separator(),
        item(MenuCommand::UseDefaultList, "Use default game list"@, lists::uses_default(flags)),
        item(MenuCommand::EditCustomList, "Edit custom game list"@, false),
        item(MenuCommand::EditExclusionList, "Edit exclusion list"@, false),
        item(MenuCommand::ReloadGameLists, "Reload game lists"@, false),
        separator(),
        item(MenuCommand::RunAtStartup, "Run at Windows startup"@, run_at_startup),
        separator(),
        item(MenuCommand::Quit, "Quit"@, false),
    ]
}

/// An entry with a text.
fn entry(flags: u32, id: usize, text: &'static str) -> (r: MenuEntry)
    ensures
        r@ == (MenuItem { flags, id, text: Some(text@) }),
{
    MenuEntry { flags, id, text: Some(text) }
}

/// An entry that separates others.
fn separator_entry() -> (r: MenuEntry)
    ensures
        r@ == separator(),
{
    MenuEntry { flags: MF_SEPARATOR, id: 0, text: None }
}

/// The entries of the menu, in the order in which they are appended to it. HDR counts as off where
/// it is not known.
pub fn show_context_menu<E>(
    hdr_enabled: Result<bool, E>,
    active_flags: Option<usize>,
    run_at_startup: bool,
) -> (r: Vec<MenuEntry>)
    ensures
        r@.map_values(|e: MenuEntry| e@) == menu(
            hdr_enabled matches Ok(on) && on,
            lists::flags_in_use(active_flags),
            run_at_startup,
        ),
{
    let toggle = toggle_hdr_menu_text(hdr_enabled);
    let current_game_list_flags: usize = game_list_flags(active_flags);
    let default_mark: u32 = checked_if(default_list_enabled(current_game_list_flags));
    let startup_mark: u32 = checked_if(run_at_startup);
    proof {
        assert(0u32 | 0 == 0 && 0u32 | 8 == 8) by (bit_vector);
    }
    let mut r: Vec<MenuEntry> = Vec::new();
    r.push(entry(MF_STRING, MENU_TOGGLE_HDR, toggle));
    r.push(separator_entry());
    r.push(entry(MF_STRING | default_mark, MENU_USE_DEFAULT_LIST, "Use default game list"));
    r.push(entry(MF_STRING, MENU_EDIT_CUSTOM_LIST, "Edit custom game list"));
    r.push(entry(MF_STRING, MENU_EDIT_EXCLUSION_LIST, "Edit exclusion list"));
    r.push(entry(MF_STRING, MENU_RELOAD_GAME_LISTS, "Reload game lists"));
    r.push(separator_entry());
    r.push(entry(MF_STRING | startup_mark, MENU_RUN_AT_STARTUP, "Run at Windows startup"));
    r.push(separator_entry());
    r.push(entry(MF_STRING, MENU_QUIT, "Quit"));
    assert(r@.map_values(|e: MenuEntry| e@) =~= menu(
        hdr_enabled matches Ok(on) && on,
        lists::flags_in_use(active_flags),
        run_at_startup,
    ));
    r
}

// ---------------------------------------------------------------------------
// Messages
// ---------------------------------------------------------------------------
pub const WM_DESTROY: u32 = 2;

pub const WM_CLOSE: u32 = 0x10;

pub const WM_COMMAND: u32 = 0x111;

pub const WM_LBUTTONDBLCLK: u32 = 0x203;

pub const WM_RBUTTONUP: u32 = 0x205;

pub const WM_APP: u32 = 0x8000;

/// The message that the tray icon sends.
pub const WM_TRAY_ICON: u32 = WM_APP + 1;

/// What the window does on a message.
#[derive(Clone, Copy, Debug, PartialEq, Eq, Structural)]
pub enum WindowAction {
    /// Show the menu.
    ShowMenu,
    /// Do what an item of the menu does.
    Run(MenuCommand),
    /// Take the tray icon down and end the message loop.
    TakeDown,
    /// Nothing.
    Nothing,
    /// What Windows does by default.
    Default,
}

/// The low word of a number.
pub fn loword(value: usize) -> (r: u16)
    ensures
        r == value % 0x10000,
{
    assert((value & 0xffff) as u16 == value % 0x10000) by (bit_vector);
    (value & 0xffff) as u16
}

/// What the item with the number `id` does; nothing where there is no such item.
pub open spec fn command_of(id: int) -> Option<MenuCommand> {
    if id == MENU_TOGGLE_HDR {
        Some(MenuCommand::ToggleHdr)
    } else if id == MENU_USE_DEFAULT_LIST {
        Some(MenuCommand::UseDefaultList)
    } else if id == MENU_RELOAD_GAME_LISTS {
        Some(MenuCommand::ReloadGameLists)
    } else if id == MENU_EDIT_CUSTOM_LIST {
        Some(MenuCommand::EditCustomList)
    } else if id == MENU_EDIT_EXCLUSION_LIST {
        Some(MenuCommand::EditExclusionList)
    } else if id == MENU_RUN_AT_STARTUP {
        Some(MenuCommand::RunAtStartup)
    } else if id == MENU_QUIT {
        Some(MenuCommand::Quit)
    } else {
        None
    }
}

/// What the item with the number `id` does.
pub fn menu_command(id: usize) -> (r: Option<MenuCommand>)
    ensures
        r == command_of(id as int),
{
    if id == MENU_TOGGLE_HDR {
        Some(MenuCommand::ToggleHdr)
    } else if id == MENU_USE_DEFAULT_LIST {
        Some(MenuCommand::UseDefaultList)
    } else if id == MENU_RELOAD_GAME_LISTS {
        Some(MenuCommand::ReloadGameLists)
    } else if id == MENU_EDIT_CUSTOM_LIST {
        Some(MenuCommand::EditCustomList)
    } else if id == MENU_EDIT_EXCLUSION_LIST {
        Some(MenuCommand::EditExclusionList)
    } else if id == MENU_RUN_AT_STARTUP {
        Some(MenuCommand::RunAtStartup)
    } else if id == MENU_QUIT {
        Some(MenuCommand::Quit)
    } else {
        None
    }
}

/// What the window does on a message. The low word of `wparam` is the number of an item where the
/// message is a command; the low 32 bits of `lparam` are a mouse message where it comes from the
/// tray icon.
pub open spec fn action_on(msg: u32, wparam: usize, lparam: isize) -> WindowAction {
    if msg == WM_TRAY_ICON {
        if lparam as u32 == WM_RBUTTONUP {
            WindowAction::ShowMenu
        } else if lparam as u32 == WM_LBUTTONDBLCLK {
            WindowAction::Run(MenuCommand::ToggleHdr)
        } else {
            WindowAction::Nothing
        }
    } else if msg == WM_COMMAND {
        match command_of((wparam % 0x10000) as int) {
            Some(command) => WindowAction::Run(command),
            None => WindowAction::Nothing,
        }
    } else if msg == WM_CLOSE {
        WindowAction::Run(MenuCommand::Quit)
    } else if msg == WM_DESTROY {
        WindowAction::TakeDown
    } else {
        WindowAction::Default
    }
}

/// What the window does on a message.
pub fn window_proc(msg: u32, wparam: usize, lparam: isize) -> (r: WindowAction)
    ensures
        r == action_on(msg, wparam, lparam),
{
    if msg == WM_TRAY_ICON {
        let mouse: u32 = #[verifier::truncate] (lparam as u32);
        if mouse == WM_RBUTTONUP {
            WindowAction::ShowMenu
        } else if mouse == WM_LBUTTONDBLCLK {
            WindowAction::Run(MenuCommand::ToggleHdr)
        } else {
            WindowAction::Nothing
        }
    } else if msg == WM_COMMAND {
        match menu_command(loword(wparam) as usize) {
            Some(command) => WindowAction::Run(command),
            None => WindowAction::Nothing,
        }
    } else if msg == WM_CLOSE {
        WindowAction::Run(MenuCommand::Quit)
    } else if msg == WM_DESTROY {
        WindowAction::TakeDown
    } else {
        WindowAction::Default
    }
}

/// What the message loop does after it asked for a message.
#[derive(Clone, Copy, Debug, PartialEq, Eq, Structural)]
pub enum LoopStep {
    /// Hand the message to its window.
    Dispatch,
    /// End.
    End,
    /// Fail; the operating system knows why.
    Fail,
}

/// What the message loop does after it asked for a message, by what that call returned.
pub fn message_loop(status: i32) -> (r: LoopStep)
    ensures
        r == (if status == -1 {
            LoopStep::Fail
        } else if status == 0 {
            LoopStep::End
        } else {
            LoopStep::Dispatch
        }),
{
    if status == -1 {
        LoopStep::Fail
    } else if status == 0 {
        LoopStep::End
    } else {
        LoopStep::Dispatch
    }
}

// ---------------------------------------------------------------------------
// Setting up
// ---------------------------------------------------------------------------
/// The name of the class of the tray window.
pub const CLASS_NAME: &'static str = "HdrAutoTrayWindow";

/// The next step in setting the tray up.
#[derive(Clone, Copy, Debug, PartialEq, Eq, Structural)]
pub enum TrayStep {
    /// Find the module of the executable.
    FindModule,
    /// Register the class of the window.
    RegisterClass,
    /// Make the window.
    CreateWindow,
    /// Add the icon.
    AddIcon,
    /// Run the message loop.
    RunMessageLoop,
    /// Give up with the error of the last step.
    GiveUp,
}

/// The step after `step`. Setting up stops at the first step that fails.
pub open spec fn tray_step_after(step: TrayStep, succeeded: bool) -> TrayStep {
    match step {
        TrayStep::RunMessageLoop => TrayStep::RunMessageLoop,
        TrayStep::GiveUp => TrayStep::GiveUp,
        _ => if !succeeded {
            TrayStep::GiveUp
        } else {
            match step {
                TrayStep::FindModule => TrayStep::RegisterClass,
                TrayStep::RegisterClass => TrayStep::CreateWindow,
                TrayStep::CreateWindow => TrayStep::AddIcon,
                _ => TrayStep::RunMessageLoop,
            }
        },
    }
}

/// The step after `step`, by whether `step` succeeded.
pub fn run_tray_app(step: TrayStep, succeeded: bool) -> (r: TrayStep)
    ensures
        r == tray_step_after(step, succeeded),
{
    match step {
        TrayStep::RunMessageLoop => TrayStep::RunMessageLoop,
        TrayStep::GiveUp => TrayStep::GiveUp,
        TrayStep::FindModule => if succeeded {
            TrayStep::RegisterClass
        } else {
            TrayStep::GiveUp
        },
        TrayStep::RegisterClass => if succeeded {
            TrayStep::CreateWindow
        } else {
            TrayStep::GiveUp
        },
        TrayStep::CreateWindow => if succeeded {
            TrayStep::AddIcon
        } else {
            TrayStep::GiveUp
        },
        TrayStep::AddIcon => if succeeded {
            TrayStep::RunMessageLoop
        } else {
            TrayStep::GiveUp
        },
    }
}

// ---------------------------------------------------------------------------
// The icon
// ---------------------------------------------------------------------------
/// The name of the icon file.
pub const ICON_FILE_NAME: &'static str = "icon_tray.png";

/// Where the icon file stands.
#[derive(Clone, Copy, Debug, PartialEq, Eq, Structural)]
pub enum IconPlace {
    /// Beside the executable.
    Executable,
    /// In the working directory.
    Working,
}

/// Where the icon file stands. Each argument says whether the file exists there, and is missing
/// where the directory is not known.
pub fn icon_path(beside_executable: Option<bool>, in_working_dir: Option<bool>) -> (r: Option<IconPlace>)
    ensures
        r == (if beside_executable == Some(true) {
            Some(IconPlace::Executable)
        } else if in_working_dir == Some(true) {
            Some(IconPlace::Working)
        } else {
            None
        }),
{
    if let Some(exists) = beside_executable {
        if exists {
            return Some(IconPlace::Executable);
        }
    }
    match in_working_dir {
        Some(exists) => {
            if exists {
                Some(IconPlace::Working)
            } else {
                None
            }
        },
        None => None,
    }
}

/// The next step in loading the icon.
#[derive(Clone, Copy, Debug, PartialEq, Eq, Structural)]
pub enum IconStep {
    /// Load the icon that is part of the executable.
    LoadEmbedded,
    /// Load the icon file.
    LoadFile,
    /// Load the icon that Windows has for applications.
    LoadSystem,
    /// Use the icon that was loaded last. One that is owned has to be destroyed in the end.
    Use { owned: bool },
}

/// The step after `step`.
pub open spec fn icon_step_after(step: IconStep, loaded: bool) -> IconStep {
    match step {
        IconStep::LoadEmbedded => if loaded {
            IconStep::Use { owned: true }
        } else {
            IconStep::LoadFile
        },
        IconStep::LoadFile => if loaded {
            IconStep::Use { owned: true }
        } else {
            IconStep::LoadSystem
        },
        IconStep::LoadSystem => IconStep::Use { owned: false },
        IconStep::Use { owned } => IconStep::Use { owned },
    }
}

/// The step after `step`, by whether it loaded an icon.
pub fn load_tray_icon(step: IconStep, loaded: bool) -> (r: IconStep)
    ensures
        r == icon_step_after(step, loaded),
{
    match step {
        IconStep::LoadEmbedded => if loaded {
            IconStep::Use { owned: true }
        } else {
            IconStep::LoadFile
        },
        IconStep::LoadFile => if loaded {
            IconStep::Use { owned: true }
        } else {
            IconStep::LoadSystem
        },
        IconStep::LoadSystem => IconStep::Use { owned: false },
        IconStep::Use { owned } => IconStep::Use { owned },
    }
}

/// The size to which an icon is scaled for the tray, from the size of small icons; none where
/// that is not known.
pub fn scale_icon_for_tray(width: i32, height: i32) -> (r: Option<(i32, i32)>)
    ensures
        r == (if width > 0 && height > 0 {
            Some((width, height))
        } else {
            None
        }),
{
    if width <= 0 || height <= 0 {
        return None;
    }
    Some((width, height))
}

/// Which of an icon and its scaled copy is used, and which is destroyed.
#[derive(Clone, Copy, Debug, PartialEq, Eq, Structural)]
pub struct IconChoice {
    pub used: usize,
    /// Zero where none is destroyed.
    pub destroyed: usize,
}

/// Which of an icon and its scaled copy is used: the copy where there is one (it is not zero), and
/// then the icon itself is destroyed.
pub fn choose_scaled_icon(icon: usize, scaled: usize) -> (r: IconChoice)
    ensures
        r == (if scaled == 0 {
            IconChoice { used: icon, destroyed: 0 }
        } else {
            IconChoice { used: scaled, destroyed: icon }
        }),
{
    if scaled == 0 {
        IconChoice { used: icon, destroyed: 0 }
    } else {
        IconChoice { used: scaled, destroyed: icon }
    }
}

/// What is done with an icon once it was added to the tray or could not be.
#[derive(Clone, Copy, Debug, PartialEq, Eq, Structural)]
pub enum IconFate {
    /// It is in the tray; Windows owns it.
    Shown,
    /// It is in the tray and remembered, to be destroyed with the tray icon.
    Remembered,
    /// It is not in the tray.
    Refused,
    /// It is not in the tray and has to be destroyed.
    Destroyed,
}

/// What is done with an icon, by whether it was added to the tray and whether it is owned.
pub open spec fn icon_fate(added: bool, owned: bool) -> IconFate {
    match (added, owned) {
        (true, true) => IconFate::Remembered,
        (true, false) => IconFate::Shown,
        (false, true) => IconFate::Destroyed,
        (false, false) => IconFate::Refused,
    }
}

/// The remembered icon after an icon was added to the tray or could not be. Zero stands for none.
pub open spec fn remembered_after(handle: usize, icon: usize, added: bool, owned: bool) -> usize {
    if added && owned {
        icon
    } else {
        handle
    }
}

/// The icon to destroy with the tray icon.
pub open spec fn destroyed_with(handle: usize) -> Option<usize> {
    if handle != 0 {
        Some(handle)
    } else {
        None
    }
}

/// What is done with an icon, by whether it was added to the tray and whether it is owned. It is
/// remembered in `handle` where it has to be destroyed later.
pub fn add_tray_icon(handle: &mut usize, icon: usize, added: bool, owned: bool) -> (r: IconFate)
    ensures
        r == icon_fate(added, owned),
        *final(handle) == remembered_after(*old(handle), icon, added, owned),
{
    if !added {
        if owned {
            IconFate::Destroyed
        } else {
            IconFate::Refused
        }
    } else if owned {
        *handle = icon;
        IconFate::Remembered
    } else {
        IconFate::Shown
    }
}

/// The icon to destroy once the tray icon is taken down: the remembered one, which is forgotten.
pub fn remove_tray_icon(handle: &mut usize) -> (r: Option<usize>)
    ensures
        *final(handle) == 0,
        r == destroyed_with(*old(handle)),
{
    let icon: usize = *handle;
    *handle = 0;
    if icon != 0 {
        Some(icon)
    } else {
        None
    }
}

/// The status of a GDI+ call that succeeded.
pub const GDIP_OK: i32 = 0;

/// The message for a GDI+ call that failed.
pub open spec fn gdiplus_message(operation: Seq<char>, status: i32) -> Seq<char> {
    operation + " failed with GDI+ status "@ + text::signed_decimal(status as int)
}

/// The message for a GDI+ call that failed.
pub fn gdiplus_error(operation: &str, status: i32) -> (r: String)
    ensures
        r@ == gdiplus_message(operation@, status),
{
    let mut r: String = operation.to_string();
    r.append(" failed with GDI+ status ");
    push_signed_decimal(&mut r, status);
    r
}

/// What came of a GDI+ call that makes something, from its status and from whether it made
/// something.
pub fn gdiplus_made(operation: &str, status: i32, made: bool) -> (r: Result<(), String>)
    ensures
        match r {
            Ok(_) => status == GDIP_OK && made,
            Err(message) => !(status == GDIP_OK && made) && message@ == gdiplus_message(
                operation@,
                status,
            ),
        },
{
    if status != GDIP_OK || !made {
        Err(gdiplus_error(operation, status))
    } else {
        Ok(())
    }
}

// ---------------------------------------------------------------------------
// Laws
// ---------------------------------------------------------------------------
/// Choosing an item of the menu does what the item is for, whatever the high word of the message
/// says.
pub proof fn menu_items_do_what_they_are_for(command: MenuCommand, wparam: usize, lparam: isize)
    requires
        wparam % 0x10000 == menu_id(command),
    ensures
        action_on(WM_COMMAND, wparam, lparam) == WindowAction::Run(command),
{
}

/// Each entry of the menu is a separator or an item, there is an item for every command, and no
/// two items have the same number.
pub proof fn the_menu_has_an_item_for_every_command(
    hdr_is_on: bool,
    flags: usize,
    run_at_startup: bool,
    command: MenuCommand,
)
    ensures
        forall|i: int|
            #![trigger menu(hdr_is_on, flags, run_at_startup)[i]]
            0 <= i < menu(hdr_is_on, flags, run_at_startup).len() ==> menu(
                hdr_is_on,
                flags,
                run_at_startup,
            )[i] == separator() || command_of(
                menu(hdr_is_on, flags, run_at_startup)[i].id as int,
            ) is Some,
        exists|i: int|
            0 <= i < menu(hdr_is_on, flags, run_at_startup).len() && (#[trigger] menu(
                hdr_is_on,
                flags,
                run_at_startup,
            )[i]).id == menu_id(command),
        forall|i: int, j: int|
            #![trigger menu(hdr_is_on, flags, run_at_startup)[i], menu(
                hdr_is_on,
                flags,
                run_at_startup,
            )[j]]
            0 <= i < j < menu(hdr_is_on, flags, run_at_startup).len() && menu(
                hdr_is_on,
                flags,
                run_at_startup,
            )[i].text is Some ==> menu(hdr_is_on, flags, run_at_startup)[i].id != menu(
                hdr_is_on,
                flags,
                run_at_startup,
            )[j].id,
{
    let m = menu(hdr_is_on, flags, run_at_startup);
    let i: int = match command {
        MenuCommand::ToggleHdr => 0,
        MenuCommand::UseDefaultList => 2,
        MenuCommand::EditCustomList => 3,
        MenuCommand::EditExclusionList => 4,
        MenuCommand::ReloadGameLists => 5,
        MenuCommand::RunAtStartup => 7,
        MenuCommand::Quit => 9,
    };
    assert(m[i].id == menu_id(command));
}

/// The message loop is reached exactly when all four steps of setting up have succeeded.
pub proof fn the_message_loop_needs_every_step(module: bool, class: bool, window: bool, icon: bool)
    ensures
        (tray_step_after(
            tray_step_after(
                tray_step_after(tray_step_after(TrayStep::FindModule, module), class),
                window,
            ),
            icon,
        ) == TrayStep::RunMessageLoop) == (module && class && window && icon),
{
}

/// Whatever fails, an icon is found in three steps at most, and only one that was not loaded from
/// the application's own picture is left to Windows.
pub proof fn there_is_always_an_icon(embedded: bool, file: bool, system: bool)
    ensures
        icon_step_after(
            icon_step_after(icon_step_after(IconStep::LoadEmbedded, embedded), file),
            system,
        ) == (IconStep::Use { owned: embedded || file }),
{
}

/// An icon that is owned is destroyed once: at once where it could not be added to the tray, else
/// with the tray icon, and not again after that. One that is not owned is never destroyed.
pub proof fn an_owned_icon_is_destroyed_once(icon: usize, added: bool, owned: bool)
    requires
        icon != 0,
    ensures
        icon_fate(added, owned) == IconFate::Destroyed <==> owned && !added,
        destroyed_with(remembered_after(0, icon, added, owned)) == (if owned && added {
            Some(icon)
        } else {
            None
        }),
        destroyed_with(0) is None,
{
}

/// The menu says that switching turns HDR off exactly where it is on, checks the community list
/// exactly where it is in use, checks running at startup exactly where it is on, and is the same in
/// all else whatever holds.
pub proof fn the_menu_shows_how_things_stand(hdr_is_on: bool, flags: usize, run_at_startup: bool)
    ensures
        menu(hdr_is_on, flags, run_at_startup).len() == 10,
        menu(hdr_is_on, flags, run_at_startup)[0].text == Some(
            if hdr_is_on {
                "Toggle HDR Off"@
            } else {
                "Toggle HDR On"@
            },
        ),
        menu(hdr_is_on, flags, run_at_startup)[2].flags == 8 * (flags % 2),
        menu(hdr_is_on, flags, run_at_startup)[7].flags == (if run_at_startup {
            8u32
        } else {
            0
        }),
        forall|i: int|
            0 <= i < 10 ==> {
                let it = #[trigger] menu(hdr_is_on, flags, run_at_startup)[i];
                let off = menu(false, 2, false)[i];
                it.id == off.id && (i != 0 ==> it.text == off.text) && (i != 2 && i != 7 ==> it.flags
                    == off.flags)
            },
{
    assert(flags & 1 == flags % 2) by (bit_vector);
    assert(2usize & 1 == 0) by (bit_vector);
}

/// The window acts on four messages, by their numbers, and leaves every other message to Windows.
/// Closing it does what quitting does, and a double click does what the first item does.
pub proof fn the_window_acts_on_four_messages(msg: u32, wparam: usize, lparam: isize)
    ensures
        action_on(msg, wparam, lparam) is Default <==> msg != 0x8001 && msg != 0x111 && msg != 0x10 && msg
            != 2,
        action_on(0x8001, wparam, lparam) == (if lparam as u32 == 0x205 {
            WindowAction::ShowMenu
        } else if lparam as u32 == 0x203 {
            WindowAction::Run(MenuCommand::ToggleHdr)
        } else {
            WindowAction::Nothing
        }),
        action_on(0x10, wparam, lparam) == WindowAction::Run(MenuCommand::Quit),
        action_on(2, wparam, lparam) is TakeDown,
        action_on(0x111, wparam, lparam) is Nothing <==> forall|command: MenuCommand|
            #[trigger] menu_id(command) != wparam % 0x10000,
{
    let id = (wparam % 0x10000) as int;
    if command_of(id) is Some {
        assert(menu_id(command_of(id)->0) == id);
    }
}

/// Every command has its own number.
pub proof fn commands_have_their_own_numbers(a: MenuCommand, b: MenuCommand)
    ensures
        menu_id(a) == menu_id(b) ==> a == b,
        command_of(menu_id(a) as int) == Some(a),
        1001 <= menu_id(a) <= 1007,
{
}

/// The message for a GDI+ call is the name of the call, what happened, and the status in decimal.
pub proof fn gdiplus_messages_name_call_and_status(operation: Seq<char>, status: i32)
    ensures
        text::starts_with(gdiplus_message(operation, status), operation),
        text::ends_with(gdiplus_message(operation, status), text::signed_decimal(status as int)),
        gdiplus_message(operation, status).len() == operation.len() + " failed with GDI+ status "@.len()
            + text::signed_decimal(status as int).len(),
        gdiplus_message(operation, status).subrange(
            operation.len() as int,
            operation.len() + " failed with GDI+ status "@.len() as int,
        ) == " failed with GDI+ status "@,
{
    let m = gdiplus_message(operation, status);
    let middle = " failed with GDI+ status "@;
    let digits = text::signed_decimal(status as int);
    assert(m.take(operation.len() as int) =~= operation);
    assert(m.skip(m.len() - digits.len()) =~= digits);
    assert(m.subrange(operation.len() as int, operation.len() + middle.len() as int) =~= middle);
}

} // verus!
