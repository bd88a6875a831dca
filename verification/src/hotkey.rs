//! The global preview hotkey: Space pressed while Explorer (or the desktop,
//! which Explorer draws) is the foreground application toggles the preview.

use vstd::prelude::*;
use crate::text_ops::{ascii_lowercase, equals_ascii_lowercase};

verus! {

/// The Win32 message for a key press.
pub const WM_KEYDOWN: u32 = 0x0100;

/// The Win32 message for a key press while Alt is held.
pub const WM_SYSKEYDOWN: u32 = 0x0104;

/// The virtual-key code of the space bar.
pub const VK_SPACE: u32 = 0x20;

/// The hotkey is the space bar (virtual-key code 0x20), pressed with or
/// without Alt (messages 0x0100 and 0x0104); key releases and other keys
/// never toggle.
pub proof fn lemma_hotkey_is_space_press(code: i32, message: u32, vk_code: u32)
    ensures
        VK_SPACE == 0x20 && WM_KEYDOWN == 0x0100 && WM_SYSKEYDOWN == 0x0104,
        vk_code != 0x20 || code < 0 || (message != 0x0100 && message != 0x0104) ==> !(code >= 0
            && (message == WM_KEYDOWN || message == WM_SYSKEYDOWN) && vk_code == VK_SPACE),
{
}

/// Whether a low-level keyboard hook notification is a Space key press that
/// the hook may act on (a negative `code` must be passed on untouched).
pub fn is_toggle_key_event(code: i32, message: u32, vk_code: u32) -> (toggle: bool)
    ensures
        toggle == (code >= 0 && (message == WM_KEYDOWN || message == WM_SYSKEYDOWN) && vk_code
            == VK_SPACE),
{
    code >= 0 && (message == WM_KEYDOWN || message == WM_SYSKEYDOWN) && vk_code == VK_SPACE
}

/// Whether a process's executable name is Explorer's, without regard to
/// ASCII case.
pub fn is_explorer_process(name: &str) -> (explorer: bool)
    ensures
        explorer == (ascii_lowercase(name@) == "explorer.exe"@),
{
    equals_ascii_lowercase(name, "explorer.exe")
}

} // verus!
