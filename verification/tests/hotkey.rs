use rooq::hotkey::{is_explorer_process, is_toggle_key_event, VK_SPACE, WM_KEYDOWN, WM_SYSKEYDOWN};

#[test]
fn space_key_down_toggles() {
    assert!(is_toggle_key_event(0, WM_KEYDOWN, VK_SPACE));
    assert!(is_toggle_key_event(0, WM_SYSKEYDOWN, 0x20));
}

#[test]
fn other_events_do_not_toggle() {
    assert!(!is_toggle_key_event(-1, WM_KEYDOWN, VK_SPACE));
    assert!(!is_toggle_key_event(0, 0x0101, VK_SPACE));
    assert!(!is_toggle_key_event(0, WM_KEYDOWN, 0x41));
}

#[test]
fn explorer_is_matched_without_regard_to_case() {
    assert!(is_explorer_process("explorer.exe"));
    assert!(is_explorer_process("EXPLORER.EXE"));
    assert!(is_explorer_process("Explorer.exe"));
    assert!(!is_explorer_process("explorer.exe.bak"));
    assert!(!is_explorer_process("notepad.exe"));
}
