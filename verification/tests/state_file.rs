use allium::state_file::sibling;

#[test]
fn sibling_keeps_the_whole_name() {
    assert_eq!(sibling("/s/power.json", ".bak"), "/s/power.json.bak");
    assert_eq!(sibling("/s/current_game", ".bak"), "/s/current_game.bak");
}

#[test]
fn the_temporary_copy_sits_beside_the_file() {
    assert_eq!(sibling("/mnt/SDCARD/.allium/state/display.json", ".tmp"), "/mnt/SDCARD/.allium/state/display.json.tmp");
}
