use glyphedit::command::{command_from_name, str_eq, Command, CommandMod};
use glyphedit::keymap::{
    default_keymap, key_name_to_code, keycode_to_command, keymap_from_records, BindingRecord,
    ConfigError, Keymap, KEY_DELETE, KEY_F1, KEY_F12, KEY_INSERT, KEY_LCTRL, KEY_LSHIFT, KEY_RALT,
    KEY_RGUI,
};
use glyphedit::bindings_xml::initialize_keybinds;

#[test]
fn command_mod_test() {
    assert_eq!(
        CommandMod::from("CtrlShiftMod"),
        CommandMod { ctrl: true, shift: true, ..CommandMod::default() }
    );
}

#[test]
fn modifier_words_map_to_flags() {
    assert_eq!(
        CommandMod::from("ControlMod"),
        CommandMod { ctrl: true, ..CommandMod::default() }
    );
    assert_eq!(
        CommandMod::from("AltMod"),
        CommandMod { alt: true, ..CommandMod::default() }
    );
    assert_eq!(
        CommandMod::from("SuperMod"),
        CommandMod { meta: true, ..CommandMod::default() }
    );
    assert_eq!(
        CommandMod::from("WindowsMod"),
        CommandMod { meta: true, ..CommandMod::default() }
    );
    assert_eq!(
        CommandMod::from("GuiMod"),
        CommandMod { meta: true, ..CommandMod::default() }
    );
    assert_eq!(
        CommandMod::from("MetaShiftMod"),
        CommandMod { meta: true, shift: true, ..CommandMod::default() }
    );
}

#[test]
fn unrecognized_words_are_ignored() {
    assert_eq!(CommandMod::from(""), CommandMod::none());
    assert_eq!(CommandMod::from("Bogus"), CommandMod::none());
    assert_eq!(
        CommandMod::from("CtrlShiftGarbageWords"),
        CommandMod { ctrl: true, shift: true, ..CommandMod::default() }
    );
    // Lowercase prefixes never open a word boundary.
    assert_eq!(CommandMod::from("ctrlshift"), CommandMod::none());
}

#[test]
fn command_names_round_trip() {
    assert_eq!(command_from_name("ToolPen"), Some(Command::ToolPen));
    assert_eq!(command_from_name("HistoryUndo"), Some(Command::HistoryUndo));
    assert_eq!(command_from_name("SkiaDump"), Some(Command::SkiaDump));
    assert_eq!(command_from_name("NotACommand"), None);
    assert_eq!(command_from_name(""), None);
}

#[test]
fn str_eq_compares_characters() {
    assert!(str_eq("binding", "binding"));
    assert!(!str_eq("binding", "bindings"));
    assert!(!str_eq("a", "b"));
    assert!(str_eq("", ""));
}

#[test]
fn key_names_resolve() {
    assert_eq!(key_name_to_code("A"), Some('A' as u32));
    assert_eq!(key_name_to_code("0"), Some('0' as u32));
    assert_eq!(key_name_to_code("Delete"), Some(KEY_DELETE));
    assert_eq!(key_name_to_code("Insert"), Some(KEY_INSERT));
    assert_eq!(key_name_to_code("F1"), Some(KEY_F1));
    assert_eq!(key_name_to_code("F12"), Some(KEY_F12));
    assert_eq!(key_name_to_code("NoSuchKey"), None);
}

#[test]
fn exact_match_binding() {
    let mut km = Keymap::new();
    let ctrl = CommandMod { ctrl: true, ..CommandMod::default() };
    let ctrl_shift = CommandMod { ctrl: true, shift: true, ..CommandMod::default() };
    km.insert('K' as u32, ctrl, Command::IOSave);
    // The binding fires only under its exact mask: an extra held modifier
    // suppresses the match.
    assert_eq!(km.resolve('K' as u32, ctrl), Some(Command::IOSave));
    assert_eq!(km.resolve('K' as u32, ctrl_shift), None);
    assert_eq!(km.resolve('K' as u32, CommandMod::none()), None);
    assert_eq!(km.resolve('J' as u32, ctrl), None);
}

#[test]
fn later_bindings_overwrite_earlier() {
    let mut km = Keymap::new();
    km.insert('Z' as u32, CommandMod::none(), Command::ToolZoom);
    km.insert('Z' as u32, CommandMod::none(), Command::ToolPan);
    assert_eq!(km.resolve('Z' as u32, CommandMod::none()), Some(Command::ToolPan));
    assert_eq!(km.bindings.len(), 1);
}

#[test]
fn from_keys_down_reads_held_keys() {
    let keys = vec![KEY_LCTRL, 'A' as u32];
    assert_eq!(
        CommandMod::from_keys_down(&keys),
        CommandMod { ctrl: true, ..CommandMod::default() }
    );
    let keys = vec![KEY_LSHIFT, KEY_RALT, KEY_RGUI];
    assert_eq!(
        CommandMod::from_keys_down(&keys),
        CommandMod { shift: true, alt: true, meta: true, ..CommandMod::default() }
    );
    assert_eq!(CommandMod::from_keys_down(&Vec::new()), CommandMod::none());
}

#[test]
fn keycode_resolution_uses_live_keys() {
    let mut km = Keymap::new();
    let ctrl = CommandMod { ctrl: true, ..CommandMod::default() };
    km.insert('S' as u32, ctrl, Command::IOSave);
    let held = vec![KEY_LCTRL];
    let info = keycode_to_command(&km, 'S' as u32, &held).expect("binding should fire");
    assert_eq!(info.command, Command::IOSave);
    assert_eq!(info.command_mod, CommandMod::none());
    // Extra held modifier suppresses the exact match.
    let held = vec![KEY_LCTRL, KEY_LSHIFT];
    assert!(keycode_to_command(&km, 'S' as u32, &held).is_none());
}

#[test]
fn records_build_a_keymap() {
    let records = vec![
        BindingRecord {
            key: Some("A".to_string()),
            command: Some("ToolPen".to_string()),
            modifier: Some("CtrlMod".to_string()),
        },
        BindingRecord {
            key: Some("Delete".to_string()),
            command: Some("DeleteSelection".to_string()),
            modifier: None,
        },
    ];
    let km = keymap_from_records(&records).expect("records are valid");
    let ctrl = CommandMod { ctrl: true, ..CommandMod::default() };
    assert_eq!(km.resolve('A' as u32, ctrl), Some(Command::ToolPen));
    assert_eq!(km.resolve(KEY_DELETE, CommandMod::none()), Some(Command::DeleteSelection));
}

#[test]
fn record_errors_are_fatal_and_indexed() {
    let good = BindingRecord {
        key: Some("A".to_string()),
        command: Some("ToolPen".to_string()),
        modifier: None,
    };
    let missing_key = BindingRecord { key: None, command: Some("ToolPen".to_string()), modifier: None };
    let missing_command = BindingRecord { key: Some("A".to_string()), command: None, modifier: None };
    let unknown_key = BindingRecord {
        key: Some("NoSuchKey".to_string()),
        command: Some("ToolPen".to_string()),
        modifier: None,
    };
    let unknown_command = BindingRecord {
        key: Some("A".to_string()),
        command: Some("Bogus".to_string()),
        modifier: None,
    };
    assert_eq!(
        keymap_from_records(&vec![missing_key]).unwrap_err(),
        ConfigError::MissingKeyAttribute(0)
    );
    assert_eq!(
        keymap_from_records(&vec![good.clone(), missing_command]).unwrap_err(),
        ConfigError::MissingCommandAttribute(1)
    );
    assert_eq!(
        keymap_from_records(&vec![good.clone(), unknown_key]).unwrap_err(),
        ConfigError::UnknownKeyName(1)
    );
    assert_eq!(
        keymap_from_records(&vec![unknown_command]).unwrap_err(),
        ConfigError::UnknownCommandName(0)
    );
}

#[test]
fn keybinding_xml_loads() {
    let xml = "<keybindings>\
        <binding key=\"A\" command=\"ToolPen\" />\
        <binding key=\"Z\" command=\"HistoryUndo\" mod=\"CtrlMod\" />\
        </keybindings>";
    let km = initialize_keybinds(xml).expect("valid binding source");
    let ctrl = CommandMod { ctrl: true, ..CommandMod::default() };
    assert_eq!(km.resolve('A' as u32, CommandMod::none()), Some(Command::ToolPen));
    assert_eq!(km.resolve('Z' as u32, ctrl), Some(Command::HistoryUndo));
    assert_eq!(km.resolve('Z' as u32, CommandMod::none()), None);
}

#[test]
fn keybinding_xml_rejects_bad_sources() {
    assert_eq!(
        initialize_keybinds("this is not xml <").unwrap_err(),
        ConfigError::MalformedDocument
    );
    let xml = "<keybindings><binding key=\"A\" command=\"Bogus\" /></keybindings>";
    assert_eq!(initialize_keybinds(xml).unwrap_err(), ConfigError::UnknownCommandName(0));
    let xml = "<keybindings><binding command=\"ToolPen\" /></keybindings>";
    assert_eq!(initialize_keybinds(xml).unwrap_err(), ConfigError::MissingKeyAttribute(0));
}

#[test]
fn default_table_covers_every_command() {
    let km = default_keymap();
    let ctrl = CommandMod { ctrl: true, ..CommandMod::default() };
    assert_eq!(km.resolve('Z' as u32, ctrl), Some(Command::HistoryUndo));
    assert_eq!(km.resolve('Y' as u32, ctrl), Some(Command::HistoryRedo));
    assert_eq!(km.resolve('V' as u32, CommandMod::none()), Some(Command::ToolSelect));
    assert_eq!(km.resolve('V' as u32, ctrl), Some(Command::PasteSelection));
    let ctrl_shift = CommandMod { ctrl: true, shift: true, ..CommandMod::default() };
    assert_eq!(km.resolve('S' as u32, ctrl_shift), Some(Command::IOSaveAs));
    // Held modifiers beyond a binding's mask suppress it.
    assert_eq!(km.resolve('Z' as u32, ctrl_shift), None);
}

#[test]
fn keybinding_xml_skips_foreign_children() {
    // Text nodes, comments, and elements that are not bindings contribute
    // nothing; the binding positions reported in errors count bindings only.
    let xml = "<keybindings>\
        <!-- a comment -->\
        some stray text\
        <note>not a binding</note>\
        <binding key=\"F5\" command=\"IOSave\" mod=\"CtrlMod\" />\
        <binding key=\"Q\" command=\"Bogus\" />\
        </keybindings>";
    assert_eq!(initialize_keybinds(xml).unwrap_err(), ConfigError::UnknownCommandName(1));

    let xml = "<keybindings>\
        <note>not a binding</note>\
        <binding key=\"F5\" command=\"IOSave\" mod=\"CtrlMod\" />\
        </keybindings>";
    let km = initialize_keybinds(xml).expect("valid binding source");
    let ctrl = CommandMod { ctrl: true, ..CommandMod::default() };
    assert_eq!(
        km.resolve(key_name_to_code("F5").unwrap(), ctrl),
        Some(Command::IOSave)
    );
}
