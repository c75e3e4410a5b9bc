use syodep::config::{
    default_config_doc, default_focus_keybindings, default_highlight_keybindings,
    default_keybindings, default_visual_keybindings, merge_bindings, migration_hint,
    parse_hex_color, ConfigError, FilesConfig, InputConfig,
};

/// The command bound to `key` in `table`, if any.
fn get<'a>(table: &'a [(String, String)], key: &str) -> Option<&'a str> {
    table
        .iter()
        .find(|(k, _)| k == key)
        .map(|(_, c)| c.as_str())
}

fn owned_table(entries: &[(&str, &str)]) -> Vec<(String, String)> {
    entries
        .iter()
        .map(|(k, c)| (k.to_string(), c.to_string()))
        .collect()
}

#[test]
fn parses_hex_colors() {
    assert_eq!(parse_hex_color("#add8e6"), Some((0xad, 0xd8, 0xe6)));
    assert_eq!(parse_hex_color("#000000"), Some((0, 0, 0)));
    assert_eq!(parse_hex_color("#FFFFFF"), Some((255, 255, 255)));
}

#[test]
fn rejects_malformed_hex_colors() {
    assert_eq!(parse_hex_color("add8e6"), None, "missing #");
    assert_eq!(parse_hex_color("#add8e"), None, "too short");
    assert_eq!(parse_hex_color("#add8e6f"), None, "too long");
    assert_eq!(parse_hex_color("#gggggg"), None, "not hex");
    assert_eq!(parse_hex_color(""), None);
    assert_eq!(parse_hex_color("#"), None);
    // 8-digit hex is rejected rather than silently dropping the alpha:
    // opacity is a separate option.
    assert_eq!(parse_hex_color("#add8e6ff"), None);
}

#[test]
fn non_ascii_hex_lookalikes_are_rejected() {
    assert_eq!(parse_hex_color("#ａｂｃｄｅｆ"), None);
    assert_eq!(parse_hex_color("#ab€d"), None);
    assert_eq!(parse_hex_color("#1e1e1e"), Some((0x1e, 0x1e, 0x1e)));
    assert_eq!(parse_hex_color("#ffe066"), Some((0xff, 0xe0, 0x66)));
}

#[test]
fn default_config_doc_emits_active_values() {
    let doc = default_config_doc();
    assert!(doc.contains("scroll_step = 60.0"), "{doc}");
    assert!(doc.contains("\"j\" = \"scroll_down\""), "{doc}");
    // Both overlay tables are emitted, with their scope-dispatching
    // commands rather than per-scope ones.
    assert!(doc.contains("[focus_keys]"), "{doc}");
    assert!(doc.contains("\"h\" = \"focus_left\""), "{doc}");
    assert!(doc.contains("[visual_keys]"), "{doc}");
}

#[test]
fn default_config_doc_lists_every_section_and_default() {
    let doc = default_config_doc();
    for header in ["[view]", "[files]", "[input]", "[keys]", "[focus_keys]", "[visual_keys]", "[highlight_keys]"] {
        assert!(doc.contains(header), "{header}");
    }
    assert!(doc.contains("timeout_ms = 500\n"), "{doc}");
    assert!(doc.contains("leader = \"<Space>\"\n"), "{doc}");
    assert!(doc.contains("highlight_color = \"#ffe066\"\n"), "{doc}");
    assert!(doc.contains("zoom_step = 1.1\n"), "{doc}");
    // Every binding of every table is an active line.
    for (name, table) in [
        ("keys", default_keybindings()),
        ("focus_keys", default_focus_keybindings()),
        ("visual_keys", default_visual_keybindings()),
        ("highlight_keys", default_highlight_keybindings()),
    ] {
        let start = doc.find(&format!("[{name}]\n")).unwrap();
        for (key, command) in &table {
            let line = format!("\"{key}\" = \"{command}\"\n");
            assert!(doc[start..].contains(&line), "{name}: {line}");
        }
    }
}

#[test]
fn default_keybindings_cover_core_navigation() {
    let keys = default_keybindings();
    assert_eq!(get(&keys, "j"), Some("scroll_down"));
    assert_eq!(get(&keys, "gg"), Some("goto_first_page"));
    assert_eq!(get(&keys, "G"), Some("goto_last_page"));
}

#[test]
fn default_tables_hold_each_key_once_in_key_order() {
    for table in [
        default_keybindings(),
        default_focus_keybindings(),
        default_visual_keybindings(),
        default_highlight_keybindings(),
    ] {
        for pair in table.windows(2) {
            assert!(pair[0].0 < pair[1].0, "{pair:?}");
        }
    }
    assert_eq!(default_keybindings().len(), 39);
    assert_eq!(default_focus_keybindings().len(), 15);
    assert_eq!(default_visual_keybindings().len(), 28);
    assert_eq!(default_highlight_keybindings().len(), 23);
}

#[test]
fn default_mode_tables_bind_their_motions() {
    let focus = default_focus_keybindings();
    assert_eq!(get(&focus, "h"), Some("focus_left"));
    assert_eq!(get(&focus, "e"), Some("focus_next_line"));
    assert_eq!(get(&focus, "<Esc>"), Some("focus_exit"));
    assert_eq!(get(&focus, "a"), Some("highlight_enter"));
    let visual = default_visual_keybindings();
    assert_eq!(get(&visual, "vw"), Some("visual_scope_word"));
    assert_eq!(get(&visual, "ow"), Some("visual_other_word"));
    assert_eq!(get(&visual, "oo"), Some("visual_swap_ends"));
    let highlight = default_highlight_keybindings();
    assert_eq!(get(&highlight, "<BS>"), Some("highlight_discard"));
    assert_eq!(get(&highlight, "a"), Some("highlight_commit"));
    assert_eq!(get(&highlight, "v"), None);
    assert_eq!(get(&highlight, "c"), None);
    let keys = default_keybindings();
    assert_eq!(get(&keys, "a"), None);
    assert_eq!(get(&keys, "<leader>w"), Some("save_document"));
}

#[test]
fn user_keys_extend_and_override_defaults() {
    let user = owned_table(&[("j", "scroll_half_page_down"), ("<C-o>", "quit")]);
    let keys = merge_bindings(&default_keybindings(), &user);
    // Overridden.
    assert_eq!(get(&keys, "j"), Some("scroll_half_page_down"));
    // Added.
    assert_eq!(get(&keys, "<C-o>"), Some("quit"));
    // Untouched default survives.
    assert_eq!(get(&keys, "k"), Some("scroll_up"));
    assert_eq!(keys.len(), default_keybindings().len() + 1);
}

#[test]
fn an_empty_user_table_keeps_the_defaults() {
    let keys = merge_bindings(&default_focus_keybindings(), &[]);
    assert_eq!(keys, default_focus_keybindings());
}

#[test]
fn a_later_user_entry_for_the_same_key_wins() {
    let user = owned_table(&[("y", "quit"), ("y", "cancel")]);
    let keys = merge_bindings(&[], &user);
    assert_eq!(keys, owned_table(&[("y", "cancel")]));
}

#[test]
fn pre_collapse_focus_tables_get_a_migration_hint() {
    let text = "[word_focus_keys]\n\"x\" = \"word_focus_right\"\n";
    let err = migration_hint(text, "unknown field `word_focus_keys`".to_string());
    assert!(err.starts_with("unknown field `word_focus_keys`\nhint: "), "{err}");
    assert!(err.contains("[focus_keys]"), "{err}");
    assert!(err.contains("focus_left"), "{err}");
    assert!(err.contains("word_focus_left"), "{err}");
}

#[test]
fn migration_hint_names_every_stale_table_in_order() {
    let text = "[line_focus_keys]\n[caret_focus_keys]\n";
    let err = migration_hint(text, "bad".to_string());
    assert_eq!(
        err,
        "bad\nhint: the five focus modes are now one mode with a scope, so \
         [caret_focus_keys], [line_focus_keys] became a single [focus_keys] table. \
         Rename it and replace the per-scope command names (caret_focus_left, ...) \
         with focus_left / focus_right / focus_up / focus_down. See docs/config.md."
    );
}

#[test]
fn unrelated_parse_errors_get_no_migration_hint() {
    let err = migration_hint("[view]\nscroll_step = \"not a number\"\n", "invalid type".to_string());
    assert_eq!(err, "invalid type");
}

#[test]
fn the_leader_defaults_to_space() {
    let input = InputConfig::default();
    assert_eq!(input.leader, "<Space>");
    assert_eq!(input.timeout_ms, 500);
    assert_eq!(FilesConfig::default().open_dir, None);
}

#[test]
fn config_errors_name_the_file() {
    let io = ConfigError::Io {
        path: "/etc/syodep.toml".to_string(),
        message: "permission denied".to_string(),
    };
    assert_eq!(
        io.message(),
        "cannot read config file /etc/syodep.toml: permission denied"
    );
    let parse = ConfigError::Parse {
        path: "config.toml".to_string(),
        message: "expected `=`".to_string(),
    };
    assert_eq!(parse.message(), "invalid config file config.toml: expected `=`");
}
