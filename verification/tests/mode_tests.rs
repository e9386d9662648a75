//! Tests of the mode registry: major and minor modes, automatic mode
//! selection, customization records and mode lines.

use neomacs_display::modes::{CustomGroup, CustomType, CustomVariable, FontLockLevel, MajorMode,
    MinorMode, ModeLineFormat, ModeRegistry, Value};

fn plain_major(name: &str, pretty: &str, parent: Option<&str>, hook: &str) -> MajorMode {
    MajorMode {
        name: name.to_string(),
        pretty_name: pretty.to_string(),
        parent: parent.map(|p| p.to_string()),
        mode_hook: hook.to_string(),
        keymap_name: None,
        syntax_table_name: None,
        abbrev_table_name: None,
        font_lock: None,
        body: None,
    }
}

#[test]
fn new_registry_has_fundamental_mode() {
    let reg = ModeRegistry::new();
    assert!(reg.has_major_mode("fundamental-mode"));
}

#[test]
fn default_major_mode_is_fundamental() {
    let reg = ModeRegistry::new();
    assert_eq!(reg.get_major_mode(1), "fundamental-mode");
}

#[test]
fn register_and_set_major_mode() {
    let mut reg = ModeRegistry::new();
    reg.register_major_mode(MajorMode {
        name: "rust-mode".to_string(),
        pretty_name: "Rust".to_string(),
        parent: Some("prog-mode".to_string()),
        mode_hook: "rust-mode-hook".to_string(),
        keymap_name: Some("rust-mode-map".to_string()),
        syntax_table_name: None,
        abbrev_table_name: None,
        font_lock: None,
        body: None,
    });

    assert!(reg.set_major_mode(1, "rust-mode").is_ok());
    assert_eq!(reg.get_major_mode(1), "rust-mode");
}

#[test]
fn set_unknown_major_mode_fails() {
    let mut reg = ModeRegistry::new();
    let result = reg.set_major_mode(1, "nonexistent-mode");
    assert!(result.is_err());
}

#[test]
fn set_major_mode_replaces_previous() {
    let mut reg = ModeRegistry::new();
    reg.register_major_mode(plain_major("text-mode", "Text", None, "text-mode-hook"));
    reg.register_major_mode(plain_major("org-mode", "Org", Some("text-mode"), "org-mode-hook"));

    reg.set_major_mode(1, "text-mode").unwrap();
    assert_eq!(reg.get_major_mode(1), "text-mode");

    reg.set_major_mode(1, "org-mode").unwrap();
    assert_eq!(reg.get_major_mode(1), "org-mode");
}

#[test]
fn register_and_enable_minor_mode() {
    let mut reg = ModeRegistry::new();
    reg.register_minor_mode(MinorMode {
        name: "auto-fill-mode".to_string(),
        lighter: Some(" Fill".to_string()),
        keymap_name: None,
        global: false,
        body: None,
    });

    assert!(reg.enable_minor_mode(1, "auto-fill-mode").is_ok());
    assert!(reg.is_minor_mode_active(1, "auto-fill-mode"));
}

#[test]
fn enable_unknown_minor_mode_fails() {
    let mut reg = ModeRegistry::new();
    let result = reg.enable_minor_mode(1, "nonexistent-mode");
    assert!(result.is_err());
}

#[test]
fn disable_minor_mode() {
    let mut reg = ModeRegistry::new();
    reg.register_minor_mode(MinorMode {
        name: "flycheck-mode".to_string(),
        lighter: Some(" FlyC".to_string()),
        keymap_name: None,
        global: false,
        body: None,
    });

    reg.enable_minor_mode(1, "flycheck-mode").unwrap();
    assert!(reg.is_minor_mode_active(1, "flycheck-mode"));

    reg.disable_minor_mode(1, "flycheck-mode");
    assert!(!reg.is_minor_mode_active(1, "flycheck-mode"));
}

#[test]
fn toggle_minor_mode() {
    let mut reg = ModeRegistry::new();
    reg.register_minor_mode(MinorMode {
        name: "linum-mode".to_string(),
        lighter: Some(" Ln".to_string()),
        keymap_name: None,
        global: false,
        body: None,
    });

    let active = reg.toggle_minor_mode(1, "linum-mode").unwrap();
    assert!(active);
    assert!(reg.is_minor_mode_active(1, "linum-mode"));

    let active = reg.toggle_minor_mode(1, "linum-mode").unwrap();
    assert!(!active);
    assert!(!reg.is_minor_mode_active(1, "linum-mode"));
}

#[test]
fn toggle_unknown_minor_mode_fails() {
    let mut reg = ModeRegistry::new();
    let result = reg.toggle_minor_mode(1, "nonexistent");
    assert!(result.is_err());
}

#[test]
fn active_minor_modes_lists_all() {
    let mut reg = ModeRegistry::new();
    reg.register_minor_mode(MinorMode {
        name: "mode-a".to_string(),
        lighter: Some(" A".to_string()),
        keymap_name: None,
        global: false,
        body: None,
    });
    reg.register_minor_mode(MinorMode {
        name: "mode-b".to_string(),
        lighter: Some(" B".to_string()),
        keymap_name: None,
        global: false,
        body: None,
    });

    reg.enable_minor_mode(1, "mode-a").unwrap();
    reg.enable_minor_mode(1, "mode-b").unwrap();

    let active = reg.active_minor_modes(1);
    assert_eq!(active.len(), 2);
    assert!(active.contains(&"mode-a".to_string()));
    assert!(active.contains(&"mode-b".to_string()));
}

#[test]
fn enable_minor_mode_idempotent() {
    let mut reg = ModeRegistry::new();
    reg.register_minor_mode(MinorMode {
        name: "hl-line-mode".to_string(),
        lighter: None,
        keymap_name: None,
        global: false,
        body: None,
    });

    reg.enable_minor_mode(1, "hl-line-mode").unwrap();
    reg.enable_minor_mode(1, "hl-line-mode").unwrap();

    let active = reg.active_minor_modes(1);
    assert_eq!(active.len(), 1);
}

#[test]
fn global_minor_mode_active_in_all_buffers() {
    let mut reg = ModeRegistry::new();
    reg.register_minor_mode(MinorMode {
        name: "global-hl-line-mode".to_string(),
        lighter: Some(" HL".to_string()),
        keymap_name: None,
        global: true,
        body: None,
    });

    reg.enable_global_minor_mode("global-hl-line-mode").unwrap();

    assert!(reg.is_minor_mode_active(1, "global-hl-line-mode"));
    assert!(reg.is_minor_mode_active(99, "global-hl-line-mode"));
}

#[test]
fn disable_global_minor_mode() {
    let mut reg = ModeRegistry::new();
    reg.register_minor_mode(MinorMode {
        name: "global-mode".to_string(),
        lighter: None,
        keymap_name: None,
        global: true,
        body: None,
    });

    reg.enable_global_minor_mode("global-mode").unwrap();
    assert!(reg.is_minor_mode_active(1, "global-mode"));

    reg.disable_global_minor_mode("global-mode");
    assert!(!reg.is_minor_mode_active(1, "global-mode"));
}

#[test]
fn global_and_buffer_local_no_duplicates() {
    let mut reg = ModeRegistry::new();
    reg.register_minor_mode(MinorMode {
        name: "shared-mode".to_string(),
        lighter: Some(" S".to_string()),
        keymap_name: None,
        global: false,
        body: None,
    });

    reg.enable_global_minor_mode("shared-mode").unwrap();
    reg.enable_minor_mode(1, "shared-mode").unwrap();

    let active = reg.active_minor_modes(1);
    assert_eq!(active.iter().filter(|m| m.as_str() == "shared-mode").count(), 1);
}

#[test]
fn auto_mode_alist_suffix_match() {
    let mut reg = ModeRegistry::new();
    reg.register_major_mode(plain_major("rust-mode", "Rust", None, "rust-mode-hook"));
    reg.add_auto_mode(".rs".to_string(), "rust-mode".to_string());

    assert_eq!(reg.mode_for_file("main.rs"), Some("rust-mode".to_string()));
    assert_eq!(reg.mode_for_file("lib.rs"), Some("rust-mode".to_string()));
    assert_eq!(reg.mode_for_file("main.py"), None);
}

#[test]
fn auto_mode_alist_first_match_wins() {
    let mut reg = ModeRegistry::new();
    reg.register_major_mode(plain_major("mode-a", "A", None, "mode-a-hook"));
    reg.register_major_mode(plain_major("mode-b", "B", None, "mode-b-hook"));
    reg.add_auto_mode(".txt".to_string(), "mode-a".to_string());
    reg.add_auto_mode(".txt".to_string(), "mode-b".to_string());

    assert_eq!(reg.mode_for_file("file.txt"), Some("mode-a".to_string()));
}

#[test]
fn mode_line_string_fundamental() {
    let reg = ModeRegistry::new();
    let s = reg.mode_line_string(1);
    assert_eq!(s, "(Fundamental)");
}

#[test]
fn mode_line_string_with_minor_modes() {
    let mut reg = ModeRegistry::new();
    reg.register_minor_mode(MinorMode {
        name: "auto-fill-mode".to_string(),
        lighter: Some(" Fill".to_string()),
        keymap_name: None,
        global: false,
        body: None,
    });
    reg.enable_minor_mode(1, "auto-fill-mode").unwrap();

    let s = reg.mode_line_string(1);
    assert_eq!(s, "(Fundamental Fill)");
}

#[test]
fn font_lock_keywords_none() {
    let reg = ModeRegistry::new();
    assert!(reg.font_lock_keywords("fundamental-mode").is_none());
}

#[test]
fn register_custom_variable() {
    let mut reg = ModeRegistry::new();
    reg.register_custom_variable(CustomVariable {
        name: "indent-tabs-mode".to_string(),
        default_value: Value::True,
        doc: Some("Use tabs for indentation.".to_string()),
        type_: CustomType::Boolean,
        group: None,
        set_function: None,
        get_function: None,
        tag: None,
    });

    let var = reg.get_custom_variable("indent-tabs-mode").unwrap();
    assert_eq!(var.name, "indent-tabs-mode");
    assert!(var.default_value.is_truthy());
}

#[test]
fn custom_variable_in_group() {
    let mut reg = ModeRegistry::new();
    reg.register_custom_group(CustomGroup {
        name: "editing".to_string(),
        doc: Some("Editing options.".to_string()),
        parent: None,
        members: vec![],
    });

    reg.register_custom_variable(CustomVariable {
        name: "fill-column".to_string(),
        default_value: Value::Int(70),
        doc: None,
        type_: CustomType::Integer,
        group: Some("editing".to_string()),
        set_function: None,
        get_function: None,
        tag: None,
    });

    let group = reg.get_custom_group("editing").unwrap();
    assert!(group.members.contains(&"fill-column".to_string()));
}

#[test]
fn derived_mode_p_self() {
    let mut reg = ModeRegistry::new();
    reg.register_major_mode(plain_major("text-mode", "Text", None, "text-mode-hook"));

    assert!(reg.derived_mode_p("text-mode", "text-mode"));
}

#[test]
fn derived_mode_p_parent_chain() {
    let mut reg = ModeRegistry::new();
    reg.register_major_mode(plain_major("text-mode", "Text", None, "text-mode-hook"));
    reg.register_major_mode(plain_major("org-mode", "Org", Some("text-mode"), "org-mode-hook"));
    reg.register_major_mode(plain_major(
        "org-journal-mode",
        "Org-Journal",
        Some("org-mode"),
        "org-journal-mode-hook",
    ));

    assert!(reg.derived_mode_p("org-journal-mode", "text-mode"));
    assert!(reg.derived_mode_p("org-journal-mode", "org-mode"));
    assert!(reg.derived_mode_p("org-mode", "text-mode"));
    assert!(!reg.derived_mode_p("text-mode", "org-mode"));
}

#[test]
fn derived_mode_p_unrelated() {
    let mut reg = ModeRegistry::new();
    reg.register_major_mode(plain_major("text-mode", "Text", None, "text-mode-hook"));
    reg.register_major_mode(plain_major("prog-mode", "Prog", None, "prog-mode-hook"));

    assert!(!reg.derived_mode_p("text-mode", "prog-mode"));
    assert!(!reg.derived_mode_p("prog-mode", "text-mode"));
}

#[test]
fn remove_buffer_cleans_up() {
    let mut reg = ModeRegistry::new();
    reg.register_minor_mode(MinorMode {
        name: "test-mode".to_string(),
        lighter: None,
        keymap_name: None,
        global: false,
        body: None,
    });

    reg.set_major_mode(1, "fundamental-mode").unwrap();
    reg.enable_minor_mode(1, "test-mode").unwrap();

    reg.remove_buffer(1);

    assert_eq!(reg.get_major_mode(1), "fundamental-mode");
    assert!(
        reg.active_minor_modes(1).is_empty()
            || reg.active_minor_modes(1).iter().all(
                |m| reg.global_minor_modes.contains(&m.to_string()),
            ),
    );
}

#[test]
fn font_lock_level_default_is_level3() {
    let level = FontLockLevel::default();
    assert_eq!(level, FontLockLevel::Level3);
}

#[test]
fn mode_line_format_default_has_elements() {
    let fmt = ModeLineFormat::default_format();
    assert!(!fmt.elements.is_empty());
}

#[test]
fn custom_type_choice() {
    let mut reg = ModeRegistry::new();
    reg.register_custom_variable(CustomVariable {
        name: "my-choice".to_string(),
        default_value: Value::symbol("fast"),
        doc: None,
        type_: CustomType::Choice(vec![
            ("fast".to_string(), Value::symbol("fast")),
            ("slow".to_string(), Value::symbol("slow")),
        ]),
        group: None,
        set_function: None,
        get_function: None,
        tag: None,
    });

    let var = reg.get_custom_variable("my-choice").unwrap();
    assert!(matches!(var.type_, CustomType::Choice(_)));
}

#[test]
fn custom_type_nested_list() {
    let mut reg = ModeRegistry::new();
    reg.register_custom_variable(CustomVariable {
        name: "my-list".to_string(),
        default_value: Value::Nil,
        doc: None,
        type_: CustomType::List(Box::new(CustomType::Text)),
        group: None,
        set_function: None,
        get_function: None,
        tag: None,
    });

    let var = reg.get_custom_variable("my-list").unwrap();
    assert!(matches!(var.type_, CustomType::List(_)));
}

#[test]
fn mode_line_format_render() {
    let reg = ModeRegistry::new();
    let fmt = ModeLineFormat::default_format();
    let rendered = fmt.render(1, &reg, "*scratch*", false, false, 1, 0, 0);
    assert!(rendered.contains("*scratch*"));
    assert!(rendered.contains("Fundamental"));
    assert!(rendered.contains("Top"));
    assert!(rendered.contains("--"));
}

#[test]
fn mode_line_format_modified_and_readonly() {
    let reg = ModeRegistry::new();
    let fmt = ModeLineFormat::default_format();
    let rendered_mod = fmt.render(1, &reg, "notes.txt", true, false, 10, 5, 50);
    assert!(rendered_mod.contains("**"));
    assert!(rendered_mod.contains("50%"));
    assert!(rendered_mod.contains("10:5"));

    let rendered_ro = fmt.render(1, &reg, "notes.txt", false, true, 1, 1, 100);
    assert!(rendered_ro.contains("%%"));
    assert!(rendered_ro.contains("Bot"));
}
