use spec_agent::editor::{
    AutoCommand, CommandOptions, KeymapOptions, NeovimCommand, NotificationLevel,
    PluginRegistration, WindowConfig,
};

#[test]
fn test_window_config_default() {
    let config = WindowConfig::default();
    assert_eq!(config.width, 80);
    assert_eq!(config.height, 20);
    assert_eq!(config.relative, "editor");
    assert_eq!(config.style, "minimal");
    assert_eq!(config.border, "rounded");
    assert!(config.focusable);
    assert!(config.zindex.is_none());
}

#[test]
fn test_keymap_options_default() {
    let opts = KeymapOptions::default();
    assert!(opts.noremap);
    assert!(opts.silent);
    assert!(!opts.expr);
    assert!(opts.desc.is_none());
}

#[test]
fn test_command_options_default() {
    let opts = CommandOptions::default();
    assert!(opts.force);
    assert!(opts.nargs.is_none());
    assert!(opts.complete.is_none());
    assert!(opts.desc.is_none());
}

#[test]
fn test_plugin_registration_creation() {
    let registration = PluginRegistration::new("test-plugin");
    assert_eq!(registration.name, "test-plugin");
    assert!(registration.commands.is_empty());
    assert!(registration.keymaps.is_empty());
    assert!(registration.autocmds.is_empty());
}

#[test]
fn test_plugin_registration_add_command() {
    let mut registration = PluginRegistration::new("test-plugin");
    let opts = CommandOptions {
        desc: Some("Test command".to_string()),
        ..Default::default()
    };

    registration.add_command("TestCmd", "echo 'test'", opts);
    assert_eq!(registration.commands.len(), 1);
    assert_eq!(registration.commands[0].0, "TestCmd");
    assert_eq!(registration.commands[0].1, "echo 'test'");
}

#[test]
fn test_plugin_registration_add_keymap() {
    let mut registration = PluginRegistration::new("test-plugin");
    let opts = KeymapOptions {
        desc: Some("Test keymap".to_string()),
        ..Default::default()
    };

    registration.add_keymap("n", "<leader>t", ":TestCmd<CR>", opts);
    assert_eq!(registration.keymaps.len(), 1);
    assert_eq!(registration.keymaps[0].0, "n");
    assert_eq!(registration.keymaps[0].1, "<leader>t");
    assert_eq!(registration.keymaps[0].2, ":TestCmd<CR>");
}

#[test]
fn test_autocmd_creation() {
    let autocmd = AutoCommand {
        event: "BufEnter".to_string(),
        pattern: Some("*.rs".to_string()),
        callback: "print('Rust file opened')".to_string(),
        group: Some("RustGroup".to_string()),
    };

    assert_eq!(autocmd.event, "BufEnter");
    assert_eq!(autocmd.pattern, Some("*.rs".to_string()));
    assert_eq!(autocmd.callback, "print('Rust file opened')");
    assert_eq!(autocmd.group, Some("RustGroup".to_string()));
}

#[test]
fn test_neovim_command_variants() {
    let cmd1 = NeovimCommand::CreateBuffer { name: Some("test.txt".to_string()) };
    let cmd2 = NeovimCommand::ShowNotification {
        message: "Hello".to_string(),
        level: NotificationLevel::Info,
    };

    match cmd1 {
        NeovimCommand::CreateBuffer { name } => {
            assert_eq!(name, Some("test.txt".to_string()));
        }
        _ => panic!("Wrong command variant"),
    }

    match cmd2 {
        NeovimCommand::ShowNotification { message, level } => {
            assert_eq!(message, "Hello");
            assert!(matches!(level, NotificationLevel::Info));
        }
        _ => panic!("Wrong command variant"),
    }
}

#[test]
fn registration_keeps_order_of_additions() {
    let mut registration = PluginRegistration::new("p");
    registration.add_command("A", "a()", CommandOptions::default());
    registration.add_command("B", "b()", CommandOptions::default());
    registration.add_autocmd(AutoCommand {
        event: "BufWritePost".to_string(),
        pattern: None,
        callback: "f".to_string(),
        group: None,
    });
    assert_eq!(registration.commands.len(), 2);
    assert_eq!(registration.commands[1].0, "B");
    assert_eq!(registration.autocmds.len(), 1);
    assert_eq!(registration.autocmds[0].event, "BufWritePost");
    assert!(registration.keymaps.is_empty());
}
