use vstd::prelude::*;

verus! {

/// How loud a message to the user is.
#[derive(Debug, Clone, Copy, PartialEq, Eq, Structural)]
pub enum NotificationLevel {
    Info,
    Warning,
    Error,
}

/// A floating window to open in the editor.
#[derive(Debug, Clone)]
pub struct WindowConfig {
    pub width: u32,
    pub height: u32,
    pub col: u32,
    pub row: u32,
    pub relative: String,
    pub style: String,
    pub border: String,
    pub focusable: bool,
    pub zindex: Option<u32>,
}

/// Options of a key binding.
#[derive(Debug, Clone)]
pub struct KeymapOptions {
    pub noremap: bool,
    pub silent: bool,
    pub expr: bool,
    pub desc: Option<String>,
}

/// Options of a user command.
#[derive(Debug, Clone)]
pub struct CommandOptions {
    pub force: bool,
    pub nargs: Option<String>,
    pub complete: Option<String>,
    pub desc: Option<String>,
}

/// An autocommand: a callback run on an editor event.
#[derive(Debug, Clone)]
pub struct AutoCommand {
    pub event: String,
    pub pattern: Option<String>,
    pub callback: String,
    pub group: Option<String>,
}

/// Requests sent to the editor.
#[derive(Debug, Clone)]
pub enum NeovimCommand {
    CreateBuffer { name: Option<String> },
    CreateWindow { buffer_id: i32, config: WindowConfig },
    SetBufferLines { buffer_id: i32, lines: Vec<String> },
    ExecuteLua { code: String },
    ShowNotification { message: String, level: NotificationLevel },
    RegisterCommand { name: String, lua_callback: String },
    SetKeymap { mode: String, lhs: String, rhs: String, opts: KeymapOptions },
}

impl Default for CommandOptions {
    /// A forced command with no argument spec, completion or description.
    fn default() -> (r: CommandOptions)
        ensures
            r.force,
            r.nargs is None,
            r.complete is None,
            r.desc is None,
    {
        CommandOptions { force: true, nargs: None, complete: None, desc: None }
    }
}

impl Default for KeymapOptions {
    /// A silent, non-recursive, non-expression mapping without description.
    fn default() -> (r: KeymapOptions)
        ensures
            r.noremap,
            r.silent,
            !r.expr,
            r.desc is None,
    {
        KeymapOptions { noremap: true, silent: true, expr: false, desc: None }
    }
}

impl Default for WindowConfig {
    /// An 80 by 20 focusable window at column 10, row 5 of the editor, minimal style,
    /// rounded border, default stacking.
    fn default() -> (r: WindowConfig)
        ensures
            r.width == 80,
            r.height == 20,
            r.col == 10,
            r.row == 5,
            r.relative@ == "editor"@,
            r.style@ == "minimal"@,
            r.border@ == "rounded"@,
            r.focusable,
            r.zindex is None,
    {
        WindowConfig {
            width: 80,
            height: 20,
            col: 10,
            row: 5,
            relative: "editor".to_owned(),
            style: "minimal".to_owned(),
            border: "rounded".to_owned(),
            focusable: true,
            zindex: None,
        }
    }
}

/// What a plugin registers with the editor: user commands, key bindings, autocommands.
pub struct PluginRegistration {
    pub name: String,
    /// Name, callback and options of each user command, in the order added.
    pub commands: Vec<(String, String, CommandOptions)>,
    /// Mode, left-hand side, right-hand side and options of each binding, in order.
    pub keymaps: Vec<(String, String, String, KeymapOptions)>,
    pub autocmds: Vec<AutoCommand>,
}

impl PluginRegistration {
    /// An empty registration under a name.
    pub fn new(name: &str) -> (r: PluginRegistration)
        ensures
            r.name@ == name@,
            r.commands@.len() == 0,
            r.keymaps@.len() == 0,
            r.autocmds@.len() == 0,
    {
        PluginRegistration {
            name: name.to_owned(),
            commands: Vec::new(),
            keymaps: Vec::new(),
            autocmds: Vec::new(),
        }
    }

    /// Adds a user command after those already added.
    pub fn add_command(&mut self, name: &str, callback: &str, opts: CommandOptions)
        ensures
            final(self).name == old(self).name,
            final(self).keymaps == old(self).keymaps,
            final(self).autocmds == old(self).autocmds,
            final(self).commands@.len() == old(self).commands@.len() + 1,
            final(self).commands@.drop_last() == old(self).commands@,
            final(self).commands@.last().0@ == name@,
            final(self).commands@.last().1@ == callback@,
            final(self).commands@.last().2 == opts,
    {
        self.commands.push((name.to_owned(), callback.to_owned(), opts));
    }

    /// Adds a key binding after those already added.
    pub fn add_keymap(&mut self, mode: &str, lhs: &str, rhs: &str, opts: KeymapOptions)
        ensures
            final(self).name == old(self).name,
            final(self).commands == old(self).commands,
            final(self).autocmds == old(self).autocmds,
            final(self).keymaps@.len() == old(self).keymaps@.len() + 1,
            final(self).keymaps@.drop_last() == old(self).keymaps@,
            final(self).keymaps@.last().0@ == mode@,
            final(self).keymaps@.last().1@ == lhs@,
            final(self).keymaps@.last().2@ == rhs@,
            final(self).keymaps@.last().3 == opts,
    {
        self.keymaps.push((mode.to_owned(), lhs.to_owned(), rhs.to_owned(), opts));
    }

    /// Adds an autocommand after those already added.
    pub fn add_autocmd(&mut self, autocmd: AutoCommand)
        ensures
            final(self).name == old(self).name,
            final(self).commands == old(self).commands,
            final(self).keymaps == old(self).keymaps,
            final(self).autocmds@ == old(self).autocmds@.push(autocmd),
    {
        self.autocmds.push(autocmd);
    }
}

} // verus!
