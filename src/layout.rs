use vstd::prelude::*;
use crate::text::same_text;

verus! {

/// Layout modes of the interface.
#[derive(Debug, Clone, Copy, PartialEq, Eq, Structural)]
pub enum LayoutMode {
    Normal,
    CommandApproval,
    SpecNavigation,
}

/// Size of the terminal, in cells.
#[derive(Debug, Clone, Copy, PartialEq, Eq, Structural)]
pub struct WindowDimensions {
    pub terminal_width: u32,
    pub terminal_height: u32,
}

/// Window position, in cells from the top left corner.
#[derive(Debug, Clone, Copy, PartialEq, Eq, Structural)]
pub struct Position {
    pub col: u32,
    pub row: u32,
}

/// Window size, in cells.
#[derive(Debug, Clone, Copy, PartialEq, Eq, Structural)]
pub struct Size {
    pub width: u32,
    pub height: u32,
}

/// Where a floating window goes, and how high it stacks.
#[derive(Debug, Clone, Copy, PartialEq, Eq, Structural)]
pub struct WindowLayoutConfig {
    pub position: Position,
    pub size: Size,
    pub z_index: i32,
}

/// A placed window with its editor ids.
#[derive(Debug, Clone, Copy, PartialEq, Eq, Structural)]
pub struct WindowConfig {
    pub buffer_id: i32,
    pub window_id: i32,
    pub position: Position,
    pub size: Size,
    pub z_index: i32,
}

/// The windows of the interface and the mode they are laid out in.
#[derive(Debug, Clone, Copy, PartialEq, Eq, Structural)]
pub struct WindowState {
    pub chat_window: Option<WindowConfig>,
    pub input_window: Option<WindowConfig>,
    pub command_approval_window: Option<WindowConfig>,
    pub layout_mode: LayoutMode,
    pub dimensions: WindowDimensions,
}

/// `p` percent of `n`, rounded down.
pub open spec fn percent(n: u32, p: int) -> int {
    (n as int) * p / 100
}

pub open spec fn layout(col: int, row: int, width: int, height: int, z: i32) -> WindowLayoutConfig {
    WindowLayoutConfig {
        position: Position { col: col as u32, row: row as u32 },
        size: Size { width: width as u32, height: height as u32 },
        z_index: z,
    }
}

/// The chat window: 80% of the width and 60% of the height, centred across, a quarter of
/// the free rows above it.
pub open spec fn chat_layout(d: WindowDimensions) -> WindowLayoutConfig {
    let w = percent(d.terminal_width, 80);
    let h = percent(d.terminal_height, 60);
    layout((d.terminal_width - w) / 2, (d.terminal_height - h) / 4, w, h, 100)
}

/// The input window: 80% of the width, three rows, two rows above the bottom.
pub open spec fn input_layout(d: WindowDimensions) -> WindowLayoutConfig {
    let w = percent(d.terminal_width, 80);
    layout((d.terminal_width - w) / 2, d.terminal_height - 3 - 2, w, 3, 101)
}

/// The chat window beside a command approval: 40% of the height, a sixth of the free rows
/// above it.
pub open spec fn chat_with_command_layout(d: WindowDimensions) -> WindowLayoutConfig {
    let w = percent(d.terminal_width, 80);
    let h = percent(d.terminal_height, 40);
    layout((d.terminal_width - w) / 2, (d.terminal_height - h) / 6, w, h, 100)
}

/// The command approval window: 80% of the width, eight rows, from the middle row down.
pub open spec fn command_layout(d: WindowDimensions) -> WindowLayoutConfig {
    let w = percent(d.terminal_width, 80);
    layout((d.terminal_width - w) / 2, (d.terminal_height / 2) as int, w, 8, 102)
}

/// The window fits inside the terminal.
pub open spec fn fits(d: WindowDimensions, c: WindowLayoutConfig) -> bool {
    c.position.col + c.size.width <= d.terminal_width && c.position.row + c.size.height
        <= d.terminal_height
}

/// Moves one axis into `[0, limit)`: the extent first grows to `min_extent`; an extent
/// that fits is moved back inside, one that does not is cut to the limit at 0.
pub open spec fn adjust_axis(start: u32, extent: u32, min_extent: u32, limit: u32) -> (u32, u32) {
    let e = if extent < min_extent { min_extent } else { extent };
    if start + e > limit {
        if e <= limit {
            ((limit - e) as u32, e)
        } else {
            (0u32, limit)
        }
    } else {
        (start, e)
    }
}

pub open spec fn adjusted(d: WindowDimensions, c: WindowLayoutConfig) -> WindowLayoutConfig {
    let (col, width) = adjust_axis(c.position.col, c.size.width, 20, d.terminal_width);
    let (row, height) = adjust_axis(c.position.row, c.size.height, 3, d.terminal_height);
    WindowLayoutConfig {
        position: Position { col, row },
        size: Size { width, height },
        z_index: c.z_index,
    }
}

/// One axis of `adjust_to_bounds`.
fn adjust_axis_exec(start: u32, extent: u32, min_extent: u32, limit: u32) -> (r: (u32, u32))
    ensures
        r == adjust_axis(start, extent, min_extent, limit),
        r.0 + r.1 <= limit,
{
    let e = if extent < min_extent {
        min_extent
    } else {
        extent
    };
    if (start as u64) + (e as u64) > limit as u64 {
        if e <= limit {
            (limit - e, e)
        } else {
            (0, limit)
        }
    } else {
        (start, e)
    }
}

impl WindowDimensions {
    pub fn new(width: u32, height: u32) -> (r: WindowDimensions)
        ensures
            r.terminal_width == width,
            r.terminal_height == height,
    {
        WindowDimensions { terminal_width: width, terminal_height: height }
    }

    /// 80% of the terminal width, rounded down.
    fn four_fifths_width(&self) -> (r: u32)
        ensures
            r == percent(self.terminal_width, 80),
            r <= self.terminal_width,
    {
        ((self.terminal_width as u64) * 80 / 100) as u32
    }

    pub fn calculate_chat_window_config(&self) -> (r: WindowLayoutConfig)
        ensures
            r == chat_layout(*self),
    {
        let width = self.four_fifths_width();
        let height = ((self.terminal_height as u64) * 60 / 100) as u32;
        let col = (self.terminal_width - width) / 2;
        let row = (self.terminal_height - height) / 4;
        WindowLayoutConfig {
            position: Position { col, row },
            size: Size { width, height },
            z_index: 100,
        }
    }

    pub fn calculate_input_window_config(&self) -> (r: WindowLayoutConfig)
        requires
            self.terminal_height >= 5,
        ensures
            r == input_layout(*self),
    {
        let width = self.four_fifths_width();
        let height: u32 = 3;
        let col = (self.terminal_width - width) / 2;
        let row = self.terminal_height - height - 2;
        WindowLayoutConfig {
            position: Position { col, row },
            size: Size { width, height },
            z_index: 101,
        }
    }

    pub fn calculate_chat_window_config_with_command(&self) -> (r: WindowLayoutConfig)
        ensures
            r == chat_with_command_layout(*self),
    {
        let width = self.four_fifths_width();
        let height = ((self.terminal_height as u64) * 40 / 100) as u32;
        let col = (self.terminal_width - width) / 2;
        let row = (self.terminal_height - height) / 6;
        WindowLayoutConfig {
            position: Position { col, row },
            size: Size { width, height },
            z_index: 100,
        }
    }

    pub fn calculate_command_approval_window_config(&self) -> (r: WindowLayoutConfig)
        ensures
            r == command_layout(*self),
    {
        let width = self.four_fifths_width();
        let height: u32 = 8;
        let col = (self.terminal_width - width) / 2;
        let row = self.terminal_height / 2;
        WindowLayoutConfig {
            position: Position { col, row },
            size: Size { width, height },
            z_index: 102,
        }
    }

    /// The layout of a window by its kind ("chat", "input" or "command") and the layout
    /// mode; any other kind is laid out as the chat window.
    pub fn calculate_responsive_config(&self, window_type: &str, layout_mode: &LayoutMode) -> (r:
        WindowLayoutConfig)
        requires
            window_type@ == "input"@ ==> self.terminal_height >= 5,
        ensures
            r == (if window_type@ == "chat"@ && *layout_mode == LayoutMode::CommandApproval {
                chat_with_command_layout(*self)
            } else if window_type@ == "input"@ {
                input_layout(*self)
            } else if window_type@ == "command"@ {
                command_layout(*self)
            } else {
                chat_layout(*self)
            }),
    {
        proof {
            reveal_strlit("chat");
            reveal_strlit("input");
            reveal_strlit("command");
            assert("chat"@.len() == 4 && "input"@.len() == 5 && "command"@.len() == 7);
        }
        if same_text(window_type, "chat") {
            match layout_mode {
                LayoutMode::CommandApproval => self.calculate_chat_window_config_with_command(),
                _ => self.calculate_chat_window_config(),
            }
        } else if same_text(window_type, "input") {
            self.calculate_input_window_config()
        } else if same_text(window_type, "command") {
            self.calculate_command_approval_window_config()
        } else {
            self.calculate_chat_window_config()
        }
    }

    /// Whether the window fits inside the terminal.
    pub fn validate_window_bounds(&self, config: &WindowLayoutConfig) -> (r: bool)
        ensures
            r == fits(*self, *config),
    {
        (config.position.col as u64) + (config.size.width as u64) <= self.terminal_width as u64
            && (config.position.row as u64) + (config.size.height as u64)
            <= self.terminal_height as u64
    }

    /// Brings a window inside the terminal: at least 20 columns and 3 rows where the
    /// terminal has them, moved back inside, or cut to the terminal when too large.
    pub fn adjust_to_bounds(&self, config: WindowLayoutConfig) -> (r: WindowLayoutConfig)
        ensures
            r == adjusted(*self, config),
            fits(*self, r),
            r.size.width >= if self.terminal_width < 20 { self.terminal_width } else { 20 },
            r.size.height >= if self.terminal_height < 3 { self.terminal_height } else { 3 },
    {
        let (col, width) = adjust_axis_exec(
            config.position.col,
            config.size.width,
            20,
            self.terminal_width,
        );
        let (row, height) = adjust_axis_exec(
            config.position.row,
            config.size.height,
            3,
            self.terminal_height,
        );
        WindowLayoutConfig {
            position: Position { col, row },
            size: Size { width, height },
            z_index: config.z_index,
        }
    }
}

impl Default for WindowDimensions {
    fn default() -> (r: WindowDimensions)
        ensures
            r.terminal_width == 80,
            r.terminal_height == 24,
    {
        WindowDimensions::new(80, 24)
    }
}

} // verus!
