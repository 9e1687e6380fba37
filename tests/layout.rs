use spec_agent::layout::{LayoutMode, Position, Size, WindowDimensions, WindowLayoutConfig};

#[test]
fn test_window_dimensions_calculations() {
    let dimensions = WindowDimensions::new(100, 50);

    let chat_config = dimensions.calculate_chat_window_config();
    assert_eq!(chat_config.size.width, 80);
    assert_eq!(chat_config.size.height, 30);
    assert_eq!(chat_config.position.col, 10);

    let input_config = dimensions.calculate_input_window_config();
    assert_eq!(input_config.size.width, 80);
    assert_eq!(input_config.size.height, 3);
    assert_eq!(input_config.position.col, 10);

    let command_config = dimensions.calculate_command_approval_window_config();
    assert_eq!(command_config.size.width, 80);
    assert_eq!(command_config.size.height, 8);
    assert_eq!(command_config.position.col, 10);
}

#[test]
fn test_responsive_layout_calculations() {
    let dimensions = WindowDimensions::new(120, 40);

    let normal_chat = dimensions.calculate_responsive_config("chat", &LayoutMode::Normal);
    let command_chat = dimensions.calculate_responsive_config("chat", &LayoutMode::CommandApproval);

    assert!(command_chat.size.height < normal_chat.size.height);
}

#[test]
fn test_window_bounds_validation() {
    let dimensions = WindowDimensions::new(80, 24);

    let valid_config = WindowLayoutConfig {
        position: Position { col: 10, row: 5 },
        size: Size { width: 60, height: 15 },
        z_index: 100,
    };
    assert!(dimensions.validate_window_bounds(&valid_config));

    let invalid_config = WindowLayoutConfig {
        position: Position { col: 10, row: 5 },
        size: Size { width: 80, height: 15 },
        z_index: 100,
    };
    assert!(!dimensions.validate_window_bounds(&invalid_config));
}

#[test]
fn test_window_bounds_adjustment() {
    let dimensions = WindowDimensions::new(80, 24);

    let oversized_config = WindowLayoutConfig {
        position: Position { col: 70, row: 20 },
        size: Size { width: 50, height: 10 },
        z_index: 100,
    };

    let adjusted = dimensions.adjust_to_bounds(oversized_config);

    assert!(dimensions.validate_window_bounds(&adjusted));
    assert!(adjusted.size.width >= 20);
    assert!(adjusted.size.height >= 3);
}

#[test]
fn layout_exact_positions() {
    let d = WindowDimensions::new(100, 50);
    let chat = d.calculate_chat_window_config();
    assert_eq!((chat.position.row, chat.z_index), (5, 100));
    let input = d.calculate_input_window_config();
    assert_eq!((input.position.row, input.z_index), (45, 101));
    let with_command = d.calculate_chat_window_config_with_command();
    assert_eq!((with_command.size.height, with_command.position.row), (20, 5));
    let command = d.calculate_command_approval_window_config();
    assert_eq!((command.position.row, command.z_index), (25, 102));
    let other = d.calculate_responsive_config("sidebar", &LayoutMode::SpecNavigation);
    assert_eq!(other.size.height, 30);
    let by_name = d.calculate_responsive_config("command", &LayoutMode::Normal);
    assert_eq!(by_name.size.height, 8);
    assert_eq!(WindowDimensions::default(), WindowDimensions::new(80, 24));
}

#[test]
fn adjustment_moves_and_cuts() {
    let d = WindowDimensions::new(80, 24);
    let moved = d.adjust_to_bounds(WindowLayoutConfig {
        position: Position { col: 70, row: 20 },
        size: Size { width: 50, height: 10 },
        z_index: 7,
    });
    assert_eq!((moved.position.col, moved.size.width), (30, 50));
    assert_eq!((moved.position.row, moved.size.height), (14, 10));
    assert_eq!(moved.z_index, 7);
    let cut = d.adjust_to_bounds(WindowLayoutConfig {
        position: Position { col: 5, row: 0 },
        size: Size { width: 200, height: 1 },
        z_index: 1,
    });
    assert_eq!((cut.position.col, cut.size.width), (0, 80));
    assert_eq!((cut.position.row, cut.size.height), (0, 3));
    let tiny = WindowDimensions::new(10, 2);
    let squeezed = tiny.adjust_to_bounds(WindowLayoutConfig {
        position: Position { col: 0, row: 0 },
        size: Size { width: 1, height: 1 },
        z_index: 1,
    });
    assert_eq!((squeezed.size.width, squeezed.size.height), (10, 2));
    assert!(tiny.validate_window_bounds(&squeezed));
}
