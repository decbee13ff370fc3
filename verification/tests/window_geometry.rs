//! Behaviour of the window-geometry helpers.

use game_of_life::window_size::{get_cell_from_window_pos, WindowSize};

fn size() -> WindowSize {
    WindowSize { cells_in_width: 100, cells_in_height: 75, cell_width: 8, cell_height: 8 }
}

#[test]
fn window_pixel_dimensions() {
    let s = size();
    assert_eq!(s.get_width(), 800);
    assert_eq!(s.get_height(), 600);
}

#[test]
fn pixel_position_maps_to_cell() {
    let s = size();
    assert_eq!(get_cell_from_window_pos(&s, (0, 0)), (0, 0));
    assert_eq!(get_cell_from_window_pos(&s, (7, 7)), (0, 0));
    assert_eq!(get_cell_from_window_pos(&s, (8, 15)), (1, 1));
    assert_eq!(get_cell_from_window_pos(&s, (799, 599)), (99, 74));
}

#[test]
fn negative_pixel_positions_truncate_toward_zero() {
    let s = size();
    assert_eq!(get_cell_from_window_pos(&s, (-1, -7)), (0, 0));
    assert_eq!(get_cell_from_window_pos(&s, (-8, -17)), (-1, -2));
}
