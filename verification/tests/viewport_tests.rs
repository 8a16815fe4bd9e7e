use snake::direction::Direction;
use snake::game::Cell;
use snake::game::GameGrid;
use snake::render::render_commands;
use snake::render::Color;
use snake::viewport::Rect;
use snake::viewport::Viewport;

fn cell(col: u32, row: u32) -> Cell {
    Cell { col, row }
}

fn rect(x: u32, y: u32, w: u32, h: u32) -> Rect {
    Rect { x, y, w, h }
}

#[test]
fn scale_and_offsets_for_landscape_surface() {
    let vp = Viewport::new(800, 600, 20, 20);
    assert_eq!(vp.cell_pixel_size, 30);
    assert_eq!(vp.playfield_side, 600);
    assert_eq!(vp.offset_x, 100);
    assert_eq!(vp.offset_y, 0);
}

#[test]
fn mapping_scales_and_centers() {
    let vp = Viewport::new(800, 600, 20, 20);
    assert_eq!(vp.map_cell_to_pixel_rect(cell(0, 0)), rect(100, 0, 30, 30));
    assert_eq!(vp.map_cell_to_pixel_rect(cell(2, 3)), rect(160, 90, 30, 30));
    assert_eq!(
        vp.map_cell_to_pixel_rect(cell(19, 19)),
        rect(100 + 19 * 30, 19 * 30, 30, 30)
    );
}

#[test]
fn distinct_cells_get_disjoint_rectangles() {
    let vp = Viewport::new(800, 600, 20, 20);
    let a = vp.map_cell_to_pixel_rect(cell(0, 0));
    let b = vp.map_cell_to_pixel_rect(cell(1, 0));
    let c = vp.map_cell_to_pixel_rect(cell(0, 1));
    assert!(a.x + a.w <= b.x);
    assert!(a.y + a.h <= c.y);
    assert_ne!(a, b);
    assert_ne!(a, c);
}

#[test]
fn too_small_surface_degenerates_to_zero_size_cells() {
    let vp = Viewport::new(10, 10, 20, 20);
    assert_eq!(vp.cell_pixel_size, 0);
    assert_eq!(vp.playfield_side, 10);
    assert_eq!(vp.map_cell_to_pixel_rect(cell(3, 4)), rect(0, 0, 0, 0));
}

#[test]
fn resize_recomputes_mapping_and_keeps_grid() {
    let mut vp = Viewport::new(800, 600, 20, 20);
    vp.resize(1000, 1000);
    assert_eq!(vp.physical_width, 1000);
    assert_eq!(vp.physical_height, 1000);
    assert_eq!(vp.logical_width, 20);
    assert_eq!(vp.logical_height, 20);
    assert_eq!(vp.cell_pixel_size, 50);
    assert_eq!(vp.playfield_side, 1000);
    assert_eq!(vp.offset_x, 0);
    assert_eq!(vp.offset_y, 0);
}

#[test]
fn portrait_surface_centers_vertically() {
    let vp = Viewport::new(600, 800, 20, 10);
    assert_eq!(vp.cell_pixel_size, 30);
    assert_eq!(vp.playfield_side, 600);
    assert_eq!(vp.offset_x, 0);
    assert_eq!(vp.offset_y, 100);
}

#[test]
fn frame_lists_background_playfield_body_and_food() {
    let g = GameGrid::from_parts(
        vec![cell(1, 1), cell(1, 2)],
        Direction::Up,
        Direction::Up,
        cell(0, 0),
        3,
        3,
        0,
    )
    .expect("parts form a valid state");
    let vp = Viewport::new(90, 90, 3, 3);
    let cmds = render_commands(&g, &vp);
    assert_eq!(cmds.len(), 6);
    assert_eq!(cmds[0].color, Color::White);
    assert_eq!(cmds[0].rect, rect(0, 0, 90, 90));
    assert_eq!(cmds[1].color, Color::Black);
    assert_eq!(cmds[1].rect, rect(0, 0, 90, 90));
    assert_eq!(cmds[2].color, Color::Blue);
    assert_eq!(cmds[2].rect, rect(0, 0, 90, 90));
    assert_eq!(cmds[3].color, Color::Green);
    assert_eq!(cmds[3].rect, rect(30, 30, 30, 30));
    assert_eq!(cmds[4].color, Color::Green);
    assert_eq!(cmds[4].rect, rect(30, 60, 30, 30));
    assert_eq!(cmds[5].color, Color::Red);
    assert_eq!(cmds[5].rect, rect(0, 0, 30, 30));
}
