use mandelbrot_viewer::{
    iteration_to_color, mandelbrot_iterations, render_cells, App, PaletteColor, SCALE,
};

#[test]
fn default_view_centre_cell_is_in_set() {
    let app = App::default();
    let cells = render_cells(&app);
    // Column 40 of 80 and row 20 of 40 sit exactly on the centre (-0.5, 0).
    let cell = cells[40 * 40 + 20];
    assert_eq!((cell.column, cell.row), (40, 20));
    assert_eq!(cell.color, PaletteColor::Black);
    assert_eq!(
        mandelbrot_iterations((-SCALE / 2, 0), app.max_iterations),
        app.max_iterations
    );
}

#[test]
fn frame_covers_the_grid_in_column_order() {
    let cells = render_cells(&App::default());
    assert_eq!(cells.len(), 3200);
    for (k, cell) in cells.iter().enumerate() {
        assert_eq!(cell.column as usize, k / 40);
        assert_eq!(cell.row as usize, k % 40);
    }
}

#[test]
fn default_frame_corner_escapes_early() {
    let cells = render_cells(&App::default());
    // Cell (0, 0) sits at (-4.5, -2.0), outside radius 2: escape time 1.
    assert_eq!(cells[0].color, iteration_to_color(1, 100));
    assert_eq!(cells[0].color, PaletteColor::Blue);
}

#[test]
fn frame_follows_the_viewport() {
    let mut app = App::default();
    app.zoom_in();
    app.move_right();
    let cells = render_cells(&app);
    let black = cells.iter().filter(|c| c.color == PaletteColor::Black).count();
    let default_black = render_cells(&App::default())
        .iter()
        .filter(|c| c.color == PaletteColor::Black)
        .count();
    assert!(black > 0);
    assert_ne!(black, default_black);
}
