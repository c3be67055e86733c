use vstd::prelude::*;
use crate::escape::{escape_time, mandelbrot_iterations};
use crate::palette::{iteration_to_color, palette_color_spec, PaletteColor};
use crate::viewport::{divide_by_zoom_exec, view_range, App, MAX_VIEW_RANGE, VIEW_RANGE};

verus! {

/// Width of the character grid, in cells.
pub const GRID_WIDTH: u16 = 80;

/// Height of the character grid, in cells.
pub const GRID_HEIGHT: u16 = 40;

/// One painted cell of a frame.
#[derive(Clone, Copy, Debug, PartialEq, Eq, Structural)]
pub struct Cell {
    pub column: u16,
    pub row: u16,
    pub color: PaletteColor,
}

/// The abscissa (fixed point) of grid column `i`: the visible interval
/// `center_x ∓ 2 * range` split into 80 equal parts.
pub open spec fn plane_x(app: App, i: int) -> int {
    let range = view_range(app.zoom_level as int);
    let x_min = app.center_x - 2 * range;
    let x_max = app.center_x + 2 * range;
    x_min + (i * (x_max - x_min)) / (GRID_WIDTH as int)
}

/// The ordinate (fixed point) of grid row `j`: the visible interval
/// `center_y ∓ range` split into 40 equal parts.
pub open spec fn plane_y(app: App, j: int) -> int {
    let range = view_range(app.zoom_level as int);
    let y_min = app.center_y - range;
    let y_max = app.center_y + range;
    y_min + (j * (y_max - y_min)) / (GRID_HEIGHT as int)
}

/// The colour of grid cell `(i, j)` in the frame for `app`.
pub open spec fn cell_color(app: App, i: int, j: int) -> PaletteColor {
    palette_color_spec(
        escape_time((plane_x(app, i), plane_y(app, j)), app.max_iterations as nat) as int,
        app.max_iterations as int,
    )
}

/// Computes the frame for `app`: one cell per grid position, column by
/// column, each coloured by the escape time of the plane point it covers.
pub fn render_cells(app: &App) -> (cells: Vec<Cell>)
    requires
        app.wf(),
    ensures
        cells@.len() == GRID_WIDTH * GRID_HEIGHT,
        forall|i: int, j: int|
            0 <= i < GRID_WIDTH && 0 <= j < GRID_HEIGHT ==> #[trigger] cells@[i * GRID_HEIGHT + j]
                == (Cell { column: i as u16, row: j as u16, color: cell_color(*app, i, j) }),
{
    let range = divide_by_zoom_exec(VIEW_RANGE, app.zoom_level) as i64;
    let x_min = app.center_x - 2 * range;
    let x_max = app.center_x + 2 * range;
    let y_min = app.center_y - range;
    let y_max = app.center_y + range;
    let mut cells: Vec<Cell> = Vec::new();
    let mut i: u16 = 0;
    while i < GRID_WIDTH
        invariant
            app.wf(),
            range == view_range(app.zoom_level as int),
            0 <= range <= MAX_VIEW_RANGE,
            x_min == app.center_x - 2 * range,
            x_max == app.center_x + 2 * range,
            y_min == app.center_y - range,
            y_max == app.center_y + range,
            i <= GRID_WIDTH,
            cells@.len() == i * GRID_HEIGHT,
            forall|a: int, b: int|
                0 <= a < i && 0 <= b < GRID_HEIGHT ==> #[trigger] cells@[a * GRID_HEIGHT + b]
                    == (Cell { column: a as u16, row: b as u16, color: cell_color(*app, a, b) }),
        decreases GRID_WIDTH - i,
    {
        let span = x_max - x_min;
        assert(0 <= i * span <= 80 * (4 * MAX_VIEW_RANGE)) by (nonlinear_arith)
            requires
                0 <= i <= 80,
                0 <= span <= 4 * MAX_VIEW_RANGE,
        ;
        let x = x_min + (i as i64 * span) / (GRID_WIDTH as i64);
        let mut j: u16 = 0;
        while j < GRID_HEIGHT
            invariant
                app.wf(),
                range == view_range(app.zoom_level as int),
                0 <= range <= MAX_VIEW_RANGE,
                y_min == app.center_y - range,
                y_max == app.center_y + range,
                x == plane_x(*app, i as int),
                i < GRID_WIDTH,
                j <= GRID_HEIGHT,
                cells@.len() == i * GRID_HEIGHT + j,
                forall|a: int, b: int|
                    0 <= a < i && 0 <= b < GRID_HEIGHT ==> #[trigger] cells@[a * GRID_HEIGHT + b]
                        == (Cell { column: a as u16, row: b as u16, color: cell_color(*app, a, b) }),
                forall|b: int|
                    0 <= b < j ==> #[trigger] cells@[i * GRID_HEIGHT + b] == (Cell {
                        column: i as u16,
                        row: b as u16,
                        color: cell_color(*app, i as int, b),
                    }),
            decreases GRID_HEIGHT - j,
        {
            let span = y_max - y_min;
            assert(0 <= j * span <= 40 * (2 * MAX_VIEW_RANGE)) by (nonlinear_arith)
                requires
                    0 <= j <= 40,
                    0 <= span <= 2 * MAX_VIEW_RANGE,
            ;
            let y = y_min + (j as i64 * span) / (GRID_HEIGHT as i64);
            let iterations = mandelbrot_iterations((x, y), app.max_iterations);
            let color = iteration_to_color(iterations, app.max_iterations);
            cells.push(Cell { column: i, row: j, color });
            j = j + 1;
        }
        i = i + 1;
    }
    cells
}

} // verus!
