use mandelbrot_viewer::{
    render_cells, App, Command, COORD_LIMIT, DEFAULT_CENTER_X, MAX_ITERATIONS, MIN_ITERATIONS,
    MIN_ZOOM_LEVEL, SCALE,
};

fn zoom_of(app: &App) -> f64 {
    1.5f64.powi(app.zoom_level)
}

fn plane(v: i64) -> f64 {
    v as f64 / SCALE as f64
}

fn holds_invariant(app: &App) -> bool {
    zoom_of(app) > 0.0
        && MIN_ZOOM_LEVEL <= app.zoom_level
        && MIN_ITERATIONS <= app.max_iterations
        && app.max_iterations <= MAX_ITERATIONS
        && app.center_x.abs() <= COORD_LIMIT
        && app.center_y.abs() <= COORD_LIMIT
}

#[test]
fn default_view() {
    let app = App::default();
    assert_eq!(app.zoom_level, 0);
    assert_eq!(zoom_of(&app), 1.0);
    assert_eq!(plane(app.center_x), -0.5);
    assert_eq!(app.center_x, DEFAULT_CENTER_X);
    assert_eq!(app.center_y, 0);
    assert_eq!(app.max_iterations, 100);
}

#[test]
fn zoom_then_pan_scenario() {
    let mut app = App::default();
    app.zoom_in();
    app.zoom_in();
    app.zoom_in();
    assert_eq!(zoom_of(&app), 3.375);
    app.move_left();
    let expected = -0.5 - 0.1 / 3.375;
    assert!((plane(app.center_x) - expected).abs() < 1e-6);
    assert!((plane(app.center_x) - (-0.5296)).abs() < 1e-4);
    assert_eq!(app.center_y, 0);
}

#[test]
fn pans_move_by_a_tenth_over_zoom() {
    let mut app = App::default();
    app.move_right();
    assert!((plane(app.center_x) - (-0.4)).abs() < 1e-6);
    app.move_down();
    assert!((plane(app.center_y) - 0.1).abs() < 1e-6);
    app.move_up();
    app.move_up();
    assert!((plane(app.center_y) + 0.1).abs() < 1e-6);
    app.zoom_out();
    app.move_left();
    assert!((plane(app.center_x) - (-0.4 - 0.15)).abs() < 1e-6);
}

#[test]
fn zoom_out_divides_by_one_and_a_half() {
    let mut app = App::default();
    app.zoom_out();
    assert_eq!(app.zoom_level, -1);
    assert!((zoom_of(&app) - 1.0 / 1.5).abs() < 1e-12);
    app.zoom_in();
    assert_eq!(app.zoom_level, 0);
}

#[test]
fn zoom_in_always_multiplies() {
    let mut app = App::default();
    for n in 1..=200 {
        app.zoom_in();
        assert_eq!(app.zoom_level, n);
    }
    app.move_left();
    assert_eq!(render_cells(&app).len(), 3200);
    for _ in 0..200 {
        app.zoom_out();
    }
    assert_eq!(app.zoom_level, 0);
    let mut top = App { zoom_level: i32::MAX - 1, ..App::default() };
    top.zoom_in();
    assert_eq!(top.zoom_level, i32::MAX);
    assert_eq!(render_cells(&top).len(), 3200);
}

#[test]
fn zoom_out_reaches_the_lowest_level() {
    let mut app = App::default();
    for n in 1..=43 {
        app.zoom_out();
        assert_eq!(app.zoom_level, -n);
    }
    assert_eq!(app.zoom_level, MIN_ZOOM_LEVEL);
    app.zoom_out();
    assert_eq!(app.zoom_level, MIN_ZOOM_LEVEL);
    assert!(zoom_of(&app) > 0.0);
    app.move_right();
    app.move_up();
    assert_eq!(render_cells(&app).len(), 3200);
    app.zoom_in();
    assert_eq!(app.zoom_level, MIN_ZOOM_LEVEL + 1);
}

#[test]
fn zoom_in_then_out_restores_the_view() {
    let mut app = App::default();
    for _ in 0..45 {
        app.zoom_in();
    }
    let before = app;
    app.zoom_in();
    app.zoom_out();
    assert_eq!(app, before);
}

#[test]
fn iteration_budget_steps_by_twenty() {
    let mut app = App::default();
    app.increase_iterations();
    assert_eq!(app.max_iterations, 120);
    app.decrease_iterations();
    app.decrease_iterations();
    assert_eq!(app.max_iterations, 80);
}

#[test]
fn decrease_at_floor_stays_at_twenty() {
    let mut app = App::default();
    for _ in 0..4 {
        app.decrease_iterations();
    }
    assert_eq!(app.max_iterations, 20);
    for _ in 0..50 {
        app.decrease_iterations();
        assert_eq!(app.max_iterations, 20);
    }
}

#[test]
fn increase_at_cap_stays_at_five_hundred() {
    let mut app = App::default();
    for _ in 0..20 {
        app.increase_iterations();
    }
    assert_eq!(app.max_iterations, 500);
    for _ in 0..50 {
        app.increase_iterations();
        assert_eq!(app.max_iterations, 500);
    }
}

#[test]
fn near_cap_increase_is_clamped() {
    let mut app = App { max_iterations: 490, ..App::default() };
    app.increase_iterations();
    assert_eq!(app.max_iterations, 500);
    let mut low = App { max_iterations: 30, ..App::default() };
    low.decrease_iterations();
    assert_eq!(low.max_iterations, 20);
}

#[test]
fn invariant_holds_along_command_sequences() {
    let commands = [
        Command::ZoomIn,
        Command::ZoomOut,
        Command::MoveLeft,
        Command::MoveRight,
        Command::MoveUp,
        Command::MoveDown,
        Command::IncreaseIterations,
        Command::DecreaseIterations,
    ];
    let mut app = App::default();
    let mut seed: u64 = 12345;
    for _ in 0..5000 {
        seed = seed.wrapping_mul(6364136223846793005).wrapping_add(1442695040888963407);
        let cmd = commands[(seed >> 33) as usize % commands.len()];
        app.apply(cmd);
        assert!(holds_invariant(&app));
    }
}

#[test]
fn panning_far_saturates_the_centre() {
    let mut app = App::default();
    for _ in 0..20 {
        app.zoom_out();
    }
    for _ in 0..100_000 {
        app.move_right();
    }
    assert!(app.center_x > 0);
    assert!(holds_invariant(&app));
}

#[test]
fn apply_matches_direct_mutators() {
    let mut a = App::default();
    let mut b = App::default();
    a.apply(Command::ZoomIn);
    b.zoom_in();
    a.apply(Command::MoveUp);
    b.move_up();
    a.apply(Command::IncreaseIterations);
    b.increase_iterations();
    assert_eq!(a, b);
}
