use vstd::prelude::*;
use crate::escape::SCALE;

verus! {

/// Lowest zoom level (zoom `1.5^-43`, about `2.7e-8`): one level lower, the
/// plane coordinates of a frame would no longer fit in `i64`.
pub const MIN_ZOOM_LEVEL: i32 = -43;

/// Bound on `view_range` over every zoom level from `MIN_ZOOM_LEVEL` up.
pub const MAX_VIEW_RANGE: u64 = 28000000000000000;

/// Bound on the magnitude of a stored centre coordinate (2^32 in plane units).
pub const COORD_LIMIT: i64 = 1152921504606846976;

/// Pan step at zoom 1: 0.1 in fixed point.
pub const PAN_STEP: u64 = 26843545;

/// Half the visible height at zoom 1: 2.0 in fixed point.
pub const VIEW_RANGE: u64 = 536870912;

/// Default centre abscissa: -0.5 in fixed point.
pub const DEFAULT_CENTER_X: i64 = -134217728;

pub const DEFAULT_ITERATIONS: u32 = 100;

pub const MIN_ITERATIONS: u32 = 20;

pub const MAX_ITERATIONS: u32 = 500;

pub const ITERATION_STEP: u32 = 20;

/// `base` raised to `e`.
pub open spec fn pow_nat(base: nat, e: nat) -> nat
    decreases e,
{
    if e == 0 {
        1
    } else {
        base * pow_nat(base, (e - 1) as nat)
    }
}

/// The zoom factor `1.5^level` as a numerator and a denominator.
pub open spec fn zoom_factor(level: int) -> (nat, nat) {
    if level >= 0 {
        (pow_nat(3, level as nat), pow_nat(2, level as nat))
    } else {
        (pow_nat(2, (-level) as nat), pow_nat(3, (-level) as nat))
    }
}

/// `v / 1.5^level` in fixed point, rounded down after each factor of 1.5.
pub open spec fn divide_by_zoom(v: int, level: int) -> int
    decreases (if level >= 0 { level } else { -level }),
{
    if level > 0 {
        divide_by_zoom(v, level - 1) * 2 / 3
    } else if level < 0 {
        divide_by_zoom(v, level + 1) * 3 / 2
    } else {
        v
    }
}

/// The distance one pan moves the centre: `0.1 / zoom`.
pub open spec fn pan_step(level: int) -> int {
    divide_by_zoom(PAN_STEP as int, level)
}

/// Half the visible height of the plane: `2.0 / zoom`.
pub open spec fn view_range(level: int) -> int {
    divide_by_zoom(VIEW_RANGE as int, level)
}

/// Saturates a coordinate at `±COORD_LIMIT`.
pub open spec fn clamp_coord(v: int) -> int {
    if v < -COORD_LIMIT {
        -COORD_LIMIT as int
    } else if v > COORD_LIMIT {
        COORD_LIMIT as int
    } else {
        v
    }
}

/// The state-changing commands a viewer user can issue.
#[derive(Clone, Copy, Debug, PartialEq, Eq, Structural)]
pub enum Command {
    ZoomIn,
    ZoomOut,
    MoveLeft,
    MoveRight,
    MoveUp,
    MoveDown,
    IncreaseIterations,
    DecreaseIterations,
}

/// The viewport: which region of the plane is shown and how deep points are
/// iterated. The zoom factor is `1.5^zoom_level`; the centre is in fixed
/// point (see `SCALE`).
#[derive(Clone, Copy, Debug, PartialEq, Eq, Structural)]
pub struct App {
    pub zoom_level: i32,
    pub center_x: i64,
    pub center_y: i64,
    pub max_iterations: u32,
}

impl App {
    /// The viewport's invariant: zoom, centre and budget within their bounds.
    pub open spec fn wf(self) -> bool {
        &&& MIN_ZOOM_LEVEL <= self.zoom_level
        &&& -COORD_LIMIT <= self.center_x <= COORD_LIMIT
        &&& -COORD_LIMIT <= self.center_y <= COORD_LIMIT
        &&& MIN_ITERATIONS <= self.max_iterations <= MAX_ITERATIONS
    }

    /// The start-up view: zoom 1, centre (-0.5, 0), 100 iterations.
    pub open spec fn initial() -> App {
        App { zoom_level: 0, center_x: DEFAULT_CENTER_X, center_y: 0, max_iterations: DEFAULT_ITERATIONS }
    }

    /// The viewport after one command.
    pub open spec fn apply_spec(self, cmd: Command) -> App {
        let step = pan_step(self.zoom_level as int);
        match cmd {
            Command::ZoomIn => App {
                zoom_level: if self.zoom_level < i32::MAX {
                    (self.zoom_level + 1) as i32
                } else {
                    self.zoom_level
                },
                ..self
            },
            Command::ZoomOut => App {
                zoom_level: if self.zoom_level > MIN_ZOOM_LEVEL {
                    (self.zoom_level - 1) as i32
                } else {
                    self.zoom_level
                },
                ..self
            },
            Command::MoveLeft => App { center_x: clamp_coord(self.center_x - step) as i64, ..self },
            Command::MoveRight => App { center_x: clamp_coord(self.center_x + step) as i64, ..self },
            Command::MoveUp => App { center_y: clamp_coord(self.center_y - step) as i64, ..self },
            Command::MoveDown => App { center_y: clamp_coord(self.center_y + step) as i64, ..self },
            Command::IncreaseIterations => App {
                max_iterations: if self.max_iterations + ITERATION_STEP <= MAX_ITERATIONS {
                    (self.max_iterations + ITERATION_STEP) as u32
                } else {
                    MAX_ITERATIONS
                },
                ..self
            },
            Command::DecreaseIterations => App {
                max_iterations: if self.max_iterations >= ITERATION_STEP + MIN_ITERATIONS {
                    (self.max_iterations - ITERATION_STEP) as u32
                } else {
                    MIN_ITERATIONS
                },
                ..self
            },
        }
    }
}

/// The viewport after each command of `cmds`, in order.
pub open spec fn run_commands(app: App, cmds: Seq<Command>) -> App
    decreases cmds.len(),
{
    if cmds.len() == 0 {
        app
    } else {
        run_commands(app.apply_spec(cmds[0]), cmds.drop_first())
    }
}

/// The viewport after `n` repetitions of `cmd`.
pub open spec fn repeat_command(app: App, cmd: Command, n: nat) -> App
    decreases n,
{
    if n == 0 {
        app
    } else {
        repeat_command(app, cmd, (n - 1) as nat).apply_spec(cmd)
    }
}

proof fn lemma_pow_positive(base: nat, e: nat)
    requires
        base > 0,
    ensures
        pow_nat(base, e) > 0,
    decreases e,
{
    if e > 0 {
        lemma_pow_positive(base, (e - 1) as nat);
        let p = pow_nat(base, (e - 1) as nat);
        assert(base * p > 0) by (nonlinear_arith)
            requires
                base > 0,
                p > 0,
        ;
    }
}

/// Every zoom level stands for a strictly positive zoom factor.
pub proof fn lemma_zoom_positive(level: int)
    ensures
        zoom_factor(level).0 > 0,
        zoom_factor(level).1 > 0,
{
    if level >= 0 {
        lemma_pow_positive(3, level as nat);
        lemma_pow_positive(2, level as nat);
    } else {
        lemma_pow_positive(3, (-level) as nat);
        lemma_pow_positive(2, (-level) as nat);
    }
}

/// Each command keeps the viewport's invariant.
pub proof fn lemma_command_keeps_wf(app: App, cmd: Command)
    requires
        app.wf(),
    ensures
        app.apply_spec(cmd).wf(),
{
}

/// From the start-up view, every sequence of commands leaves a viewport whose
/// zoom factor is positive and whose budget lies in `[20, 500]`.
pub proof fn lemma_viewport_invariant(cmds: Seq<Command>)
    ensures
        run_commands(App::initial(), cmds).wf(),
        zoom_factor(run_commands(App::initial(), cmds).zoom_level as int).0 > 0,
        zoom_factor(run_commands(App::initial(), cmds).zoom_level as int).1 > 0,
        MIN_ITERATIONS <= run_commands(App::initial(), cmds).max_iterations <= MAX_ITERATIONS,
{
    lemma_commands_keep_wf(App::initial(), cmds);
    lemma_zoom_positive(run_commands(App::initial(), cmds).zoom_level as int);
}

proof fn lemma_commands_keep_wf(app: App, cmds: Seq<Command>)
    requires
        app.wf(),
    ensures
        run_commands(app, cmds).wf(),
    decreases cmds.len(),
{
    if cmds.len() > 0 {
        lemma_command_keeps_wf(app, cmds[0]);
        lemma_commands_keep_wf(app.apply_spec(cmds[0]), cmds.drop_first());
    }
}

/// Zooming in and then out, or out and then in, gives back the same viewport.
pub proof fn lemma_zoom_round_trip(app: App)
    requires
        app.wf(),
    ensures
        app.zoom_level < i32::MAX ==> app.apply_spec(Command::ZoomIn).apply_spec(Command::ZoomOut)
            == app,
        app.zoom_level > MIN_ZOOM_LEVEL ==> app.apply_spec(Command::ZoomOut).apply_spec(
            Command::ZoomIn,
        ) == app,
{
}

/// Lowering the budget at its floor of 20, any number of times, leaves it at 20.
pub proof fn lemma_decrease_at_floor(app: App, n: nat)
    requires
        app.max_iterations == MIN_ITERATIONS,
    ensures
        repeat_command(app, Command::DecreaseIterations, n).max_iterations == MIN_ITERATIONS,
    decreases n,
{
    if n > 0 {
        lemma_decrease_at_floor(app, (n - 1) as nat);
    }
}

/// Raising the budget at its cap of 500, any number of times, leaves it at 500.
pub proof fn lemma_increase_at_cap(app: App, n: nat)
    requires
        app.max_iterations == MAX_ITERATIONS,
    ensures
        repeat_command(app, Command::IncreaseIterations, n).max_iterations == MAX_ITERATIONS,
    decreases n,
{
    if n > 0 {
        lemma_increase_at_cap(app, (n - 1) as nat);
    }
}

proof fn lemma_divide_by_zoom_nonneg(v: int, level: int)
    requires
        v >= 0,
    ensures
        divide_by_zoom(v, level) >= 0,
    decreases (if level >= 0 { level } else { -level }),
{
    if level > 0 {
        lemma_divide_by_zoom_nonneg(v, level - 1);
    } else if level < 0 {
        lemma_divide_by_zoom_nonneg(v, level + 1);
    }
}

proof fn lemma_divide_by_zoom_monotone(v1: int, v2: int, level: int)
    requires
        0 <= v1 <= v2,
    ensures
        divide_by_zoom(v1, level) <= divide_by_zoom(v2, level),
    decreases (if level >= 0 { level } else { -level }),
{
    if level != 0 {
        let next = if level > 0 { level - 1 } else { level + 1 };
        lemma_divide_by_zoom_monotone(v1, v2, next);
        lemma_divide_by_zoom_nonneg(v1, next);
        let a = divide_by_zoom(v1, next);
        let b = divide_by_zoom(v2, next);
        assert(a * 2 / 3 <= b * 2 / 3 && a * 3 / 2 <= b * 3 / 2) by (nonlinear_arith)
            requires
                0 <= a <= b,
        ;
    }
}

proof fn lemma_shrinks(v: int, level: int)
    requires
        v >= 0,
        level >= 0,
    ensures
        divide_by_zoom(v, level) <= v,
    decreases level,
{
    if level > 0 {
        lemma_shrinks(v, level - 1);
        lemma_divide_by_zoom_nonneg(v, level - 1);
    }
}

proof fn lemma_zero_stays_zero(v: int, k: int, level: int)
    requires
        0 <= k <= level,
        divide_by_zoom(v, k) == 0,
    ensures
        divide_by_zoom(v, level) == 0,
    decreases level - k,
{
    if k < level {
        assert(divide_by_zoom(v, k + 1) == divide_by_zoom(v, k) * 2 / 3);
        lemma_zero_stays_zero(v, k + 1, level);
    }
}

proof fn lemma_growth_bounded(level: int)
    requires
        MIN_ZOOM_LEVEL <= level <= 0,
    ensures
        divide_by_zoom(VIEW_RANGE as int, level) <= divide_by_zoom(
            VIEW_RANGE as int,
            MIN_ZOOM_LEVEL as int,
        ),
    decreases level - MIN_ZOOM_LEVEL,
{
    if level > MIN_ZOOM_LEVEL {
        lemma_growth_bounded(level - 1);
        lemma_divide_by_zoom_nonneg(VIEW_RANGE as int, level);
    }
}

/// For every input up to 2.0 and every admitted zoom level, the result lies
/// in `[0, MAX_VIEW_RANGE]`.
proof fn lemma_divide_by_zoom_bounded(v: int, level: int)
    requires
        0 <= v <= VIEW_RANGE,
        level >= MIN_ZOOM_LEVEL,
    ensures
        0 <= divide_by_zoom(v, level) <= MAX_VIEW_RANGE,
{
    lemma_divide_by_zoom_nonneg(v, level);
    if level >= 0 {
        lemma_shrinks(v, level);
    } else {
        lemma_divide_by_zoom_monotone(v, VIEW_RANGE as int, level);
        lemma_growth_bounded(level);
        assert(divide_by_zoom(VIEW_RANGE as int, MIN_ZOOM_LEVEL as int) <= MAX_VIEW_RANGE) by {
            reveal_with_fuel(divide_by_zoom, 44);
        }
    }
}

/// Computes `divide_by_zoom(v, level)`, stopping early once the value has
/// shrunk to zero.
pub(crate) fn divide_by_zoom_exec(v: u64, level: i32) -> (r: u64)
    requires
        v <= VIEW_RANGE,
        level >= MIN_ZOOM_LEVEL,
    ensures
        r == divide_by_zoom(v as int, level as int),
        r <= MAX_VIEW_RANGE,
{
    proof {
        lemma_divide_by_zoom_bounded(v as int, level as int);
    }
    let mut r: u64 = v;
    if level >= 0 {
        let mut k: i32 = 0;
        while k < level && r > 0
            invariant
                0 <= k <= level,
                v <= VIEW_RANGE,
                r == divide_by_zoom(v as int, k as int),
                r <= v,
            decreases level - k,
        {
            r = r * 2 / 3;
            k = k + 1;
        }
        proof {
            if k < level {
                lemma_zero_stays_zero(v as int, k as int, level as int);
            }
        }
    } else {
        let mut k: i32 = 0;
        while k > level
            invariant
                level <= k <= 0,
                level >= MIN_ZOOM_LEVEL,
                v <= VIEW_RANGE,
                r == divide_by_zoom(v as int, k as int),
            decreases k - level,
        {
            proof {
                lemma_divide_by_zoom_bounded(v as int, k as int);
            }
            r = r * 3 / 2;
            k = k - 1;
        }
    }
    r
}

fn clamp_coord_exec(v: i64) -> (r: i64)
    ensures
        r == clamp_coord(v as int),
{
    if v < -COORD_LIMIT {
        -COORD_LIMIT
    } else if v > COORD_LIMIT {
        COORD_LIMIT
    } else {
        v
    }
}

impl Default for App {
    fn default() -> (r: App)
        ensures
            r == App::initial(),
    {
        App {
            zoom_level: 0,
            center_x: DEFAULT_CENTER_X,
            center_y: 0,
            max_iterations: DEFAULT_ITERATIONS,
        }
    }
}

impl App {
    /// Pan distance at the current zoom, `0.1 / zoom`.
    fn pan_step_exec(&self) -> (r: i64)
        requires
            self.wf(),
        ensures
            r == pan_step(self.zoom_level as int),
            0 <= r <= MAX_VIEW_RANGE,
    {
        divide_by_zoom_exec(PAN_STEP, self.zoom_level) as i64
    }

    /// Multiplies the zoom factor by 1.5 (the level saturates at `i32::MAX`).
    pub fn zoom_in(&mut self)
        ensures
            *final(self) == old(self).apply_spec(Command::ZoomIn),
            old(self).zoom_level < i32::MAX ==> final(self).zoom_level == old(self).zoom_level + 1,
    {
        if self.zoom_level < i32::MAX {
            self.zoom_level = self.zoom_level + 1;
        }
    }

    /// Divides the zoom factor by 1.5, down to `MIN_ZOOM_LEVEL`.
    pub fn zoom_out(&mut self)
        ensures
            *final(self) == old(self).apply_spec(Command::ZoomOut),
            old(self).zoom_level > MIN_ZOOM_LEVEL ==> final(self).zoom_level == old(self).zoom_level - 1,
    {
        if self.zoom_level > MIN_ZOOM_LEVEL {
            self.zoom_level = self.zoom_level - 1;
        }
    }

    /// Moves the centre left by `0.1 / zoom`.
    pub fn move_left(&mut self)
        requires
            old(self).wf(),
        ensures
            *final(self) == old(self).apply_spec(Command::MoveLeft),
    {
        let step = self.pan_step_exec();
        self.center_x = clamp_coord_exec(self.center_x - step);
    }

    /// Moves the centre right by `0.1 / zoom`.
    pub fn move_right(&mut self)
        requires
            old(self).wf(),
        ensures
            *final(self) == old(self).apply_spec(Command::MoveRight),
    {
        let step = self.pan_step_exec();
        self.center_x = clamp_coord_exec(self.center_x + step);
    }

    /// Moves the centre up (toward smaller ordinates) by `0.1 / zoom`.
    pub fn move_up(&mut self)
        requires
            old(self).wf(),
        ensures
            *final(self) == old(self).apply_spec(Command::MoveUp),
    {
        let step = self.pan_step_exec();
        self.center_y = clamp_coord_exec(self.center_y - step);
    }

    /// Moves the centre down (toward larger ordinates) by `0.1 / zoom`.
    pub fn move_down(&mut self)
        requires
            old(self).wf(),
        ensures
            *final(self) == old(self).apply_spec(Command::MoveDown),
    {
        let step = self.pan_step_exec();
        self.center_y = clamp_coord_exec(self.center_y + step);
    }

    /// Raises the budget by 20, capped at 500.
    pub fn increase_iterations(&mut self)
        ensures
            *final(self) == old(self).apply_spec(Command::IncreaseIterations),
    {
        if self.max_iterations <= MAX_ITERATIONS - ITERATION_STEP {
            self.max_iterations = self.max_iterations + ITERATION_STEP;
        } else {
            self.max_iterations = MAX_ITERATIONS;
        }
    }

    /// Lowers the budget by 20, with a floor of 20.
    pub fn decrease_iterations(&mut self)
        ensures
            *final(self) == old(self).apply_spec(Command::DecreaseIterations),
    {
        self.max_iterations = self.max_iterations.saturating_sub(ITERATION_STEP);
        if self.max_iterations < MIN_ITERATIONS {
            self.max_iterations = MIN_ITERATIONS;
        }
    }

    /// Carries out one command.
    pub fn apply(&mut self, cmd: Command)
        requires
            old(self).wf(),
        ensures
            *final(self) == old(self).apply_spec(cmd),
            final(self).wf(),
    {
        match cmd {
            Command::ZoomIn => self.zoom_in(),
            Command::ZoomOut => self.zoom_out(),
            Command::MoveLeft => self.move_left(),
            Command::MoveRight => self.move_right(),
            Command::MoveUp => self.move_up(),
            Command::MoveDown => self.move_down(),
            Command::IncreaseIterations => self.increase_iterations(),
            Command::DecreaseIterations => self.decrease_iterations(),
        }
    }
}

} // verus!
