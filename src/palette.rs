use vstd::prelude::*;

verus! {

/// The colours a rendered cell can take.
#[derive(Clone, Copy, Debug, PartialEq, Eq, Structural)]
pub enum PaletteColor {
    Black,
    Blue,
    LightBlue,
    Cyan,
    Green,
    Yellow,
    LightRed,
    Red,
    Magenta,
    White,
}

/// The colour of an orbit that escaped at `iterations` out of a budget of
/// `max_iterations`: black for points presumed inside the set, otherwise the
/// bucket `floor(8 * iterations / max_iterations)` picks from eight colours
/// running from cool to warm; a bucket of 8 or more falls back to white.
pub open spec fn palette_color_spec(iterations: int, max_iterations: int) -> PaletteColor {
    if iterations == max_iterations {
        PaletteColor::Black
    } else {
        let bucket = (8 * iterations) / max_iterations;
        if bucket == 0 {
            PaletteColor::Blue
        } else if bucket == 1 {
            PaletteColor::LightBlue
        } else if bucket == 2 {
            PaletteColor::Cyan
        } else if bucket == 3 {
            PaletteColor::Green
        } else if bucket == 4 {
            PaletteColor::Yellow
        } else if bucket == 5 {
            PaletteColor::LightRed
        } else if bucket == 6 {
            PaletteColor::Red
        } else if bucket == 7 {
            PaletteColor::Magenta
        } else {
            PaletteColor::White
        }
    }
}

/// Maps an escape count to its display colour.
pub fn iteration_to_color(iterations: u32, max_iterations: u32) -> (r: PaletteColor)
    requires
        iterations <= max_iterations,
    ensures
        r == palette_color_spec(iterations as int, max_iterations as int),
{
    if iterations == max_iterations {
        PaletteColor::Black
    } else {
        let bucket: u64 = (8 * iterations as u64) / max_iterations as u64;
        match bucket {
            0 => PaletteColor::Blue,
            1 => PaletteColor::LightBlue,
            2 => PaletteColor::Cyan,
            3 => PaletteColor::Green,
            4 => PaletteColor::Yellow,
            5 => PaletteColor::LightRed,
            6 => PaletteColor::Red,
            7 => PaletteColor::Magenta,
            _ => PaletteColor::White,
        }
    }
}

/// An orbit that used its whole budget gets the in-set colour.
pub proof fn lemma_full_budget_is_black(max_iterations: int)
    requires
        max_iterations > 0,
    ensures
        palette_color_spec(max_iterations, max_iterations) == PaletteColor::Black,
{
}

/// Below the budget the colour is one of the eight bucket colours: neither
/// the in-set colour nor the fallback.
pub proof fn lemma_escaped_color_in_palette(iterations: int, max_iterations: int)
    requires
        0 <= iterations < max_iterations,
    ensures
        0 <= (8 * iterations) / max_iterations < 8,
        palette_color_spec(iterations, max_iterations) != PaletteColor::Black,
        palette_color_spec(iterations, max_iterations) != PaletteColor::White,
{
    let b = (8 * iterations) / max_iterations;
    assert(0 <= b < 8) by (nonlinear_arith)
        requires
            0 <= iterations < max_iterations,
            b == (8 * iterations) / max_iterations,
    ;
}

} // verus!
