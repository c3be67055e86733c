use mandelbrot_viewer::{iteration_to_color, PaletteColor};

#[test]
fn test_color_mapping() {
    assert_eq!(iteration_to_color(100, 100), PaletteColor::Black);

    assert_eq!(iteration_to_color(0, 100), PaletteColor::Blue);
}

#[test]
fn full_budget_is_black_for_any_budget() {
    for max in [1u32, 20, 100, 499, 500, u32::MAX] {
        assert_eq!(iteration_to_color(max, max), PaletteColor::Black);
    }
}

#[test]
fn buckets_follow_the_palette_order() {
    assert_eq!(iteration_to_color(12, 100), PaletteColor::Blue);
    assert_eq!(iteration_to_color(13, 100), PaletteColor::LightBlue);
    assert_eq!(iteration_to_color(25, 100), PaletteColor::Cyan);
    assert_eq!(iteration_to_color(37, 100), PaletteColor::Cyan);
    assert_eq!(iteration_to_color(38, 100), PaletteColor::Green);
    assert_eq!(iteration_to_color(50, 100), PaletteColor::Yellow);
    assert_eq!(iteration_to_color(63, 100), PaletteColor::LightRed);
    assert_eq!(iteration_to_color(75, 100), PaletteColor::Red);
    assert_eq!(iteration_to_color(88, 100), PaletteColor::Magenta);
    assert_eq!(iteration_to_color(99, 100), PaletteColor::Magenta);
}

#[test]
fn escaped_counts_get_a_bucket_colour() {
    for max in [1u32, 7, 20, 100, 500, u32::MAX] {
        let probes = [0, max / 3, max / 2, max - 1];
        for it in probes {
            let c = iteration_to_color(it, max);
            assert_ne!(c, PaletteColor::Black);
            assert_ne!(c, PaletteColor::White);
        }
    }
    for it in 0..500u32 {
        let c = iteration_to_color(it, 500);
        assert_ne!(c, PaletteColor::Black);
        assert_ne!(c, PaletteColor::White);
    }
}
