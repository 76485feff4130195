use bigdecimal::BigDecimal;
use fractal_scheduler::decimal::{Decimal, MAX_PRECISION, MAX_SCALE};
use fractal_scheduler::kernel::{escape_count, Viewport, ESCAPE_LIMIT};
use std::str::FromStr;

fn point(text: &str) -> Decimal {
    let (unscaled, scale) = BigDecimal::from_str(text).unwrap().into_bigint_and_exponent();
    Decimal { unscaled: unscaled.to_signed_bytes_be(), scale }
}

fn viewport(origin_x: &str, origin_y: &str, step: &str, max_iter: u32) -> Viewport {
    Viewport {
        origin_x: point(origin_x),
        origin_y: point(origin_y),
        step: point(step),
        max_iter,
        precision: 256,
    }
}

#[test]
fn escape_limit_is_four() {
    assert_eq!(ESCAPE_LIMIT, 4);
}

#[test]
fn point_inside_the_set_reaches_the_cap() {
    assert_eq!(escape_count(&point("-0.1"), &point("0.1"), 10, 256), Some(10));
    assert_eq!(escape_count(&point("-0.1"), &point("0.1"), 37, 256), Some(37));
    assert_eq!(escape_count(&point("0.2"), &point("-0.1"), 37, 256), Some(37));
}

#[test]
fn point_on_the_circle_counts_zero() {
    assert_eq!(escape_count(&point("2"), &point("0"), 10, 256), Some(0));
    assert_eq!(escape_count(&point("-2"), &point("0"), 10, 256), Some(0));
    assert_eq!(escape_count(&point("0"), &point("2"), 10, 256), Some(0));
}

#[test]
fn point_outside_the_circle_counts_zero() {
    assert_eq!(escape_count(&point("3"), &point("4"), 10, 256), Some(0));
}

#[test]
fn escape_test_runs_one_step_behind() {
    assert_eq!(escape_count(&point("1"), &point("0"), 10, 256), Some(2));
    assert_eq!(escape_count(&point("1"), &point("1"), 10, 256), Some(2));
    assert_eq!(escape_count(&point("-1"), &point("1"), 10, 256), Some(3));
}

#[test]
fn point_in_the_second_bulb_reaches_the_cap() {
    assert_eq!(escape_count(&point("-1"), &point("0.01"), 25, 256), Some(25));
}

#[test]
fn orbit_through_exact_zero_leaves_the_range() {
    assert_eq!(escape_count(&point("0"), &point("0"), 3, 256), Some(3));
    assert_eq!(escape_count(&point("0"), &point("0"), 100, 256), None);
    assert_eq!(escape_count(&point("-1"), &point("0"), 5, 256), Some(5));
    assert_eq!(escape_count(&point("-1"), &point("0"), 100, 256), None);
}

#[test]
fn cap_of_zero_counts_zero() {
    assert_eq!(escape_count(&point("0"), &point("0"), 0, 256), Some(0));
    assert_eq!(escape_count(&point("5"), &point("5"), 0, 256), Some(0));
}

#[test]
fn count_never_passes_the_cap() {
    for max_iter in 0..12 {
        for text in ["0", "0.3", "-0.75", "1", "-1.5", "2"] {
            let count = escape_count(&point(text), &point("0.1"), max_iter, 64).unwrap();
            assert!(count <= max_iter);
        }
    }
}

#[test]
fn kernel_gives_the_same_count_again() {
    let cx = point("-0.7436438870371587");
    let cy = point("0.1318259042053119");
    let first = escape_count(&cx, &cy, 60, 256);
    let second = escape_count(&cx, &cy, 60, 256);
    let third = escape_count(&cx.duplicate(), &cy.duplicate(), 60, 256);
    assert!(first.is_some());
    assert_eq!(first, second);
    assert_eq!(first, third);
}

#[test]
fn count_grows_with_the_cap_until_escape() {
    let cx = point("0.3");
    let cy = point("0.5");
    let long = escape_count(&cx, &cy, 200, 64).unwrap();
    for cap in 0..20 {
        let short = escape_count(&cx, &cy, cap, 64).unwrap();
        assert_eq!(short, cap.min(long));
    }
}

#[test]
fn kernel_refuses_what_is_out_of_range() {
    let far = Decimal { unscaled: vec![1], scale: MAX_SCALE + 1 };
    assert_eq!(escape_count(&far, &point("0"), 10, 256), None);
    assert_eq!(escape_count(&point("0"), &far, 10, 256), None);
    assert_eq!(escape_count(&point("0"), &point("0"), 10, MAX_PRECISION + 1), None);
}

#[test]
fn kernel_refuses_when_a_square_leaves_the_range() {
    let tiny = Decimal { unscaled: vec![1], scale: MAX_SCALE };
    assert_eq!(escape_count(&tiny, &point("0"), 10, 256), None);
    assert_eq!(escape_count(&tiny, &point("0"), 1, 256), None);
    assert_eq!(escape_count(&tiny, &point("0"), 0, 256), Some(0));
}

#[test]
fn rows_above_and_below_the_real_axis() {
    let view = viewport("-2", "-1", "1", 10);
    assert_eq!(view.compute_row(5, 0), Some(vec![0, 3, 10, 2, 0]));
    assert_eq!(view.compute_row(5, 2), Some(vec![0, 3, 10, 2, 0]));
    assert_eq!(view.compute_row(5, 3), Some(vec![0, 0, 0, 0, 0]));
}

#[test]
fn row_coordinate_is_origin_plus_index_times_step() {
    let view = viewport("1", "-3", "2", 10);
    assert_eq!(view.compute_row(1, 0), Some(vec![0]));
    assert_eq!(view.compute_row(1, 1), Some(vec![2]));
    assert_eq!(view.compute_row(1, 2), Some(vec![2]));
    assert_eq!(view.compute_row(1, 3), Some(vec![0]));
}

#[test]
fn row_on_the_real_axis_leaves_the_range() {
    let view = viewport("-2", "-1", "1", 10);
    assert_eq!(view.compute_row(1, 1), Some(vec![0]));
    assert_eq!(view.compute_row(5, 1), None);
}

#[test]
fn row_counts_are_reduced_to_shades() {
    let view = viewport("-0.1", "0.1", "0.05", 37);
    assert_eq!(view.compute_row(2, 0), Some(vec![5, 5]));
}

#[test]
fn row_has_one_shade_per_column() {
    let view = viewport("-2", "-1", "0.25", 20);
    for width in [0u32, 1, 7, 16] {
        let row = view.compute_row(width, 3).unwrap();
        assert_eq!(row.len(), width as usize);
        assert!(row.iter().all(|s| *s < 16));
    }
}

#[test]
fn row_is_the_kernel_column_by_column() {
    let view = viewport("-2", "-1", "0.5", 30);
    let row = view.compute_row(8, 3).unwrap();
    let cy = point("0.5");
    for k in 0..8u32 {
        let cx = point(&format!("{}", -2.0 + 0.5 * k as f64));
        let count = escape_count(&cx, &cy, 30, 256).unwrap();
        assert_eq!(row[k as usize], (count % 16) as u8);
    }
}

#[test]
fn row_is_refused_when_the_step_is_out_of_range() {
    let mut view = viewport("-2", "0", "1", 10);
    view.step = Decimal { unscaled: vec![1], scale: MAX_SCALE + 1 };
    assert_eq!(view.compute_row(3, 0), None);
    assert_eq!(view.compute_row(0, 0), None);
}

#[test]
fn zero_step_at_the_centre_ends_within_the_cap() {
    let view = viewport(
        "-1.74995768370609350360221450607069970727110579726252077930242837820286008082972804887218672784431700831100544507655659531379747541999999995",
        "0.0000000000000000027879370656337940217829475379094436492708505450016308137904393065018938684976520216947747055",
        "0",
        40,
    );
    let row = view.compute_row(6, 3).unwrap();
    assert_eq!(row.len(), 6);
    let first = row[0];
    assert!(row.iter().all(|s| *s == first));
    let centre = escape_count(&view.origin_x, &view.origin_y, 40, 256).unwrap();
    assert!(centre <= 40);
    assert_eq!(first, (centre % 16) as u8);
}
