//! Divergence elements of the maximum-shift limit.

use rank_turbulence::divergence::{div_elems_infinite, max_shift_element};
use rank_turbulence::presence::present_terms;

fn bits(values: &[f64]) -> Vec<u64> {
    values.iter().map(|v| v.to_bits()).collect()
}

fn numbers(patterns: &[u64]) -> Vec<f64> {
    patterns.iter().map(|b| f64::from_bits(*b)).collect()
}

fn inverse(ranks: &[f64]) -> Vec<f64> {
    ranks.iter().map(|r| 1.0 / r).collect()
}

#[test]
fn test_div_elems_infinity() {
    let inv_r1 = vec![1.0, 0.5, 0.33];
    let inv_r2 = vec![1.0, 0.33, 0.5];
    let result = numbers(&div_elems_infinite(&bits(&inv_r1), &bits(&inv_r2)));

    assert_eq!(result[0], 0.0); // Equal ranks
    assert_eq!(result[1], 0.5); // max(0.5, 0.33)
    assert_eq!(result[2], 0.5); // max(0.33, 0.5)
}

#[test]
fn ranked_lists_that_swap_two_items() {
    let inv_r1 = inverse(&[1.0, 2.0, 3.0]);
    let inv_r2 = inverse(&[1.0, 3.0, 2.0]);
    let result = numbers(&div_elems_infinite(&bits(&inv_r1), &bits(&inv_r2)));
    assert_eq!(result, vec![0.0, 0.5, 0.5]);
}

#[test]
fn equal_inverse_ranks_give_positive_zero() {
    for r in [1.0f64, 2.0, 3.0, 7.5, 1e6, 1e-6, f64::INFINITY] {
        let inv = (1.0 / r).to_bits();
        assert_eq!(max_shift_element(inv, inv), 0);
    }
    assert_eq!(max_shift_element(0.0f64.to_bits(), (-0.0f64).to_bits()), 0);
    assert_eq!(max_shift_element((-0.0f64).to_bits(), (-0.0f64).to_bits()), 0);
}

#[test]
fn element_is_the_larger_inverse_rank() {
    assert_eq!(max_shift_element(0.5f64.to_bits(), 0.25f64.to_bits()), 0.5f64.to_bits());
    assert_eq!(max_shift_element(0.25f64.to_bits(), 0.5f64.to_bits()), 0.5f64.to_bits());
    assert_eq!(max_shift_element(1.0f64.to_bits(), f64::INFINITY.to_bits()), f64::INFINITY.to_bits());
    assert_eq!(max_shift_element((-1.0f64).to_bits(), (-2.0f64).to_bits()), (-1.0f64).to_bits());
}

#[test]
fn element_agrees_with_the_machine() {
    let samples = [
        0.0f64,
        -0.0,
        1.0,
        0.5,
        0.33,
        1.0 / 3.0,
        -1.0,
        1e-310,
        f64::MAX,
        f64::INFINITY,
        f64::NEG_INFINITY,
        f64::NAN,
    ];
    for a in samples {
        for b in samples {
            let expected = if a == b { 0.0 } else { a.max(b) };
            let element = f64::from_bits(max_shift_element(a.to_bits(), b.to_bits()));
            if expected.is_nan() {
                assert!(element.is_nan(), "{a:?} {b:?}");
            } else {
                assert_eq!(element.to_bits(), expected.to_bits(), "{a:?} {b:?}");
            }
        }
    }
}

#[test]
fn swapping_the_systems_keeps_every_element() {
    let inv_r1 = bits(&[1.0, 0.5, 0.25, f64::NAN, 0.0, 0.125, f64::NAN]);
    let inv_r2 = bits(&[0.5, 0.5, 1.0, 0.2, -0.0, f64::INFINITY, -f64::NAN]);
    assert_eq!(div_elems_infinite(&inv_r1, &inv_r2), div_elems_infinite(&inv_r2, &inv_r1));
}

#[test]
fn one_element_for_each_item_of_both() {
    let inv_r1 = bits(&[1.0, 0.5, 0.25]);
    let inv_r2 = bits(&[0.5, 0.5]);
    assert_eq!(numbers(&div_elems_infinite(&inv_r1, &inv_r2)), vec![1.0, 0.0]);
    assert_eq!(numbers(&div_elems_infinite(&inv_r2, &inv_r1)), vec![1.0, 0.0]);
    assert_eq!(div_elems_infinite(&inv_r1, &[]), Vec::<u64>::new());
    assert_eq!(div_elems_infinite(&[], &[]), Vec::<u64>::new());
}

#[test]
fn elements_are_repeatable() {
    let inv_r1 = bits(&inverse(&[1.0, 2.0, 3.0, 4.0]));
    let inv_r2 = bits(&inverse(&[2.0, 1.0, 3.0, 5.0]));
    assert_eq!(div_elems_infinite(&inv_r1, &inv_r2), div_elems_infinite(&inv_r1, &inv_r2));
}

#[test]
fn normalised_elements_stay_within_the_unit_interval() {
    let ranks1 = [1.0, 2.0, 3.0, 4.5, 4.5, 6.0];
    let ranks2 = [3.0, 1.0, 2.0, 6.0, 4.0, 5.0];
    let counts1 = [30.0, 20.0, 10.0, 5.0, 5.0, 1.0];
    let counts2 = [12.0, 40.0, 25.0, 2.0, 9.0, 4.0];
    let inv_r1 = bits(&inverse(&ranks1));
    let inv_r2 = bits(&inverse(&ranks2));
    let elements = numbers(&div_elems_infinite(&inv_r1, &inv_r2));
    let sum1: f64 = numbers(&present_terms(&bits(&counts1), &inv_r1).unwrap()).iter().sum();
    let sum2: f64 = numbers(&present_terms(&bits(&counts2), &inv_r2).unwrap()).iter().sum();
    let normalization = sum1 + sum2;
    assert!(normalization > 0.0);
    assert_eq!(elements.len(), ranks1.len());
    for element in elements {
        let normalised = element / normalization;
        assert!((0.0..=1.0).contains(&normalised), "{normalised}");
    }
}
