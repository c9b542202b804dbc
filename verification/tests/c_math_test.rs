use comet_pool::c_math::calc_lp_token_amount_given_token_deposits_in;
use comet_pool::c_math::calc_lp_token_amount_given_token_withdrawal_amount;
use comet_pool::c_math::calc_spot_price;
use comet_pool::c_math::calc_token_deposits_in_given_lp_token_amount;
use comet_pool::c_math::calc_token_in_given_token_out;
use comet_pool::c_math::calc_token_out_given_token_in;
use comet_pool::c_math::calc_token_withdrawal_amount_given_lp_token_amount;
use comet_pool::errors::Error;

#[test]
fn test_calc_spot_price() {
    let val = calc_spot_price(
        10 * 1e7 as i128,
        2 * 1e7 as i128,
        2 * 1e7 as i128,
        (0.7 * 1e7) as i128,
        (0.0001 * 1e7) as i128,
    )
    .unwrap();

    println!("Val1 = {}", val);
    assert!(val != 0, "result must be non-zero");
}

#[test]
fn test_calc_token_out_given_token_in() {
    let val = calc_token_out_given_token_in(
        1 * 1e7 as i128,
        (0.2 * 1e7) as i128,
        2 * 1e7 as i128,
        (0.7 * 1e7) as i128,
        (0.01 * 1e7) as i128,
        (0.001 * 1e7) as i128,
    )
    .unwrap();

    println!("Val2 = {}", val);
    assert!(val != 0, "result must be non-zero");
}

#[test]
fn test_calc_token_in_given_token_out() {
    let val = calc_token_in_given_token_out(
        1 * 1e7 as i128,
        (0.2 * 1e7) as i128,
        2 * 1e7 as i128,
        (0.7 * 1e7) as i128,
        (0.001 * 1e7) as i128,
        (0.0001 * 1e7) as i128,
    )
    .unwrap();

    println!("Val3 = {}", val);
    assert!(val != 0, "result must be non-zero");
}

#[test]
fn test_calc_lp_token_amount_given_token_deposits_in() {
    let val = calc_lp_token_amount_given_token_deposits_in(
        1 * 1e7 as i128,
        (0.2 * 1e7) as i128,
        20 * 1e7 as i128,
        (0.7 * 1e7) as i128,
        (0.001 * 1e7) as i128,
        (0.0001 * 1e7) as i128,
    )
    .unwrap();
    println!("Val4 = {}", val);
    assert!(val != 0, "result must be non-zero");
}

#[test]
fn test_calc_token_deposits_in_given_lp_token_amount() {
    let val = calc_token_deposits_in_given_lp_token_amount(
        1 * 1e7 as i128,
        (0.2 * 1e7) as i128,
        20 * 1e7 as i128,
        (0.7 * 1e7) as i128,
        (0.001 * 1e7) as i128,
        (0.0001 * 1e7) as i128,
    )
    .unwrap();
    println!("Val5 = {}", val);
    assert!(val != 0, "result must be non-zero");
}

#[test]
fn test_calc_lp_token_amount_given_token_withdrawal_amount() {
    let val = calc_lp_token_amount_given_token_withdrawal_amount(
        1 * 1e7 as i128,
        (0.2 * 1e7) as i128,
        20 * 1e7 as i128,
        (0.7 * 1e7) as i128,
        (0.001 * 1e7) as i128,
        (0.0001 * 1e7) as i128,
    )
    .unwrap();
    println!("Val6 = {}", val);
    assert!(val != 0, "result must be non-zero");
}

#[test]
fn test_calc_token_withdrawal_amount_given_lp_token_amount() {
    let val = calc_token_withdrawal_amount_given_lp_token_amount(
        1 * 1e7 as i128,
        (0.2 * 1e7) as i128,
        20 * 1e7 as i128,
        (0.7 * 1e7) as i128,
        (0.001 * 1e7) as i128,
        (0.0001 * 1e7) as i128,
    )
    .unwrap();
    println!("Val7 = {}", val);
    assert!(val != 0, "result must be non-zero");
}

#[test]
// the exact spot price for the documented example: ten units against two at
// weights two and seven tenths, with a one-basis-point fee.
fn test_calc_spot_price_exact() {
    let val = calc_spot_price(
        100_000_000,
        20_000_000,
        20_000_000,
        7_000_000,
        1_000,
    )
    .unwrap();
    assert_eq!(val, 17_501_750);
    assert!(val > 0);
}

#[test]
// exact values of the six conversion formulas on one fixed set of inputs.
fn test_calc_formulas_exact() {
    let bal_in = 10_000_000;
    let w_in = 2_000_000;
    let w_out = 7_000_000;
    let supply = 200_000_000;
    assert_eq!(
        calc_token_out_given_token_in(bal_in, w_in, 20_000_000, w_out, 100_000, 10_000).unwrap(),
        56_724,
    );
    assert_eq!(
        calc_token_in_given_token_out(bal_in, w_in, 20_000_000, w_out, 10_000, 1_000).unwrap(),
        17_524,
    );
    assert_eq!(
        calc_lp_token_amount_given_token_deposits_in(bal_in, w_in, supply, w_out, 10_000, 1_000)
            .unwrap(),
        57_120,
    );
    assert_eq!(
        calc_token_deposits_in_given_lp_token_amount(bal_in, w_in, supply, w_out, 10_000, 1_000)
            .unwrap(),
        1_750,
    );
    assert_eq!(
        calc_lp_token_amount_given_token_withdrawal_amount(
            bal_in, w_in, supply, w_out, 10_000, 1_000,
        )
        .unwrap(),
        57_160,
    );
    assert_eq!(
        calc_token_withdrawal_amount_given_lp_token_amount(
            bal_in, w_in, supply, w_out, 10_000, 1_000,
        )
        .unwrap(),
        1_750,
    );
}

#[test]
// a zero weight makes the spot price fail by division by zero, and an
// internal failure in a conversion is the fatal invariant violation.
fn test_calc_error_cases() {
    assert_eq!(
        calc_spot_price(10_000_000, 0, 20_000_000, 7_000_000, 0).err().unwrap(),
        Error::DivByZero,
    );
    // extracting the whole out-balance divides by zero inside the curve
    assert_eq!(
        calc_token_in_given_token_out(
            10_000_000,
            2_000_000,
            20_000_000,
            7_000_000,
            20_000_000,
            1_000,
        )
        .err()
        .unwrap(),
        Error::InvariantViolation,
    );
}
