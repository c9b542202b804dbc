use comet_pool::c_consts::BONE;
use comet_pool::c_consts::INIT_POOL_SUPPLY;
use comet_pool::c_pool::check_nonnegative_amount;
use comet_pool::c_pool::CometPoolContract;
use comet_pool::errors::Error;

fn to_stroop<T: Into<f64>>(a: T) -> i128 {
    (a.into() * 1e7) as i128
}

#[test]
fn test_pool_functions() {
    let admin: u64 = 1;
    let user1: u64 = 2;
    let user2: u64 = 3;
    let factory = admin;
    let controller_arg = factory;
    let mut pool = CometPoolContract::init(factory, controller_arg);

    let token1: u64 = 101;
    let token2: u64 = 102;
    let token3: u64 = 103;
    let token4: u64 = 104;

    // token ledger balances, kept by this test as the host would keep them
    let mut admin_token1 = to_stroop(50);
    let mut user1_token1 = to_stroop(25);
    let _user1_token2 = to_stroop(4);
    let _user1_token3 = to_stroop(40000);
    let mut user2_token1 = to_stroop(12);
    let _user2_token4 = to_stroop(51);
    let _ = (user1, user2, token4);

    let controller = pool.get_controller();
    assert_eq!(controller, admin);
    let num_tokens = pool.get_num_tokens();
    assert_eq!(num_tokens, 0);

    pool.bind(token1, to_stroop(50), to_stroop(5), admin).unwrap();
    admin_token1 -= to_stroop(50);
    assert_eq!(admin_token1, 0);
    pool.bind(token2, to_stroop(20), to_stroop(5), admin).unwrap();
    pool.bind(token3, to_stroop(10000), to_stroop(5), admin).unwrap();

    let num_tokens = pool.get_num_tokens();
    assert_eq!(3, num_tokens);
    let total_denormalized_weight = pool.get_total_denormalized_weight();
    assert_eq!(to_stroop(15), total_denormalized_weight);
    let current_tokens = pool.get_current_tokens();
    assert!(current_tokens.contains(&token1));
    assert!(current_tokens.contains(&token2));
    assert!(current_tokens.contains(&token3));
    assert_eq!(current_tokens.len(), 3);

    pool.set_swap_fee(to_stroop(0.003), controller).unwrap();
    let swap_fee = pool.get_swap_fee();
    assert_eq!(swap_fee, to_stroop(0.003));
    pool.finalize(controller).unwrap();
    // the initial share supply is minted to the controller
    let controller_shares = INIT_POOL_SUPPLY;
    assert_eq!(controller_shares, 100 * BONE);
    assert_eq!(pool.get_total_shares(), 100 * BONE);

    let amounts_in = pool
        .join_pool(to_stroop(5), &vec![i128::MAX, i128::MAX, i128::MAX])
        .unwrap();
    user1_token1 -= amounts_in[0];
    assert_eq!(to_stroop(10500), pool.get_balance(token3).unwrap());
    assert_eq!(to_stroop(22.5), user1_token1);

    let token_1_price = pool.get_spot_price_sans_fee(token3, token1).unwrap();
    assert_eq!(token_1_price, to_stroop(200));
    let token_1_price_fee = pool.get_spot_price(token3, token1).unwrap();
    // 200.6018054162487462 with real arithmetic; the fixed-point value has
    // seven decimal places
    assert_eq!(token_1_price_fee, 2006018000);

    let tx = pool
        .swap_exact_amount_in(token1, to_stroop(2.5), token3, to_stroop(475), to_stroop(200))
        .unwrap();
    user2_token1 -= to_stroop(2.5);
    assert!(tx.0 >= to_stroop(475));
    assert_eq!(user2_token1, to_stroop(9.5));

    let val = pool.get_spot_price(token3, token1).unwrap();
    // 182.804672101083406128 with real arithmetic
    assert_eq!(val, 1828046600);

    let txr = pool
        .swap_exact_amount_out(token1, to_stroop(3), token2, to_stroop(1.0), to_stroop(500))
        .unwrap();
    assert!(txr.0 <= to_stroop(3));
    let val = pool.get_spot_price(token2, token1).unwrap();
    println!("{}", val);
}

#[test]
// the concrete three-token scenario: equal weights, the documented balances,
// the documented fee; finalizing mints the fixed supply and a five-percent
// join grows the third balance by exactly five percent.
fn test_three_token_join_scenario() {
    let controller: u64 = 7;
    let mut pool = CometPoolContract::init(controller, controller);
    pool.bind(11, 50 * BONE, 5 * BONE, controller).unwrap();
    pool.bind(12, 20 * BONE, 5 * BONE, controller).unwrap();
    pool.bind(13, 10000 * BONE, 5 * BONE, controller).unwrap();
    assert_eq!(pool.get_total_denormalized_weight(), 15 * BONE);
    pool.set_swap_fee(30_000, controller).unwrap();
    pool.finalize(controller).unwrap();
    assert_eq!(pool.get_total_shares(), INIT_POOL_SUPPLY);

    let supply = pool.get_total_shares();
    let amounts = pool
        .join_pool(supply / 20, &vec![i128::MAX, i128::MAX, i128::MAX])
        .unwrap();
    assert_eq!(amounts, vec![25_000_000, 10_000_000, 5_000_000_000]);
    assert_eq!(pool.get_balance(13).unwrap(), 10500 * BONE);
    assert_eq!(pool.get_total_shares(), 105 * BONE);
}

#[test]
// joining and then exiting with the same share amount returns no more of any
// token than was paid in.
fn test_join_exit_round_trip() {
    let controller: u64 = 7;
    let mut pool = CometPoolContract::init(controller, controller);
    pool.bind(11, 50 * BONE, 5 * BONE, controller).unwrap();
    pool.bind(12, 20 * BONE, 5 * BONE, controller).unwrap();
    pool.bind(13, 10000 * BONE, 5 * BONE, controller).unwrap();
    pool.set_swap_fee(30_000, controller).unwrap();
    pool.finalize(controller).unwrap();

    let shares = 5 * BONE;
    let amounts_in = pool.join_pool(shares, &vec![i128::MAX, i128::MAX, i128::MAX]).unwrap();
    let amounts_out = pool.exit_pool(shares, &vec![0, 0, 0]).unwrap();
    for i in 0..3 {
        assert!(amounts_out[i] <= amounts_in[i]);
    }
    // membership, weights, fee and supply are exactly as before the round trip
    assert_eq!(pool.get_current_tokens(), vec![11, 12, 13]);
    assert_eq!(pool.get_total_denormalized_weight(), 15 * BONE);
    assert_eq!(pool.get_swap_fee(), 30_000);
    assert_eq!(pool.get_total_shares(), INIT_POOL_SUPPLY);
}

#[test]
// with a positive fee, a successful swap of a positive amount strictly
// raises the spot price of the traded direction.
fn test_swap_price_strictly_increases() {
    let controller: u64 = 7;
    let mut pool = CometPoolContract::init(controller, controller);
    pool.bind(11, 50 * BONE, 5 * BONE, controller).unwrap();
    pool.bind(12, 20 * BONE, 5 * BONE, controller).unwrap();
    pool.bind(13, 10000 * BONE, 5 * BONE, controller).unwrap();
    pool.set_swap_fee(30_000, controller).unwrap();
    pool.finalize(controller).unwrap();

    let price_before = pool.get_spot_price(11, 13).unwrap();
    let (amount_out, price_after) = pool
        .swap_exact_amount_in(11, 25 * BONE / 10, 13, 0, i128::MAX)
        .unwrap();
    assert!(amount_out > 0);
    assert!(price_after > price_before);
    assert_eq!(pool.get_spot_price(11, 13).unwrap(), price_after);
}

#[test]
// binding a fourth token once the capacity is reached fails, and binding
// anything after finalization fails.
fn test_bind_limits() {
    let controller: u64 = 7;
    let mut pool = CometPoolContract::init(controller, controller);
    pool.bind(11, 50 * BONE, 5 * BONE, controller).unwrap();
    pool.bind(12, 20 * BONE, 5 * BONE, controller).unwrap();
    pool.bind(13, 10000 * BONE, 5 * BONE, controller).unwrap();
    assert_eq!(pool.bind(14, 10 * BONE, 5 * BONE, controller), Err(Error::MaxTokens));
    pool.finalize(controller).unwrap();
    assert_eq!(pool.bind(14, 10 * BONE, 5 * BONE, controller), Err(Error::AlreadyFinalized));
}

#[test]
// each state-machine error comes on exactly the input the rules name.
fn test_pool_error_cases() {
    let controller: u64 = 7;
    let stranger: u64 = 8;
    let mut pool = CometPoolContract::init(controller, controller);
    assert_eq!(pool.bind(11, 50 * BONE, 5 * BONE, stranger), Err(Error::Unauthorized));
    pool.bind(11, 50 * BONE, 5 * BONE, controller).unwrap();
    assert_eq!(pool.bind(11, 50 * BONE, 5 * BONE, controller), Err(Error::AlreadyBound));
    assert_eq!(pool.bind(12, 50 * BONE, BONE - 1, controller), Err(Error::MinWeight));
    assert_eq!(pool.bind(12, 50 * BONE, 51 * BONE, controller), Err(Error::MaxWeight));
    assert_eq!(pool.bind(12, 9, 5 * BONE, controller), Err(Error::MinBalance));
    assert_eq!(pool.bind(12, 50 * BONE, 46 * BONE, controller), Err(Error::MaxTotalWeight));
    assert_eq!(pool.rebind(12, 50 * BONE, 5 * BONE, controller), Err(Error::NotBound));
    pool.rebind(11, 60 * BONE, 6 * BONE, controller).unwrap();
    assert_eq!(pool.get_balance(11).unwrap(), 60 * BONE);
    assert_eq!(pool.get_denormalized_weight(11).unwrap(), 6 * BONE);
    assert_eq!(pool.get_total_denormalized_weight(), 6 * BONE);
    assert_eq!(pool.get_balance(99), Err(Error::NotBound));

    assert_eq!(pool.set_swap_fee(9, controller), Err(Error::MinFee));
    assert_eq!(pool.set_swap_fee(BONE, controller), Err(Error::MaxFee));
    assert_eq!(pool.set_swap_fee(30_000, stranger), Err(Error::Unauthorized));
    assert_eq!(pool.set_public_swap(controller, true), Err(Error::NotFinalized));

    assert_eq!(pool.finalize(controller), Err(Error::MinTokens));
    assert_eq!(pool.join_pool(BONE, &vec![i128::MAX]), Err(Error::NotFinalized));
    assert_eq!(pool.get_final_tokens(), Err(Error::NotFinalized));

    pool.bind(12, 20 * BONE, 5 * BONE, controller).unwrap();
    pool.bind(13, 10000 * BONE, 5 * BONE, controller).unwrap();
    assert_eq!(pool.finalize(stranger), Err(Error::Unauthorized));
    pool.finalize(controller).unwrap();
    assert_eq!(pool.finalize(controller), Err(Error::AlreadyFinalized));
    assert!(pool.is_finalized());
    assert!(pool.is_public_swap());
    assert!(pool.is_bound(11));
    assert!(!pool.is_bound(99));
    assert_eq!(pool.get_final_tokens().unwrap(), vec![11, 12, 13]);
    assert_eq!(pool.get_normalized_weight(11).unwrap(), 3_750_000);

    // a join of nothing rounds the ratio to zero
    assert_eq!(
        pool.join_pool(0, &vec![i128::MAX, i128::MAX, i128::MAX]),
        Err(Error::MathApprox),
    );
    // a join above a caller limit is refused
    assert_eq!(
        pool.join_pool(5 * BONE, &vec![0, 0, 0]),
        Err(Error::LimitIn),
    );
    // an exit below a caller floor is refused
    assert_eq!(
        pool.exit_pool(5 * BONE, &vec![i128::MAX, i128::MAX, i128::MAX]),
        Err(Error::LimitOut),
    );

    // swapping stays gated
    assert_eq!(
        pool.swap_exact_amount_in(11, BONE, 99, 0, i128::MAX),
        Err(Error::NotBound),
    );
    assert_eq!(
        pool.swap_exact_amount_in(11, 61 * BONE, 13, 0, i128::MAX),
        Err(Error::MaxInRatio),
    );
    assert_eq!(
        pool.swap_exact_amount_in(11, BONE, 13, 0, 0),
        Err(Error::BadLimitPrice),
    );
    assert_eq!(
        pool.swap_exact_amount_in(11, BONE, 13, i128::MAX, i128::MAX),
        Err(Error::LimitOut),
    );
    assert_eq!(
        pool.swap_exact_amount_out(11, i128::MAX, 13, 5000 * BONE, i128::MAX),
        Err(Error::MaxOutRatio),
    );
    pool.set_public_swap(controller, false).unwrap();
    assert_eq!(
        pool.swap_exact_amount_in(11, BONE, 13, 0, i128::MAX),
        Err(Error::SwapNotPublic),
    );
    pool.set_public_swap(controller, true).unwrap();

    // the single-token conversions hold their limits too
    assert_eq!(
        pool.dep_tokn_amt_in_get_lp_tokns_out(11, 31 * BONE, 0),
        Err(Error::MaxInRatio),
    );
    assert_eq!(
        pool.dep_tokn_amt_in_get_lp_tokns_out(11, BONE, i128::MAX),
        Err(Error::LimitOut),
    );
    assert_eq!(
        pool.dep_lp_tokn_amt_out_get_tokn_in(11, BONE, 0),
        Err(Error::LimitIn),
    );
    assert_eq!(
        pool.wdr_tokn_amt_in_get_lp_tokns_out(11, BONE, i128::MAX),
        Err(Error::LimitOut),
    );
    assert_eq!(
        pool.wdr_tokn_amt_out_get_lp_tokns_in(11, 21 * BONE, i128::MAX),
        Err(Error::MaxOutRatio),
    );
}

#[test]
// a deposit of one token mints shares, and withdrawing them again returns no
// more than was deposited.
fn test_single_token_deposit_withdraw() {
    let controller: u64 = 7;
    let mut pool = CometPoolContract::init(controller, controller);
    pool.bind(11, 50 * BONE, 5 * BONE, controller).unwrap();
    pool.bind(12, 20 * BONE, 5 * BONE, controller).unwrap();
    pool.bind(13, 10000 * BONE, 5 * BONE, controller).unwrap();
    pool.set_swap_fee(30_000, controller).unwrap();
    pool.finalize(controller).unwrap();

    let deposit = 5 * BONE;
    let shares = pool.dep_tokn_amt_in_get_lp_tokns_out(11, deposit, 0).unwrap();
    assert!(shares > 0);
    assert_eq!(pool.get_balance(11).unwrap(), 55 * BONE);
    assert_eq!(pool.get_total_shares(), INIT_POOL_SUPPLY + shares);

    let withdrawn = pool.wdr_tokn_amt_in_get_lp_tokns_out(11, shares, 0).unwrap();
    assert!(withdrawn > 0);
    assert!(withdrawn <= deposit);
    assert_eq!(pool.get_total_shares(), INIT_POOL_SUPPLY);

    // the inverse pair quotes consistent amounts
    let want_shares = BONE;
    let need = pool.dep_lp_tokn_amt_out_get_tokn_in(12, want_shares, i128::MAX).unwrap();
    assert!(need > 0);
    let burned = pool.wdr_tokn_amt_out_get_lp_tokns_in(12, need, i128::MAX).unwrap();
    assert!(burned > 0);
}

#[test]
// a negative token amount is refused before any ledger movement.
fn test_check_nonnegative_amount() {
    assert_eq!(check_nonnegative_amount(0), Ok(()));
    assert_eq!(check_nonnegative_amount(5), Ok(()));
    assert_eq!(check_nonnegative_amount(-1), Err(Error::NegativeAmount));
    assert_eq!(check_nonnegative_amount(-1).err().unwrap().msg(), "ERR_NEGATIVE_AMOUNT");
}

#[test]
// handing the pool to a new controller moves the authority with it.
fn test_set_controller() {
    let controller: u64 = 7;
    let manager: u64 = 9;
    let mut pool = CometPoolContract::init(1, controller);
    assert_eq!(pool.set_controller(manager, manager), Err(Error::Unauthorized));
    pool.set_controller(controller, manager).unwrap();
    assert_eq!(pool.get_controller(), manager);
    assert_eq!(pool.bind(11, 50 * BONE, 5 * BONE, controller), Err(Error::Unauthorized));
    pool.bind(11, 50 * BONE, 5 * BONE, manager).unwrap();
}
