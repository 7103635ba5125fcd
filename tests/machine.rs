use shop_ring::errors::Error;
use shop_ring::machine::{
    block_command, cash_commands, complete_command, needs_cash_fallback, Order,
};

#[test]
fn block_command_text() {
    assert_eq!(block_command(42), b"block 42".to_vec());
    assert_eq!(block_command(0), b"block 0".to_vec());
}

#[test]
fn complete_command_text() {
    assert_eq!(complete_command(7, 350, "points"), b"complete 7 350 points".to_vec());
    assert_eq!(
        complete_command(u64::MAX, 10, "card"),
        b"complete 18446744073709551615 10 card".to_vec()
    );
}

#[test]
fn cash_fallback_commands() {
    let order = Order { id: 1, customer_id: 12, price: 90, payment_method: "points".to_string() };
    let (block, complete) = cash_commands(&order);
    assert_eq!(block, b"block 12".to_vec());
    assert_eq!(complete, b"complete 12 90 cash".to_vec());
}

#[test]
fn fallback_only_for_missing_points() {
    assert_eq!(needs_cash_fallback(Ok(())), Ok(false));
    assert_eq!(needs_cash_fallback(Err(Error::NotEnoughPoints)), Ok(true));
    assert_eq!(needs_cash_fallback(Err(Error::Timeout)), Err(Error::Timeout));
}
