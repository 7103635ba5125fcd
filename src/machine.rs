use vstd::prelude::*;

use vstd::string::StringSliceAdditionalSpecFns;

use crate::errors::Error;

verus! {

/// An order that a coffee machine processes.
#[derive(Clone, Debug)]
pub struct Order {
    pub id: u64,
    pub customer_id: u64,
    pub price: u64,
    pub payment_method: String,
}

/// The ASCII decimal digits of `x`, most significant first.
pub open spec fn decimal(x: nat) -> Seq<u8>
    decreases x,
{
    if x < 10 {
        seq![(48 + x) as u8]
    } else {
        decimal(x / 10).push((48 + x % 10) as u8)
    }
}

/// The command that blocks a customer's account.
pub open spec fn block_text(customer_id: u64) -> Seq<u8> {
    seq![98u8, 108u8, 111u8, 99u8, 107u8, 32u8] + decimal(customer_id as nat)
}

/// The command that settles an order of `price` paid with `method`.
pub open spec fn complete_text(customer_id: u64, price: u64, method: Seq<u8>) -> Seq<u8> {
    seq![99u8, 111u8, 109u8, 112u8, 108u8, 101u8, 116u8, 101u8, 32u8] + decimal(
        customer_id as nat,
    ) + seq![32u8] + decimal(price as nat) + seq![32u8] + method
}

/// The payment method that an order falls back to without enough points.
pub open spec fn cash() -> Seq<u8> {
    seq![99u8, 97u8, 115u8, 104u8]
}

fn push_decimal(out: &mut Vec<u8>, x: u64)
    ensures
        final(out)@ == old(out)@ + decimal(x as nat),
    decreases x,
{
    let ghost start = out@;
    if x >= 10 {
        push_decimal(out, x / 10);
    }
    out.push(48 + (x % 10) as u8);
    assert(out@ =~= start + decimal(x as nat));
}

fn push_bytes(out: &mut Vec<u8>, b: &[u8])
    ensures
        final(out)@ == old(out)@ + b@,
{
    let ghost start = out@;
    let mut i: usize = 0;
    while i < b.len()
        invariant
            i <= b@.len(),
            out@ == start + b@.take(i as int),
        decreases b@.len() - i,
    {
        out.push(b[i]);
        i = i + 1;
        assert(out@ =~= start + b@.take(i as int));
    }
    assert(b@.take(i as int) =~= b@);
}

/// The command that blocks `customer_id`'s account.
pub fn block_command(customer_id: u64) -> (r: Vec<u8>)
    ensures
        r@ == block_text(customer_id),
{
    let mut out: Vec<u8> = Vec::new();
    push_bytes(&mut out, &[98u8, 108u8, 111u8, 99u8, 107u8, 32u8]);
    push_decimal(&mut out, customer_id);
    assert(out@ =~= block_text(customer_id));
    out
}

/// The command that settles an order of `price` paid with `payment_method`.
pub fn complete_command(customer_id: u64, price: u64, payment_method: &str) -> (r: Vec<u8>)
    ensures
        r@ == complete_text(customer_id, price, payment_method.spec_bytes()),
{
    let mut out: Vec<u8> = Vec::new();
    push_bytes(&mut out, &[99u8, 111u8, 109u8, 112u8, 108u8, 101u8, 116u8, 101u8, 32u8]);
    push_decimal(&mut out, customer_id);
    push_bytes(&mut out, &[32u8]);
    push_decimal(&mut out, price);
    push_bytes(&mut out, &[32u8]);
    push_bytes(&mut out, payment_method.as_bytes());
    assert(out@ =~= complete_text(customer_id, price, payment_method.spec_bytes()));
    out
}

/// The commands sent when the customer lacks points: block the customer,
/// then settle the order in cash.
pub fn cash_commands(order: &Order) -> (r: (Vec<u8>, Vec<u8>))
    ensures
        r.0@ == block_text(order.customer_id),
        r.1@ == complete_text(order.customer_id, order.price, cash()),
{
    let method = "cash";
    proof {
        reveal_strlit("cash");
        assert(method.is_ascii());
        broadcast use vstd::string::is_ascii_spec_bytes;
        assert(method.spec_bytes() =~= cash());
    }
    (block_command(order.customer_id), complete_command(order.customer_id, order.price, method))
}

/// Whether an order falls back to cash after its settle command answered
/// `result`: only a refusal for lack of points does; any other error stops
/// the order.
pub fn needs_cash_fallback(result: Result<(), Error>) -> (r: Result<bool, Error>)
    ensures
        result is Ok ==> r == Ok::<bool, Error>(false),
        result == Err::<(), Error>(Error::NotEnoughPoints) ==> r == Ok::<bool, Error>(true),
        result is Err && result->Err_0 != Error::NotEnoughPoints ==> r == Err::<bool, Error>(
            result->Err_0,
        ),
{
    match result {
        Ok(()) => Ok(false),
        Err(Error::NotEnoughPoints) => Ok(true),
        Err(e) => Err(e),
    }
}

} // verus!
