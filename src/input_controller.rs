use vstd::prelude::*;

use crate::errors::Error;

verus! {

/// An ASCII decimal digit.
pub open spec fn is_digit(c: char) -> bool {
    '0' <= c && c <= '9'
}

/// The value of a run of decimal digits, most significant first.
pub open spec fn digits_value(s: Seq<char>) -> int
    decreases s.len(),
{
    if s.len() == 0 {
        0
    } else {
        digits_value(s.drop_last()) * 10 + (s.last() as u32 - '0' as u32)
    }
}

/// The text without its leading `+` or `-`, if it has one.
pub open spec fn unsigned_part(s: Seq<char>) -> Seq<char> {
    if s.len() > 0 && (s[0] == '-' || s[0] == '+') {
        s.drop_first()
    } else {
        s
    }
}

/// The `i32` that a text writes in decimal: an optional `+` or `-`, then
/// one or more ASCII digits, with a value in `i32`'s range.
pub open spec fn decimal_i32(s: Seq<char>) -> Option<i32> {
    let body = unsigned_part(s);
    let v = if s.len() > 0 && s[0] == '-' {
        -digits_value(body)
    } else {
        digits_value(body)
    };
    if body.len() > 0 && (forall|i: int| 0 <= i < body.len() ==> is_digit(#[trigger] body[i]))
        && i32::MIN <= v && v <= i32::MAX {
        Some(v as i32)
    } else {
        None
    }
}

/// Relies on `str::parse::<i32>` (`i32::from_str`): an optional sign, then
/// decimal digits, with overflow an error.
#[verifier::external_body]
fn parse_i32(s: &str) -> (r: Option<i32>)
    ensures
        r == decimal_i32(s@),
{
    s.parse::<i32>().ok()
}

/// Where a shop finds its orders: the orders file name and the shop's id.
#[derive(Clone, Debug)]
pub struct InputController {
    pub filename: String,
    pub shop_id: i32,
}

impl InputController {
    /// Builds the controller from the file name and the shop id as given on
    /// the command line.
    pub fn new(file_input: Option<String>, shop_id_input: Option<String>) -> (r: Result<
        InputController,
        Error,
    >)
        ensures
            file_input is None ==> r == Err::<InputController, Error>(Error::NotFileInput),
            file_input is Some && shop_id_input is None ==> r == Err::<InputController, Error>(
                Error::NotShopIdInput,
            ),
            file_input is Some && shop_id_input is Some ==> match decimal_i32(
                shop_id_input->0@,
            ) {
                Some(v) => r is Ok && r->Ok_0.filename@ == file_input->0@ && r->Ok_0.shop_id
                    == v,
                None => r == Err::<InputController, Error>(Error::InvalidShopId),
            },
    {
        let file = match file_input {
            Some(file) => file,
            None => return Err(Error::NotFileInput),
        };
        let shop_id = match shop_id_input {
            Some(shop_id) => shop_id,
            None => return Err(Error::NotShopIdInput),
        };
        match parse_i32(shop_id.as_str()) {
            Some(v) => Ok(InputController { filename: file, shop_id: v }),
            None => Err(Error::InvalidShopId),
        }
    }
}

} // verus!
