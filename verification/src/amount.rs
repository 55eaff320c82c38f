use vstd::prelude::*;

verus! {

/// Converts an unsigned amount into the signed amount that the token
/// interface takes. The contracts abort on amounts above `i128::MAX`, so those
/// are left out.
pub fn token_amount(amount: u128) -> (r: i128)
    requires
        amount <= i128::MAX,
    ensures
        r == amount,
{
    amount as i128
}

/// Whether `amount` can be handed to the token interface without the
/// conversion aborting.
pub fn fits_token_amount(amount: u128) -> (r: bool)
    ensures
        r == (amount <= i128::MAX),
{
    amount <= i128::MAX as u128
}

} // verus!
