//! Amounts of a named token.
use vstd::prelude::*;

verus! {

/// An amount of one token denomination.
pub struct Coin {
    pub denom: String,
    pub amount: u128,
}

/// Sum of the amounts in `funds` whose denomination is `denom`.
pub open spec fn amount_of_denom(funds: Seq<Coin>, denom: Seq<char>) -> nat
    decreases funds.len(),
{
    if funds.len() == 0 {
        0
    } else {
        amount_of_denom(funds.drop_last(), denom) + if funds.last().denom@ == denom {
            funds.last().amount as nat
        } else {
            0
        }
    }
}

} // verus!
