//! The parts of the genesis templates that transactions are validated against.

use crate::address::GenesisAddress;
use crate::amount::DenominatedAmount;
use crate::bond::{BondTx, SignedBondTx};
use crate::table::Table;
use vstd::prelude::*;

verus! {

/// How the amounts of a template are written.
pub trait AmountTemplate: Sized {
    type Amount;
}

/// How far a template has been validated.
pub trait TemplateValidation: AmountTemplate {
    type BondTx;
}

/// A template as it was read.
#[derive(Clone, Copy, Debug, PartialEq, Eq)]
pub struct Unvalidated {}

/// A template that was found to be valid.
#[derive(Clone, Copy, Debug, PartialEq, Eq)]
pub struct Validated {}

impl AmountTemplate for Unvalidated {
    type Amount = DenominatedAmount;
}

impl AmountTemplate for Validated {
    type Amount = DenominatedAmount;
}

impl TemplateValidation for Unvalidated {
    type BondTx = SignedBondTx<Unvalidated>;
}

impl TemplateValidation for Validated {
    type BondTx = BondTx<Validated>;
}

/// The name of a token.
pub type Alias = String;

/// The validity predicates that accounts can have, by their names.
#[derive(Debug)]
pub struct ValidityPredicates {
    pub wasm: Table<String, ()>,
}

/// The balances of the accounts in one token.
#[derive(Debug)]
pub struct TokenBalances(pub Table<GenesisAddress, DenominatedAmount>);

impl View for TokenBalances {
    type V = Map<GenesisAddress, DenominatedAmount>;

    open spec fn view(&self) -> Map<GenesisAddress, DenominatedAmount> {
        self.0@
    }
}

/// The balances of the accounts in every token.
#[derive(Debug)]
pub struct DenominatedBalances {
    pub token: Table<Alias, TokenBalances>,
}

/// The chain parameters that transactions are validated against.
#[derive(Clone, Debug)]
pub struct Parameters {
    pub native_token: Alias,
}

} // verus!
