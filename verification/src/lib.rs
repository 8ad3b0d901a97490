//! Genesis transactions.

pub mod account;
pub mod account_validation;
pub mod address;
pub mod amount;
pub mod answers;
pub mod bond;
pub mod bond_laws;
pub mod bond_validation;
pub mod checks;
pub mod codec;
pub mod encoding_laws;
pub mod faults;
pub mod keys;
pub mod laws;
pub mod question_laws;
pub mod signing;
pub mod signing_laws;
pub mod table;
pub mod templates;
pub mod transactions;
pub mod validate;
pub mod validity_laws;
pub mod value_laws;
