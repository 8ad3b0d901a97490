# Genesis transactions

The transactions that a proof-of-stake chain starts from: accounts that are
established at genesis, validator accounts, and bonds of tokens to validators.
The library signs them, merges sets of them, and validates them against the other
genesis templates. It is written in Verus; every function carries a contract.

- `src/` is the library.
  - `amount`, `keys`, `address`, `table`, `codec`: the values, finite maps, and the
    Borsh encoding of what is hashed and signed.
  - `answers`: what the library asks of the cryptography, and the answers.
  - `account`, `bond`, `templates`, `transactions`: the transactions.
  - `signing`: making and signing transactions.
  - `account_validation`, `bond_validation`, `checks`, `validate`: validation.
  - `faults`: what is wrong with transactions that are not valid.
  - `laws`: what holds of the library as a whole.
- `tests/` runs it.
- `app/` reads and writes the TOML files, and asks the cryptography.
