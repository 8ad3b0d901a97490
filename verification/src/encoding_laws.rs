//! Where the parts of a value stand in its encoding.

use crate::account::{keys_encoding, EstablishedAccountTx, UnsignedValidatorAccountTx};
use crate::address::{Address, EstablishedAddress, GenesisAddress, InternalAddress, SocketAddr};
use crate::amount::{Dec, DenominatedAmount, Uint};
use crate::bond::{bond_message, can_denominate, denominated, signable_amount, BondTx};
use crate::codec::{
    bytes_encoding, option_string_encoding, option_string_fits, string_encoding, string_fits,
    Encode,
};
use crate::keys::{PublicKey, StringEncoded};
use crate::templates::Unvalidated;
use vstd::bytes::{spec_u16_to_le_bytes, spec_u32_to_le_bytes, spec_u64_to_le_bytes};
use vstd::prelude::*;
use vstd::utf8::encode_utf8;

verus! {

/// A string is its number of UTF-8 bytes in 32 bits, then these bytes. An optional
/// string has a one before it, or is a zero. Both fit where the number does.
pub proof fn law_string_bytes(s: Seq<char>, b: Seq<u8>, v: Vec<u8>)
    ensures
        bytes_encoding(b) == spec_u32_to_le_bytes(b.len() as u32) + b,
        string_encoding(s) == spec_u32_to_le_bytes(encode_utf8(s).len() as u32) + encode_utf8(s),
        option_string_encoding(Some(s)) == seq![1u8] + string_encoding(s),
        option_string_encoding(None) == seq![0u8],
        string_fits(s) <==> encode_utf8(s).len() <= 0xffff_ffff,
        option_string_fits(Some(s)) <==> string_fits(s),
        option_string_fits(None),
        v.encoding() == bytes_encoding(v@),
        v.fits() <==> v@.len() <= 0xffff_ffff,
{
}

/// Numbers are their limbs, the least significant first, and amounts have their decimal
/// places behind them.
pub proof fn law_number_bytes(a: Uint, dec: Dec, amount: DenominatedAmount)
    ensures
        a.encoding().len() == 32,
        a.encoding().subrange(0, 8) == spec_u64_to_le_bytes(a.0),
        a.encoding().subrange(8, 16) == spec_u64_to_le_bytes(a.1),
        a.encoding().subrange(16, 24) == spec_u64_to_le_bytes(a.2),
        a.encoding().subrange(24, 32) == spec_u64_to_le_bytes(a.3),
        dec.encoding() == dec.raw.encoding(),
        amount.encoding() == amount.amount.raw.encoding().push(amount.denom),
{
    vstd::bytes::lemma_auto_spec_u64_to_from_le_bytes();
    assert(a.encoding().subrange(0, 8) =~= spec_u64_to_le_bytes(a.0));
    assert(a.encoding().subrange(8, 16) =~= spec_u64_to_le_bytes(a.1));
    assert(a.encoding().subrange(16, 24) =~= spec_u64_to_le_bytes(a.2));
    assert(a.encoding().subrange(24, 32) =~= spec_u64_to_le_bytes(a.3));
    assert(amount.encoding() =~= amount.amount.raw.encoding().push(amount.denom));
}

/// Keys and addresses start with a byte for their kind, and the rest is what they hold.
pub proof fn law_key_and_address_bytes(
    pk: PublicKey,
    a: Address,
    g: GenesisAddress,
    s: SocketAddr,
)
    ensures
        pk matches PublicKey::Ed25519(b) ==> pk.encoding()[0] == 0 && pk.encoding().skip(1) == b@,
        pk matches PublicKey::Secp256k1(b) ==> pk.encoding()[0] == 1 && pk.encoding().skip(1)
            == b@,
        pk.encoding().len() > 0,
        a matches Address::Established(e) ==> a.encoding()[0] == 0 && a.encoding().skip(1)
            == e.hash@,
        a matches Address::Implicit(e) ==> a.encoding()[0] == 1 && a.encoding().skip(1) == e.hash@,
        a matches Address::Internal(InternalAddress::Single(k)) ==> a.encoding() == seq![2u8, k],
        a matches Address::Internal(InternalAddress::Hashed(k, h)) ==> a.encoding()[0] == 2
            && a.encoding()[1] == k && a.encoding().skip(2) == h@,
        a.encoding().len() > 0,
        g matches GenesisAddress::EstablishedAddress(e) ==> g.encoding()[0] == 0
            && g.encoding().skip(1) == e.hash@,
        g matches GenesisAddress::PublicKey(k) ==> g.encoding()[0] == 1 && g.encoding().skip(1)
            == k.raw.encoding(),
        g.encoding().len() > 0,
        s matches SocketAddr::V4(ip, port) ==> s.encoding()[0] == 0 && s.encoding().skip(1) == ip@
            + spec_u16_to_le_bytes(port),
        s matches SocketAddr::V6(ip, port, _, _) ==> s.encoding()[0] == 1 && s.encoding().skip(1)
            == ip@ + spec_u16_to_le_bytes(port),
        s.encoding().len() > 0,
{
    match pk {
        PublicKey::Ed25519(b) => {
            assert(pk.encoding().skip(1) =~= b@);
        },
        PublicKey::Secp256k1(b) => {
            assert(pk.encoding().skip(1) =~= b@);
        },
    }
    match a {
        Address::Established(e) => {
            assert(a.encoding().skip(1) =~= e.hash@);
        },
        Address::Implicit(e) => {
            assert(a.encoding().skip(1) =~= e.hash@);
        },
        Address::Internal(InternalAddress::Single(k)) => {
            assert(a.encoding() =~= seq![2u8, k]);
        },
        Address::Internal(InternalAddress::Hashed(k, h)) => {
            assert(a.encoding().skip(2) =~= h@);
        },
    }
    match g {
        GenesisAddress::EstablishedAddress(e) => {
            assert(g.encoding().skip(1) =~= e.hash@);
        },
        GenesisAddress::PublicKey(k) => {
            assert(g.encoding().skip(1) =~= k.raw.encoding());
        },
    }
    match s {
        SocketAddr::V4(ip, port) => {
            assert(s.encoding().skip(1) =~= ip@ + spec_u16_to_le_bytes(port));
        },
        SocketAddr::V6(ip, port, _, _) => {
            assert(s.encoding().skip(1) =~= ip@ + spec_u16_to_le_bytes(port));
        },
    }
}

/// The keys of an account are written one after the other.
pub proof fn law_keys_bytes(
    a: Seq<StringEncoded<PublicKey>>,
    b: Seq<StringEncoded<PublicKey>>,
    key: StringEncoded<PublicKey>,
)
    ensures
        keys_encoding(a + b) == keys_encoding(a) + keys_encoding(b),
        keys_encoding(seq![key]) == key.raw.encoding(),
        keys_encoding(Seq::empty()).len() == 0,
    decreases a.len(),
{
    let one = seq![key];
    assert(one.drop_first() =~= Seq::empty());
    assert(keys_encoding(one.drop_first()) =~= Seq::empty());
    assert(keys_encoding(one) =~= key.raw.encoding());
    if a.len() == 0 {
        assert(a + b =~= b);
        assert(keys_encoding(a) + keys_encoding(b) =~= keys_encoding(b));
    } else {
        law_keys_bytes(a.drop_first(), b, key);
        assert((a + b).drop_first() =~= a.drop_first() + b);
        assert((a + b)[0] == a[0]);
        assert(keys_encoding(a + b) =~= keys_encoding(a) + keys_encoding(b));
    }
}

/// An established account is its validity predicate, its threshold, the number of its
/// keys in 32 bits and its keys. It fits where its string and that number do.
pub proof fn law_established_account_bytes(tx: EstablishedAccountTx)
    ensures
        tx.encoding() == string_encoding(tx.vp@) + seq![tx.threshold] + spec_u32_to_le_bytes(
            tx.public_keys@.len() as u32,
        ) + keys_encoding(tx.public_keys@),
        tx.encoding() == tx@.encoding(),
        tx.fits() <==> string_fits(tx.vp@) && tx.public_keys@.len() <= 0xffff_ffff,
        tx.fits() <==> tx@.fits(),
{
}

/// A validator account is its fields, in their order. It fits where its strings do.
pub proof fn law_validator_account_bytes(v: UnsignedValidatorAccountTx)
    ensures
        v.encoding() == string_encoding(v.vp@) + (v.commission_rate.encoding() + (
        v.max_commission_rate_change.encoding() + (string_encoding(v.email@) + (
        option_string_encoding(v@.description) + (option_string_encoding(v@.website) + (
        option_string_encoding(v@.discord_handle) + (v.net_address.encoding() + (
        v.account_key.raw.encoding() + (v.consensus_key.raw.encoding() + (
        v.protocol_key.raw.encoding() + (v.tendermint_node_key.raw.encoding() + (
        v.eth_hot_key.raw.encoding() + v.eth_cold_key.raw.encoding())))))))))))),
        v.encoding() == v@.encoding(),
        v.fits() <==> string_fits(v.vp@) && string_fits(v.email@) && option_string_fits(
            v@.description,
        ) && option_string_fits(v@.website) && option_string_fits(v@.discord_handle),
        v.fits() <==> v@.fits(),
{
}

/// The message of a bond is the length of what follows in 32 bits, its source, its
/// validator, and its amount: in millionths where it can be written so, else as it is.
pub proof fn law_bond_message_bytes(bond: BondTx<Unvalidated>)
    ensures
        ({
            let amount = if can_denominate(bond) {
                denominated(bond).amount
            } else {
                bond.amount
            };
            let data = bond.source.encoding() + bond.validator.encoding() + amount.encoding();
            bond_message(bond.source, bond.validator, bond.amount) == spec_u32_to_le_bytes(
                data.len() as u32,
            ) + data
        }),
{
    let amount = signable_amount(bond.amount);
    assert(bond.source.encoding() + (bond.validator.encoding() + amount.encoding())
        =~= bond.source.encoding() + bond.validator.encoding() + amount.encoding());
}

} // verus!
