use network_core::codec::{ReadBuf, ReadError};
use network_core::witness::{
    HeaderHash, SpendingCounter, SpendingPublicKey, SpendingSecretKey, SpendingSignature,
    TransactionId, Verification, Witness, WitnessAccountData, WitnessUtxoData,
};

fn genesis() -> HeaderHash {
    HeaderHash { bytes: vec![0xaa; 32] }
}

fn txid() -> TransactionId {
    TransactionId { bytes: vec![0xbb; 32] }
}

fn secret() -> SpendingSecretKey {
    SpendingSecretKey::from_bytes(vec![1, 2, 3, 4])
}

#[test]
fn utxo_data_is_genesis_then_transaction() {
    let d = WitnessUtxoData::new(&genesis(), &txid());
    assert_eq!(d.0.len(), 64);
    assert_eq!(&d.0[..32], &[0xaa; 32][..]);
    assert_eq!(&d.0[32..], &[0xbb; 32][..]);
}

#[test]
fn account_data_is_tagged_and_counted() {
    let d = WitnessAccountData::new(&genesis(), &txid(), &SpendingCounter(0x01020304));
    assert_eq!(d.0.len(), 69);
    assert_eq!(d.0[0], 2);
    assert_eq!(&d.0[1..33], &[0xaa; 32][..]);
    assert_eq!(&d.0[33..65], &[0xbb; 32][..]);
    assert_eq!(&d.0[65..], &[1, 2, 3, 4][..]);
}

#[test]
fn spending_counter_encodes_big_endian() {
    assert_eq!(SpendingCounter(0).to_bytes(), vec![0, 0, 0, 0]);
    assert_eq!(SpendingCounter(1).to_bytes(), vec![0, 0, 0, 1]);
    assert_eq!(SpendingCounter(0xdeadbeef).to_bytes(), vec![0xde, 0xad, 0xbe, 0xef]);
}

#[test]
fn witness_verifies_its_own_transaction() {
    let sk = secret();
    let pk = sk.to_public();
    let w = Witness::new_utxo(&genesis(), &txid(), &sk);
    assert_eq!(w.verify_utxo(&pk, &genesis(), &txid()), Verification::Success);
}

#[test]
fn witness_fails_for_another_key_or_transaction() {
    let sk = secret();
    let w = Witness::new_utxo(&genesis(), &txid(), &sk);
    let other_pk = SpendingPublicKey { bytes: vec![9, 9] };
    assert_eq!(w.verify_utxo(&other_pk, &genesis(), &txid()), Verification::Failed);
    let pk = sk.to_public();
    let other_tx = TransactionId { bytes: vec![0xcc; 32] };
    assert_eq!(w.verify_utxo(&pk, &genesis(), &other_tx), Verification::Failed);
}

#[test]
fn legacy_witness_is_unimplemented_for_verification() {
    let sk = secret();
    let xpub = SpendingPublicKey { bytes: vec![3; 64] };
    let sig = SpendingSignature { key: vec![4; 32], data: vec![5; 64] };
    let w = Witness::OldUtxo(xpub, sig);
    let r = w.try_verify_utxo(&sk.to_public(), &genesis(), &txid());
    assert_eq!(r.unwrap_err(), network_core::error::Error::Unimplemented);
    let ok = Witness::new_utxo(&genesis(), &txid(), &sk);
    let v = ok.try_verify_utxo(&sk.to_public(), &genesis(), &txid()).unwrap();
    assert_eq!(v, Verification::Success);
}

#[test]
fn account_witness_never_verifies_as_utxo() {
    let sk = secret();
    let w = Witness::new_account(&genesis(), &txid(), &SpendingCounter(5), &sk);
    assert_eq!(w.verify_utxo(&sk.to_public(), &genesis(), &txid()), Verification::Failed);
}

#[test]
fn witness_equality_is_by_contents() {
    let sk = secret();
    let a = Witness::new_utxo(&genesis(), &txid(), &sk);
    let b = Witness::new_utxo(&genesis(), &txid(), &sk);
    assert_eq!(a, b);
    let c = Witness::new_account(&genesis(), &txid(), &SpendingCounter(5), &sk);
    assert!(a != c);
}

#[test]
fn utxo_witness_round_trips_through_the_codec() {
    let w = Witness::new_utxo(&genesis(), &txid(), &secret());
    let mut out: Vec<u8> = Vec::new();
    w.serialize(&mut out);
    assert_eq!(out[0], 1);
    let mut buf = ReadBuf::new(out);
    let back = Witness::read(&mut buf).unwrap();
    assert_eq!(back, w);
}

#[test]
fn account_witness_round_trips_through_the_codec() {
    let w = Witness::new_account(&genesis(), &txid(), &SpendingCounter(7), &secret());
    let mut out: Vec<u8> = Vec::new();
    w.serialize(&mut out);
    assert_eq!(out[0], 2);
    let mut buf = ReadBuf::new(out);
    let back = Witness::read(&mut buf).unwrap();
    assert_eq!(back, w);
}

#[test]
fn legacy_witness_round_trips_through_the_codec() {
    let xpub = SpendingPublicKey { bytes: vec![3; 64] };
    let sig = SpendingSignature { key: vec![4; 32], data: vec![5; 64] };
    let w = Witness::OldUtxo(xpub, sig);
    let mut out: Vec<u8> = Vec::new();
    w.serialize(&mut out);
    assert_eq!(out[0], 0);
    let mut buf = ReadBuf::new(out);
    let back = Witness::read(&mut buf).unwrap();
    assert_eq!(back, w);
}

#[test]
fn unknown_tag_is_reported_as_such() {
    let mut buf = ReadBuf::new(vec![9, 0, 0]);
    assert_eq!(Witness::read(&mut buf).unwrap_err(), ReadError::UnknownTag(9));
}

#[test]
fn truncated_buffer_reports_not_enough_bytes() {
    let mut empty = ReadBuf::new(vec![]);
    assert_eq!(Witness::read(&mut empty).unwrap_err(), ReadError::NotEnoughBytes);
    // A Utxo tag followed by a length prefix promising more than there is.
    let mut cut = ReadBuf::new(vec![1, 0, 0, 0, 8, 1, 2]);
    assert_eq!(Witness::read(&mut cut).unwrap_err(), ReadError::NotEnoughBytes);
}

#[test]
fn serialization_is_length_prefixed() {
    let w = Witness::Utxo(SpendingSignature { key: vec![7, 8], data: vec![9] });
    let mut out: Vec<u8> = Vec::new();
    w.serialize(&mut out);
    assert_eq!(out, vec![1, 0, 0, 0, 2, 7, 8, 0, 0, 0, 1, 9]);
}
