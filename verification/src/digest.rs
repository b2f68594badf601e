//! Records, their digests, and the text form of a digest.
//!
//! A digest is the 64-bit value that std's default hasher gives for what
//! was written to it; a fingerprint is that value in base 62.

use std::collections::hash_map::DefaultHasher;
use std::hash::Hash;
use std::hash::Hasher;
use vstd::prelude::*;
use vstd::std_specs::hash::DefaultHasherAdditionalSpecFns;

verus! {

/// One transfer of the ledger.
#[derive(Debug)]
pub struct Record {
    pub from: String,
    pub to: String,
    pub amount: u64,
    /// The record's place in the order of insertion, counted from 0.
    pub id: usize,
}

/// What a [`Record`] holds, as plain values.
pub ghost struct RecordView {
    pub from: Seq<char>,
    pub to: Seq<char>,
    pub amount: u64,
    pub id: usize,
}

impl View for Record {
    type V = RecordView;

    open spec fn view(&self) -> RecordView {
        RecordView { from: self.from@, to: self.to@, amount: self.amount, id: self.id }
    }
}

/// The hasher's state after a text was hashed into a hasher in state
/// `before`.
pub uninterp spec fn text_written(before: Seq<Seq<u8>>, text: Seq<char>) -> Seq<Seq<u8>>;

/// The hasher's state after a `u64` was hashed into a hasher in state
/// `before`.
pub uninterp spec fn u64_written(before: Seq<Seq<u8>>, value: u64) -> Seq<Seq<u8>>;

/// The hasher's state after a `usize` was hashed into a hasher in state
/// `before`, on the machine that runs the library.
pub uninterp spec fn usize_written(before: Seq<Seq<u8>>, value: usize) -> Seq<Seq<u8>>;

/// The digits of base 62 in the order of their values.
pub open spec fn base62_alphabet() -> Seq<char> {
    "0123456789ABCDEFGHIJKLMNOPQRSTUVWXYZabcdefghijklmnopqrstuvwxyz"@
}

/// `n` written in base 62, most significant digit first, without leading
/// zeros (and `"0"` for 0).
pub open spec fn base62_text(n: nat) -> Seq<char>
    decreases n,
{
    if n < 62 {
        seq![base62_alphabet()[n as int]]
    } else {
        base62_text(n / 62).push(base62_alphabet()[(n % 62) as int])
    }
}

/// The digest of a record: its four fields hashed in the order of their
/// declaration into a fresh hasher.
pub open spec fn record_digest(r: RecordView) -> u64 {
    DefaultHasher::spec_finish(
        usize_written(
            u64_written(text_written(text_written(Seq::empty(), r.from), r.to), r.amount),
            r.id,
        ),
    )
}

/// The fingerprint of the leaf that holds `r`.
pub open spec fn leaf_fingerprint(r: RecordView) -> Seq<char> {
    base62_text(record_digest(r) as nat)
}

/// The fingerprint that folds `addition` into `existing`. The order of the
/// two matters.
pub open spec fn combine(existing: Seq<char>, addition: Seq<char>) -> Seq<char> {
    base62_text(
        DefaultHasher::spec_finish(text_written(text_written(Seq::empty(), existing), addition)) as nat,
    )
}

/// Calls `Hash::hash` of `str` with std's default hasher. Trusted: the
/// hasher's new state depends on its old state and on the text alone.
#[verifier::external_body]
fn hash_text(state: &mut DefaultHasher, text: &str)
    ensures
        final(state)@ == text_written(old(state)@, text@),
{
    text.hash(state)
}

/// Calls `Hash::hash` of `u64` with std's default hasher. Trusted: the
/// hasher's new state depends on its old state and on the value alone.
#[verifier::external_body]
fn hash_u64(state: &mut DefaultHasher, value: u64)
    ensures
        final(state)@ == u64_written(old(state)@, value),
{
    value.hash(state)
}

/// Calls `Hash::hash` of `usize` with std's default hasher. Trusted: the
/// hasher's new state depends on its old state and on the value alone.
#[verifier::external_body]
fn hash_usize(state: &mut DefaultHasher, value: usize)
    ensures
        final(state)@ == usize_written(old(state)@, value),
{
    value.hash(state)
}

/// Calls `base62::encode`. Trusted: the result is the value's digits in
/// base 62 with the standard alphabet (`0` to `9`, `A` to `Z`, `a` to `z`),
/// most significant first, as many as the value needs.
#[verifier::external_body]
fn encode_base62(value: u64) -> (text: String)
    ensures
        text@ == base62_text(value as nat),
{
    base62::encode(value)
}

impl Record {
    /// A record with empty names, amount 0 and id 0.
    pub fn new() -> (r: Record)
        ensures
            r@ == (RecordView { from: Seq::empty(), to: Seq::empty(), amount: 0, id: 0 }),
    {
        Record { from: String::new(), to: String::new(), amount: 0, id: 0 }
    }

    /// The fingerprint of the leaf that holds this record.
    pub fn new_hash(&self) -> (text: String)
        ensures
            text@ == leaf_fingerprint(self@),
    {
        let mut s = DefaultHasher::new();
        hash_text(&mut s, self.from.as_str());
        hash_text(&mut s, self.to.as_str());
        hash_u64(&mut s, self.amount);
        hash_usize(&mut s, self.id);
        encode_base62(s.finish())
    }
}

/// Folds the fingerprint `addition` into the fingerprint `existing`.
pub fn combine_fingerprints(existing: &str, addition: &str) -> (text: String)
    ensures
        text@ == combine(existing@, addition@),
{
    let mut s = DefaultHasher::new();
    hash_text(&mut s, existing);
    hash_text(&mut s, addition);
    encode_base62(s.finish())
}

} // verus!
