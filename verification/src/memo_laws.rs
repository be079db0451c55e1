//! What it takes for a memo to match, over the bytes of the memo.

use crate::backend::{
    branch_at, decoded_ufvk, decrypted_memos, parsed_transaction, without_padding,
};
use crate::chain::Network;
use crate::verify::{memo_found, memo_is, some_memo_is};
use vstd::prelude::*;
use vstd::utf8::{
    decode_utf8_encode_utf8, encode_utf8, encode_utf8_decode_utf8, encode_utf8_valid_utf8,
};

verus! {

/// Whether a memo spells out a text: it is marked as text by its first byte and holds the UTF-8
/// bytes of the text and zeros behind them. The text itself does not end with a zero.
pub open spec fn spells(memo: Seq<u8>, text: Seq<char>) -> bool {
    let bytes = encode_utf8(text);
    &&& memo[0] <= 0xF4
    &&& bytes.len() <= memo.len()
    &&& bytes.len() > 0 ==> bytes.last() != 0
    &&& forall|i: int| 0 <= i < bytes.len() ==> #[trigger] memo[i] == bytes[i]
    &&& forall|i: int| bytes.len() <= i < memo.len() ==> #[trigger] memo[i] == 0
}

/// What is left of some bytes without their padding, and what the padding is.
proof fn padding_is_zeros(bytes: Seq<u8>)
    ensures
        ({
            let rest = without_padding(bytes);
            &&& rest.len() <= bytes.len()
            &&& rest.len() > 0 ==> rest.last() != 0
            &&& forall|i: int| 0 <= i < rest.len() ==> #[trigger] bytes[i] == rest[i]
            &&& forall|i: int| rest.len() <= i < bytes.len() ==> #[trigger] bytes[i] == 0
        }),
    decreases bytes.len(),
{
    if bytes.len() > 0 && bytes.last() == 0 {
        let init = bytes.drop_last();
        padding_is_zeros(init);
        let rest = without_padding(init);
        assert forall|i: int| rest.len() <= i < bytes.len() implies #[trigger] bytes[i] == 0 by {
            if i < init.len() {
                assert(init[i] == 0);
            }
        }
        assert forall|i: int| 0 <= i < rest.len() implies #[trigger] bytes[i] == rest[i] by {
            assert(init[i] == rest[i]);
        }
    }
}

/// A memo matches a text exactly if it spells it out.
proof fn matching_is_spelling(memo: Seq<u8>, expected: Seq<char>)
    ensures
        memo_is(memo, expected) == spells(memo, expected),
{
    let rest = without_padding(memo);
    let bytes = encode_utf8(expected);
    padding_is_zeros(memo);
    encode_utf8_valid_utf8(expected);
    encode_utf8_decode_utf8(expected);
    if memo_is(memo, expected) {
        decode_utf8_encode_utf8(rest);
        assert(rest == bytes);
    }
    if spells(memo, expected) {
        if rest.len() < bytes.len() {
            assert(memo[bytes.len() - 1] == bytes.last());
            assert(memo[bytes.len() - 1] == 0);
        }
        if bytes.len() < rest.len() {
            assert(memo[rest.len() - 1] == rest.last());
            assert(memo[rest.len() - 1] == 0);
        }
        assert forall|i: int| 0 <= i < rest.len() implies rest[i] == bytes[i] by {
            assert(memo[i] == rest[i]);
        }
        assert(rest =~= bytes);
    }
}

/// One of some memos matches exactly if one of them spells out the expected text, from its first
/// byte to its last and nothing else.
pub proof fn memos_match_what_they_spell(memos: Seq<Seq<u8>>, expected: Seq<char>)
    ensures
        some_memo_is(memos, expected) <==> exists|i: int|
            0 <= i < memos.len() && spells(#[trigger] memos[i], expected),
{
    assert forall|i: int| 0 <= i < memos.len() implies memo_is(#[trigger] memos[i], expected)
        == spells(memos[i], expected) by {
        matching_is_spelling(memos[i], expected);
    }
    if some_memo_is(memos, expected) {
        let i = choose|i: int| 0 <= i < memos.len() && memo_is(#[trigger] memos[i], expected);
        assert(spells(memos[i], expected));
    }
    if exists|i: int| 0 <= i < memos.len() && spells(#[trigger] memos[i], expected) {
        let i = choose|i: int| 0 <= i < memos.len() && spells(#[trigger] memos[i], expected);
        assert(memo_is(memos[i], expected));
    }
}

/// A memo spells out one text at most.
pub proof fn memos_spell_one_text(memo: Seq<u8>, a: Seq<char>, b: Seq<char>)
    requires
        spells(memo, a),
        spells(memo, b),
    ensures
        a == b,
{
    let (x, y) = (encode_utf8(a), encode_utf8(b));
    if x.len() < y.len() {
        assert(memo[y.len() - 1] == y.last());
        assert(memo[y.len() - 1] == 0);
    }
    if y.len() < x.len() {
        assert(memo[x.len() - 1] == x.last());
        assert(memo[x.len() - 1] == 0);
    }
    assert forall|i: int| 0 <= i < x.len() implies x[i] == y[i] by {
        assert(memo[i] == x[i]);
    }
    assert(x =~= y);
    encode_utf8_decode_utf8(a);
    encode_utf8_decode_utf8(b);
}

/// A transaction carries the expected memo exactly if the key and the transaction parse, by the
/// rules at the height where it was mined, and one of the memos that the key can read spells out
/// the expected text.
pub proof fn transactions_carry_what_their_memos_spell(
    network: Network,
    ufvk: Seq<char>,
    raw_tx: Seq<u8>,
    height: u64,
    expected: Seq<char>,
)
    ensures
        ({
            let mined = (height % 0x1_0000_0000) as u32;
            memo_found(network, ufvk, raw_tx, height, expected) <==> {
                &&& decoded_ufvk(network, ufvk) matches Some(key)
                &&& parsed_transaction(raw_tx, branch_at(network, mined)) matches Some(tx)
                &&& exists|i: int|
                    0 <= i < decrypted_memos(network, mined, tx, key).len() && spells(
                        #[trigger] decrypted_memos(network, mined, tx, key)[i],
                        expected,
                    )
            }
        }),
{
    let mined = (height % 0x1_0000_0000) as u32;
    if let (Some(key), Some(tx)) = (
        decoded_ufvk(network, ufvk),
        parsed_transaction(raw_tx, branch_at(network, mined)),
    ) {
        memos_match_what_they_spell(decrypted_memos(network, mined, tx, key), expected);
    }
}

/// A transaction with a single memo that the key can read carries one text at most.
pub proof fn single_memos_match_one_text(
    network: Network,
    ufvk: Seq<char>,
    raw_tx: Seq<u8>,
    height: u64,
    a: Seq<char>,
    b: Seq<char>,
)
    requires
        decoded_ufvk(network, ufvk) matches Some(key) && parsed_transaction(
            raw_tx,
            branch_at(network, (height % 0x1_0000_0000) as u32),
        ) matches Some(tx) && decrypted_memos(
            network,
            (height % 0x1_0000_0000) as u32,
            tx,
            key,
        ).len() == 1,
        memo_found(network, ufvk, raw_tx, height, a),
        memo_found(network, ufvk, raw_tx, height, b),
    ensures
        a == b,
{
    let mined = (height % 0x1_0000_0000) as u32;
    let key = decoded_ufvk(network, ufvk)->0;
    let tx = parsed_transaction(raw_tx, branch_at(network, mined))->0;
    let memos = decrypted_memos(network, mined, tx, key);
    transactions_carry_what_their_memos_spell(network, ufvk, raw_tx, height, a);
    transactions_carry_what_their_memos_spell(network, ufvk, raw_tx, height, b);
    let i = choose|i: int| 0 <= i < memos.len() && spells(#[trigger] memos[i], a);
    let j = choose|j: int| 0 <= j < memos.len() && spells(#[trigger] memos[j], b);
    assert(i == 0 && j == 0);
    memos_spell_one_text(memos[0], a, b);
}

} // verus!
