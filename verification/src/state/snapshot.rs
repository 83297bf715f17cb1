//! What a snapshot of the exchange is built from.

use vstd::prelude::*;

use crate::types::PerpetualId;

verus! {

/// Number of perpetual contracts that the first bank of a position bitmap
/// covers; the other banks cover 256 each.
pub const FIRST_BANK_BITS: u32 = 253;

/// 256 bits of a position bitmap, as two halves of 128 bits.
#[derive(Clone, Copy, Debug, PartialEq, Eq, Structural)]
pub struct Bank {
    pub high: u128,
    pub low: u128,
}

/// The perpetual contracts in which an account has positions, as the
/// exchange stores them: four banks of bits. Bit `i` of the first bank
/// stands for the contract `i`, of the second for `253 + i`, of the third for
/// `509 + i`, of the fourth for `765 + i`.
#[derive(Clone, Copy, Debug, PartialEq, Eq, Structural)]
pub struct PositionBitMap {
    pub bank1: Bank,
    pub bank2: Bank,
    pub bank3: Bank,
    pub bank4: Bank,
}

impl Bank {
    /// Whether bit `i` of the bank is set, counting from the lowest.
    pub open spec fn spec_bit(&self, i: u32) -> bool {
        if i < 128 {
            (self.low >> (i as u128)) & 1u128 == 1u128
        } else if i < 256 {
            (self.high >> ((i - 128) as u128)) & 1u128 == 1u128
        } else {
            false
        }
    }

    /// Whether bit `i` of the bank is set, counting from the lowest.
    #[verifier::when_used_as_spec(spec_bit)]
    pub fn bit(&self, i: u32) -> (r: bool)
        ensures
            r == self.spec_bit(i),
    {
        if i < 128 {
            (self.low >> (i as u128)) & 1u128 == 1u128
        } else if i < 256 {
            (self.high >> ((i - 128) as u128)) & 1u128 == 1u128
        } else {
            false
        }
    }

    /// Whether no bit of the bank is set.
    pub fn is_zero(&self) -> (r: bool)
        ensures
            r == (self.high == 0 && self.low == 0),
    {
        self.high == 0 && self.low == 0
    }
}

/// The perpetual contracts that the first `n` bits of a bank stand for,
/// where bit 0 stands for the contract `offset`, in ascending order.
pub open spec fn bank_ids(bank: Bank, offset: u32, n: int) -> Seq<PerpetualId>
    decreases n,
{
    if n <= 0 {
        Seq::empty()
    } else if bank.spec_bit((n - 1) as u32) {
        bank_ids(bank, offset, n - 1).push((offset + n - 1) as u32)
    } else {
        bank_ids(bank, offset, n - 1)
    }
}

/// The perpetual contracts that a position bitmap stands for, in ascending
/// order.
pub open spec fn bitmap_ids(bitmap: PositionBitMap) -> Seq<PerpetualId> {
    bank_ids(bitmap.bank1, 0, 253) + bank_ids(bitmap.bank2, 253, 256) + bank_ids(
        bitmap.bank3,
        509,
        256,
    ) + bank_ids(bitmap.bank4, 765, 256)
}

/// Every contract that a bank stands for lies in the bank's range, and the
/// bank's bit for it is set.
pub proof fn lemma_bank_ids(bank: Bank, offset: u32, n: int)
    requires
        0 <= n <= 256,
        offset + n <= u32::MAX,
    ensures
        forall|k: int|
            0 <= k < bank_ids(bank, offset, n).len() ==> {
                let id = #[trigger] bank_ids(bank, offset, n)[k];
                offset <= id < offset + n && bank.spec_bit((id - offset) as u32)
            },
        forall|i: u32|
            i < n && #[trigger] bank.spec_bit(i) ==> bank_ids(bank, offset, n).contains(
                (offset + i) as u32,
            ),
    decreases n,
{
    if n > 0 {
        lemma_bank_ids(bank, offset, n - 1);
        let before = bank_ids(bank, offset, n - 1);
        let now = bank_ids(bank, offset, n);
        assert forall|i: u32| i < n && #[trigger] bank.spec_bit(i) implies now.contains(
            (offset + i) as u32,
        ) by {
            if i < n - 1 {
                let k = choose|k: int| 0 <= k < before.len() && before[k] == (offset + i) as u32;
                assert(now[k] == (offset + i) as u32);
            } else {
                assert(now[now.len() - 1] == (offset + i) as u32);
            }
        }
    }
}

/// Adds the perpetual contracts that the first `count` bits of a bank stand
/// for.
fn push_bank(bank: Bank, offset: u32, count: u32, out: &mut Vec<PerpetualId>)
    requires
        count <= 256,
        offset <= 1000,
    ensures
        final(out)@ == old(out)@ + bank_ids(bank, offset, count as int),
{
    let ghost start = out@;
    if bank.is_zero() {
        proof {
            lemma_zero_bank(bank, offset, count as int);
            assert(start + Seq::<PerpetualId>::empty() =~= start);
        }
        return ;
    }
    let mut i: u32 = 0;
    assert(start + bank_ids(bank, offset, 0) =~= start);
    while i < count
        invariant
            0 <= i <= count <= 256,
            offset <= 1000,
            out@ == start + bank_ids(bank, offset, i as int),
        decreases count - i,
    {
        if bank.bit(i) {
            out.push(offset + i);
            assert(out@ =~= start + bank_ids(bank, offset, i + 1));
        }
        i = i + 1;
    }
}

/// A bank without set bits stands for no contract.
proof fn lemma_zero_bank(bank: Bank, offset: u32, n: int)
    requires
        bank.high == 0,
        bank.low == 0,
        0 <= n <= 256,
    ensures
        bank_ids(bank, offset, n) == Seq::<PerpetualId>::empty(),
    decreases n,
{
    if n > 0 {
        lemma_zero_bank(bank, offset, n - 1);
        let i = (n - 1) as u32;
        if i < 128 {
            let s = i as u128;
            assert((0u128 >> s) & 1u128 == 0u128) by (bit_vector);
        } else {
            let s = (i - 128) as u128;
            assert((0u128 >> s) & 1u128 == 0u128) by (bit_vector);
        }
    }
}

/// Returns IDs of perpetuals with positions according to the bitmap, in
/// ascending order.
pub fn perpetuals_with_position(bitmap: &PositionBitMap) -> (r: Vec<PerpetualId>)
    ensures
        r@ == bitmap_ids(*bitmap),
{
    let mut out: Vec<PerpetualId> = Vec::new();
    push_bank(bitmap.bank1, 0, FIRST_BANK_BITS, &mut out);
    push_bank(bitmap.bank2, 253, 256, &mut out);
    push_bank(bitmap.bank3, 509, 256, &mut out);
    push_bank(bitmap.bank4, 765, 256, &mut out);
    assert(out@ =~= bitmap_ids(*bitmap));
    out
}

impl PositionBitMap {
    /// Whether the bitmap says that the account has a position in the
    /// perpetual contract.
    pub open spec fn spec_has_position(&self, id: PerpetualId) -> bool {
        if id < 253 {
            self.bank1.spec_bit(id)
        } else if id < 509 {
            self.bank2.spec_bit((id - 253) as u32)
        } else if id < 765 {
            self.bank3.spec_bit((id - 509) as u32)
        } else if id < 1021 {
            self.bank4.spec_bit((id - 765) as u32)
        } else {
            false
        }
    }

    /// Whether the bitmap says that the account has a position in the
    /// perpetual contract.
    #[verifier::when_used_as_spec(spec_has_position)]
    pub fn has_position(&self, id: PerpetualId) -> (r: bool)
        ensures
            r == self.spec_has_position(id),
    {
        if id < 253 {
            self.bank1.bit(id)
        } else if id < 509 {
            self.bank2.bit(id - 253)
        } else if id < 765 {
            self.bank3.bit(id - 509)
        } else if id < 1021 {
            self.bank4.bit(id - 765)
        } else {
            false
        }
    }

    /// Whether the bitmap says that the account has a position in one of
    /// the perpetual contracts.
    pub fn has_position_in(&self, perpetuals: &Vec<PerpetualId>) -> (r: bool)
        ensures
            r == exists|i: int|
                0 <= i < perpetuals@.len() && self.spec_has_position(#[trigger] perpetuals@[i]),
    {
        let mut i: usize = 0;
        while i < perpetuals.len()
            invariant
                0 <= i <= perpetuals@.len(),
                forall|j: int| 0 <= j < i ==> !self.spec_has_position(#[trigger] perpetuals@[j]),
            decreases perpetuals@.len() - i,
        {
            if self.has_position(perpetuals[i]) {
                return true;
            }
            i = i + 1;
        }
        false
    }
}

/// The perpetual contracts that a bitmap stands for are those in which it
/// says the account has a position.
pub proof fn lemma_bitmap_ids(bitmap: PositionBitMap, id: PerpetualId)
    ensures
        bitmap_ids(bitmap).contains(id) <==> bitmap.spec_has_position(id),
{
    let a = bank_ids(bitmap.bank1, 0, 253);
    let b = bank_ids(bitmap.bank2, 253, 256);
    let c = bank_ids(bitmap.bank3, 509, 256);
    let d = bank_ids(bitmap.bank4, 765, 256);
    lemma_bank_ids(bitmap.bank1, 0, 253);
    lemma_bank_ids(bitmap.bank2, 253, 256);
    lemma_bank_ids(bitmap.bank3, 509, 256);
    lemma_bank_ids(bitmap.bank4, 765, 256);
    let all = a + b + c + d;
    if all.contains(id) {
        let k = choose|k: int| 0 <= k < all.len() && all[k] == id;
        if k < a.len() {
            assert(a[k] == id);
        } else if k < a.len() + b.len() {
            assert(b[k - a.len()] == id);
        } else if k < a.len() + b.len() + c.len() {
            assert(c[k - a.len() - b.len()] == id);
        } else {
            assert(d[k - a.len() - b.len() - c.len()] == id);
        }
    }
    if bitmap.spec_has_position(id) {
        if id < 253 {
            assert(bitmap.bank1.spec_bit(id));
            assert(a.contains((0 + id) as u32));
            let k = choose|k: int| 0 <= k < a.len() && a[k] == id;
            assert(all[k] == id);
        } else if id < 509 {
            let i = (id - 253) as u32;
            assert(bitmap.bank2.spec_bit(i));
            assert(b.contains((253 + i) as u32));
            let k = choose|k: int| 0 <= k < b.len() && b[k] == id;
            assert(all[a.len() + k] == id);
        } else if id < 765 {
            let i = (id - 509) as u32;
            assert(bitmap.bank3.spec_bit(i));
            assert(c.contains((509 + i) as u32));
            let k = choose|k: int| 0 <= k < c.len() && c[k] == id;
            assert(all[a.len() + b.len() + k] == id);
        } else {
            let i = (id - 765) as u32;
            assert(bitmap.bank4.spec_bit(i));
            assert(d.contains((765 + i) as u32));
            let k = choose|k: int| 0 <= k < d.len() && d[k] == id;
            assert(all[a.len() + b.len() + c.len() + k] == id);
        }
    }
}

} // verus!
