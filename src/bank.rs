//! Banks and the fixed, ordered registries that hold them.
use vstd::prelude::*;

verus! {

/// Where a bank physically lives.
#[derive(Copy, Clone, Debug, PartialEq, Eq, Structural)]
pub enum Location {
    Internal,
    External,
}

/// A fixed address range in flash that may hold a firmware image.
#[derive(Copy, Clone, Debug, PartialEq, Eq, Structural)]
pub struct Bank {
    /// Identifier of the bank, as reported in boot metrics.
    pub index: u8,
    /// First address of the bank within its flash.
    pub start: usize,
    /// Capacity of the bank in bytes.
    pub size: usize,
    pub location: Location,
    pub bootable: bool,
    pub is_golden: bool,
}

impl Bank {
    /// One past the last address of the bank.
    pub open spec fn end(self) -> int {
        self.start + self.size
    }

    /// Whether the bank lies inside a memory of `len` bytes.
    pub open spec fn fits(self, len: nat) -> bool {
        self.end() <= len
    }
}

/// A registry holds at most one golden bank.
pub open spec fn registry_wf(banks: Seq<Bank>) -> bool {
    forall|i: int, j: int|
        0 <= i < banks.len() && 0 <= j < banks.len() && banks[i].is_golden && banks[j].is_golden
            ==> i == j
}

/// Two banks share no address.
pub open spec fn disjoint(a: Bank, b: Bank) -> bool {
    a.end() <= b.start || b.end() <= a.start
}

/// No two banks of a registry overlap.
pub open spec fn registry_disjoint(banks: Seq<Bank>) -> bool {
    forall|i: int, j: int|
        0 <= i < j < banks.len() ==> disjoint(#[trigger] banks[i], #[trigger] banks[j])
}

/// Positions, in registry order, of the banks of `banks[..n]` that are not golden.
pub open spec fn ordinary_upto(banks: Seq<Bank>, n: nat) -> Seq<int>
    decreases n,
{
    if n == 0 {
        seq![]
    } else {
        let prev = ordinary_upto(banks, (n - 1) as nat);
        if banks[n - 1].is_golden {
            prev
        } else {
            prev.push(n - 1)
        }
    }
}

/// Positions, in registry order, of the banks that are not golden.
pub open spec fn ordinary(banks: Seq<Bank>) -> Seq<int> {
    ordinary_upto(banks, banks.len())
}

/// Position of the golden bank, if the registry has one.
pub open spec fn golden(banks: Seq<Bank>) -> Option<int> {
    if exists|i: int| 0 <= i < banks.len() && banks[i].is_golden {
        Some(choose|i: int| 0 <= i < banks.len() && banks[i].is_golden)
    } else {
        None
    }
}

/// Properties of the positions listed by `ordinary_upto`.
pub proof fn lemma_ordinary_upto(banks: Seq<Bank>, n: nat)
    requires
        n <= banks.len(),
    ensures
        forall|k: int|
            0 <= k < ordinary_upto(banks, n).len() ==> 0 <= #[trigger] ordinary_upto(banks, n)[k] < n
                && !banks[ordinary_upto(banks, n)[k]].is_golden,
        forall|i: int|
            0 <= i < n && !banks[i].is_golden ==> #[trigger] ordinary_upto(banks, n).contains(i),
        forall|k1: int, k2: int|
            0 <= k1 < k2 < ordinary_upto(banks, n).len() ==> ordinary_upto(banks, n)[k1]
                < ordinary_upto(banks, n)[k2],
    decreases n,
{
    if n > 0 {
        lemma_ordinary_upto(banks, (n - 1) as nat);
        let prev = ordinary_upto(banks, (n - 1) as nat);
        if !banks[n - 1].is_golden {
            assert forall|i: int| 0 <= i < n && !banks[i].is_golden implies
                #[trigger] ordinary_upto(banks, n).contains(i) by {
                if i < n - 1 {
                    assert(prev.contains(i));
                    let k = choose|k: int| 0 <= k < prev.len() && prev[k] == i;
                    assert(ordinary_upto(banks, n)[k] == i);
                } else {
                    assert(ordinary_upto(banks, n)[prev.len() as int] == i);
                }
            }
        } else {
            assert forall|i: int| 0 <= i < n && !banks[i].is_golden implies
                #[trigger] ordinary_upto(banks, n).contains(i) by {
                assert(prev.contains(i));
            }
        }
    }
}

} // verus!
