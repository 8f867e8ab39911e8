//! The boot decision: scan the MCU banks in registry order, fall back to the golden
//! bank when recovery is enabled, else enter recovery.
use vstd::prelude::*;
use crate::bank::{golden, ordinary, ordinary_upto, lemma_ordinary_upto, registry_wf, Bank};
use crate::flash::Flash;
use crate::image::{lemma_validates_frame, validate_image, validates};

verus! {

/// How a boot decision ended.
#[derive(Copy, Clone, Debug, PartialEq, Eq, Structural)]
pub enum Outcome {
    /// An image was selected and control passes to it.
    Booted,
    /// No image validated: the device halts with a diagnostic.
    Recovery,
}

/// Record of the last boot decision.
#[derive(Copy, Clone, Debug, PartialEq, Eq, Structural)]
pub struct BootMetrics {
    /// Identifier of the selected bank.
    pub selected_bank: Option<u8>,
    /// Milliseconds the decision took, as measured by the time source.
    pub elapsed_ms: u32,
    /// Failed update attempts during this boot.
    pub retries: u32,
    /// Whether the golden bank was selected.
    pub used_golden: bool,
    pub outcome: Outcome,
}

/// Every bank is addressable.
pub open spec fn registry_addressable(banks: Seq<Bank>) -> bool {
    forall|i: int| 0 <= i < banks.len() ==> #[trigger] banks[i].end() <= usize::MAX
}

/// Positions of the MCU banks in the order they are evaluated: ordinary banks in
/// registry order, then the golden bank if recovery is enabled.
pub open spec fn candidates(banks: Seq<Bank>, recovery_enabled: bool) -> Seq<int> {
    match golden(banks) {
        Some(g) => if recovery_enabled {
            ordinary(banks).push(g)
        } else {
            ordinary(banks)
        },
        None => ordinary(banks),
    }
}

/// The first of `cands[k..]` whose bank validates in `mem`.
pub open spec fn first_valid_from(mem: Seq<u8>, banks: Seq<Bank>, cands: Seq<int>, k: int) -> Option<
    int,
>
    decreases cands.len() - k,
{
    if k < 0 || k >= cands.len() {
        None
    } else if validates(mem, banks[cands[k]]) {
        Some(cands[k])
    } else {
        first_valid_from(mem, banks, cands, k + 1)
    }
}

/// Position of the bank that the decision selects, if any.
pub open spec fn boot_target(mem: Seq<u8>, banks: Seq<Bank>, recovery_enabled: bool) -> Option<int> {
    first_valid_from(mem, banks, candidates(banks, recovery_enabled), 0)
}

/// Metrics of the decision over `mem`, before any time or retry is recorded.
pub open spec fn decision(mem: Seq<u8>, banks: Seq<Bank>, recovery_enabled: bool) -> BootMetrics {
    match boot_target(mem, banks, recovery_enabled) {
        Some(p) => BootMetrics {
            selected_bank: Some(banks[p].index),
            elapsed_ms: 0,
            retries: 0,
            used_golden: banks[p].is_golden,
            outcome: Outcome::Booted,
        },
        None => BootMetrics {
            selected_bank: None,
            elapsed_ms: 0,
            retries: 0,
            used_golden: false,
            outcome: Outcome::Recovery,
        },
    }
}

/// What `first_valid_from` picks: the first candidate from `k` on that validates.
pub proof fn lemma_first_valid_from(mem: Seq<u8>, banks: Seq<Bank>, cands: Seq<int>, k: int)
    requires
        0 <= k <= cands.len(),
    ensures
        first_valid_from(mem, banks, cands, k) is None ==> forall|i: int|
            k <= i < cands.len() ==> !validates(mem, banks[#[trigger] cands[i]]),
        first_valid_from(mem, banks, cands, k) is Some ==> exists|j: int|
            k <= j < cands.len() && cands[j] == first_valid_from(mem, banks, cands, k)->0
                && validates(mem, banks[cands[j]]) && forall|i: int|
                k <= i < j ==> !validates(mem, banks[#[trigger] cands[i]]),
    decreases cands.len() - k,
{
    if k < cands.len() && !validates(mem, banks[cands[k]]) {
        lemma_first_valid_from(mem, banks, cands, k + 1);
        if first_valid_from(mem, banks, cands, k + 1) is Some {
            let j = choose|j: int|
                k + 1 <= j < cands.len() && cands[j] == first_valid_from(mem, banks, cands, k + 1)->0
                    && validates(mem, banks[cands[j]]) && forall|i: int|
                    k + 1 <= i < j ==> !validates(mem, banks[#[trigger] cands[i]]);
            assert(forall|i: int| k <= i < j ==> !validates(mem, banks[#[trigger] cands[i]]));
        }
    }
}

/// Every candidate is a position in the registry.
pub proof fn lemma_candidates_in_range(banks: Seq<Bank>, recovery_enabled: bool)
    ensures
        forall|j: int|
            0 <= j < candidates(banks, recovery_enabled).len() ==> 0 <= #[trigger] candidates(
                banks,
                recovery_enabled,
            )[j] < banks.len(),
{
    lemma_ordinary_upto(banks, banks.len());
    if golden(banks) is Some {
        let g = choose|i: int| 0 <= i < banks.len() && banks[i].is_golden;
        assert(golden(banks) == Some(g));
    }
}

/// Positions of the MCU banks in evaluation order (see `candidates`).
pub fn boot_candidates(banks: &Vec<Bank>, recovery_enabled: bool) -> (r: Vec<usize>)
    requires
        registry_wf(banks@),
    ensures
        r@.len() == candidates(banks@, recovery_enabled).len(),
        forall|k: int| 0 <= k < r@.len() ==> r@[k] as int == candidates(banks@, recovery_enabled)[k],
{
    let mut out: Vec<usize> = Vec::new();
    let mut gold: Option<usize> = None;
    let mut i: usize = 0;
    while i < banks.len()
        invariant
            i <= banks@.len(),
            out@.len() == ordinary_upto(banks@, i as nat).len(),
            forall|k: int| 0 <= k < out@.len() ==> out@[k] as int == ordinary_upto(banks@, i as nat)[k],
            gold matches Some(g) ==> g < i && banks@[g as int].is_golden,
            gold is None ==> forall|j: int| 0 <= j < i ==> !banks@[j].is_golden,
        decreases banks@.len() - i,
    {
        if banks[i].is_golden {
            gold = Some(i);
        } else {
            out.push(i);
        }
        i = i + 1;
    }
    proof {
        match gold {
            Some(g) => {
                assert(golden(banks@) == Some(g as int));
            },
            None => {
                assert(golden(banks@) is None);
            },
        }
    }
    if recovery_enabled {
        if let Some(g) = gold {
            out.push(g);
        }
    }
    out
}

/// Selects the bank to boot from `flash`: the first candidate whose image validates,
/// or recovery when none does. The flash is only read.
pub fn select_boot_bank<F: Flash>(flash: &F, banks: &Vec<Bank>, recovery_enabled: bool) -> (r:
    BootMetrics)
    requires
        registry_wf(banks@),
        registry_addressable(banks@),
    ensures
        r == decision(flash.memory(), banks@, recovery_enabled),
{
    let ghost mem = flash.memory();
    let cands = boot_candidates(banks, recovery_enabled);
    let ghost cs = candidates(banks@, recovery_enabled);
    proof {
        lemma_candidates_in_range(banks@, recovery_enabled);
    }
    let mut k: usize = 0;
    while k < cands.len()
        invariant
            cs == candidates(banks@, recovery_enabled),
            k <= cands@.len() == cs.len(),
            forall|j: int| 0 <= j < cands@.len() ==> cands@[j] as int == cs[j],
            forall|j: int| 0 <= j < cs.len() ==> 0 <= #[trigger] cs[j] < banks@.len(),
            first_valid_from(mem, banks@, cs, 0) == first_valid_from(mem, banks@, cs, k as int),
            registry_addressable(banks@),
            mem == flash.memory(),
        decreases cands@.len() - k,
    {
        let p = cands[k];
        assert(cs[k as int] == p as int);
        let bank = &banks[p];
        assert(banks@[p as int].end() <= usize::MAX);
        let verdict = validate_image(flash, bank);
        assert(verdict is Ok == validates(mem, banks@[cs[k as int]]));
        if verdict.is_ok() {
            assert(first_valid_from(mem, banks@, cs, k as int) == Some(p as int));
            let r = BootMetrics {
                selected_bank: Some(bank.index),
                elapsed_ms: 0,
                retries: 0,
                used_golden: bank.is_golden,
                outcome: Outcome::Booted,
            };
            return r;
        }
        k = k + 1;
    }
    BootMetrics {
        selected_bank: None,
        elapsed_ms: 0,
        retries: 0,
        used_golden: false,
        outcome: Outcome::Recovery,
    }
}

/// Candidates that validate alike in two memories are picked alike.
proof fn lemma_first_valid_agree(
    m1: Seq<u8>,
    m2: Seq<u8>,
    banks: Seq<Bank>,
    cands: Seq<int>,
    k: int,
)
    requires
        0 <= k <= cands.len(),
        forall|j: int| 0 <= j < cands.len() ==> validates(m1, banks[#[trigger] cands[j]]) == validates(m2, banks[cands[j]]),
    ensures
        first_valid_from(m1, banks, cands, k) == first_valid_from(m2, banks, cands, k),
    decreases cands.len() - k,
{
    if k < cands.len() {
        lemma_first_valid_agree(m1, m2, banks, cands, k + 1);
    }
}

/// The decision selects the lowest-positioned ordinary bank whose image validates; it
/// selects the golden bank only when no ordinary bank validates. Selecting only reads
/// the flash (`select_boot_bank` takes it by shared reference), so no bank is modified.
pub proof fn lemma_selects_first_valid(mem: Seq<u8>, banks: Seq<Bank>, recovery_enabled: bool)
    requires
        registry_wf(banks),
    ensures
        boot_target(mem, banks, recovery_enabled) matches Some(p) ==> {
            &&& 0 <= p < banks.len()
            &&& validates(mem, banks[p])
            &&& forall|q: int|
                0 <= q < banks.len() && !banks[q].is_golden && (banks[p].is_golden || q < p)
                    ==> !validates(mem, #[trigger] banks[q])
        },
        (exists|q: int| 0 <= q < banks.len() && !banks[q].is_golden && validates(mem, #[trigger] banks[q]))
            ==> (boot_target(mem, banks, recovery_enabled) matches Some(p) && !banks[p].is_golden),
{
    let cs = candidates(banks, recovery_enabled);
    let ord = ordinary(banks);
    lemma_ordinary_upto(banks, banks.len());
    lemma_candidates_in_range(banks, recovery_enabled);
    lemma_first_valid_from(mem, banks, cs, 0);
    assert(forall|k: int| 0 <= k < ord.len() ==> cs[k] == ord[k]);
    if let Some(g) = golden(banks) {
        assert(banks[g].is_golden);
    }
    if let Some(p) = boot_target(mem, banks, recovery_enabled) {
        let j = choose|j: int|
            0 <= j < cs.len() && cs[j] == p && validates(mem, banks[cs[j]]) && forall|i: int|
                0 <= i < j ==> !validates(mem, banks[#[trigger] cs[i]]);
        assert forall|q: int|
            0 <= q < banks.len() && !banks[q].is_golden && (banks[p].is_golden || q < p) implies
                !validates(mem, #[trigger] banks[q]) by {
            assert(ord.contains(q));
            let kq = choose|kq: int| 0 <= kq < ord.len() && ord[kq] == q;
            if banks[p].is_golden {
                assert(j >= ord.len());
            } else {
                assert(j < ord.len());
                assert(kq < j);
            }
            assert(cs[kq] == q);
        }
    }
    if exists|q: int| 0 <= q < banks.len() && !banks[q].is_golden && validates(mem, #[trigger] banks[q]) {
        let q = choose|q: int| 0 <= q < banks.len() && !banks[q].is_golden && validates(mem, #[trigger] banks[q]);
        assert(ord.contains(q));
        let kq = choose|kq: int| 0 <= kq < ord.len() && ord[kq] == q;
        assert(cs[kq] == q);
    }
}

/// Without recovery the golden bank is never evaluated: it is not a candidate, its
/// contents do not affect the decision, and when no other bank validates the outcome
/// is recovery with no bank selected.
pub proof fn lemma_golden_unused_without_recovery(m1: Seq<u8>, m2: Seq<u8>, banks: Seq<Bank>)
    requires
        registry_wf(banks),
        m1.len() == m2.len(),
        forall|i: int, a: int|
            #![trigger banks[i], m1[a]]
            0 <= i < banks.len() && !banks[i].is_golden && banks[i].start <= a < banks[i].end()
                && 0 <= a < m1.len() ==> m1[a] == m2[a],
    ensures
        golden(banks) matches Some(g) ==> !candidates(banks, false).contains(g),
        decision(m1, banks, false) == decision(m2, banks, false),
        (forall|q: int| 0 <= q < banks.len() && !banks[q].is_golden ==> !validates(m1, #[trigger] banks[q]))
            ==> decision(m1, banks, false).outcome == Outcome::Recovery
            && decision(m1, banks, false).selected_bank is None,
{
    let cs = candidates(banks, false);
    lemma_ordinary_upto(banks, banks.len());
    if let Some(g) = golden(banks) {
        assert(banks[g].is_golden);
    }
    assert forall|j: int| 0 <= j < cs.len() implies validates(m1, banks[#[trigger] cs[j]])
        == validates(m2, banks[cs[j]]) by {
        let b = banks[cs[j]];
        assert forall|a: int| b.start <= a < b.end() && 0 <= a < m1.len() implies #[trigger] m1[a]
            == m2[a] by {
            assert(m1[a] == m2[a]);
        }
        lemma_validates_frame(m1, m2, b);
    }
    lemma_first_valid_agree(m1, m2, banks, cs, 0);
    lemma_selects_first_valid(m1, banks, false);
    if boot_target(m1, banks, false) matches Some(p) {
        lemma_candidates_in_range(banks, false);
        lemma_first_valid_from(m1, banks, cs, 0);
    }
}

/// With recovery enabled the golden bank is evaluated last, wherever it stands in the
/// registry, and is selected only when every ordinary bank has failed validation.
pub proof fn lemma_golden_evaluated_last(mem: Seq<u8>, banks: Seq<Bank>)
    requires
        registry_wf(banks),
    ensures
        golden(banks) matches Some(g) ==> candidates(banks, true) == ordinary(banks).push(g)
            && !ordinary(banks).contains(g),
        (boot_target(mem, banks, true) matches Some(p) && banks[p].is_golden) ==> forall|q: int|
            0 <= q < banks.len() && !banks[q].is_golden ==> !validates(mem, #[trigger] banks[q]),
{
    lemma_ordinary_upto(banks, banks.len());
    lemma_selects_first_valid(mem, banks, true);
    if let Some(g) = golden(banks) {
        assert(banks[g].is_golden);
    }
}

/// The decision depends on the contents of the MCU banks alone: rerun over flash whose
/// banks hold the same bytes, it selects the same bank with the same outcome.
pub proof fn lemma_decision_repeatable(
    m1: Seq<u8>,
    m2: Seq<u8>,
    banks: Seq<Bank>,
    recovery_enabled: bool,
)
    requires
        m1.len() == m2.len(),
        forall|i: int, a: int|
            #![trigger banks[i], m1[a]]
            0 <= i < banks.len() && banks[i].start <= a < banks[i].end() && 0 <= a < m1.len()
                ==> m1[a] == m2[a],
    ensures
        decision(m1, banks, recovery_enabled) == decision(m2, banks, recovery_enabled),
{
    let cs = candidates(banks, recovery_enabled);
    lemma_candidates_in_range(banks, recovery_enabled);
    assert forall|j: int| 0 <= j < cs.len() implies validates(m1, banks[#[trigger] cs[j]])
        == validates(m2, banks[cs[j]]) by {
        let b = banks[cs[j]];
        assert forall|a: int| b.start <= a < b.end() && 0 <= a < m1.len() implies #[trigger] m1[a]
            == m2[a] by {
            assert(m1[a] == m2[a]);
        }
        lemma_validates_frame(m1, m2, b);
    }
    lemma_first_valid_agree(m1, m2, banks, cs, 0);
}

} // verus!
