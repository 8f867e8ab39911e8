//! The bootloader engine: owns the flash capabilities and the bank registries, runs
//! the update flow when one is requested, then always runs the boot decision.
use vstd::prelude::*;
use crate::bank::{disjoint, registry_disjoint, registry_wf, Bank};
use crate::boot::{decision, registry_addressable, select_boot_bank, BootMetrics, Outcome};
use crate::flash::Flash;
use crate::image::validates;
use crate::flash::{partly_erased, partly_written};
use crate::image::MARKER_LEN;
use crate::update::{
    after_body, copy_image, image_len, image_marker, is_first_valid, only_bank_changed, CopyState,
};

verus! {

/// The bootloader engine over an MCU flash `M` and an optional external flash `E`.
pub struct Bootloader<M: Flash, E: Flash> {
    mcu_flash: M,
    external_flash: Option<E>,
    mcu_banks: Vec<Bank>,
    external_banks: Vec<Bank>,
    destination: usize,
    recovery_enabled: bool,
    greeting: &'static str,
    boot_metrics: BootMetrics,
}

/// Whether `banks` holds at most one golden bank, no two banks overlap, and every
/// bank is addressable.
pub open spec fn registry_ok(banks: Seq<Bank>) -> bool {
    registry_wf(banks) && registry_disjoint(banks) && registry_addressable(banks)
}

/// Checks that `banks` holds at most one golden bank, that no two banks overlap, and
/// that every bank is addressable.
pub fn check_registry(banks: &Vec<Bank>) -> (r: bool)
    ensures
        r == registry_ok(banks@),
{
    let mut i: usize = 0;
    while i < banks.len()
        invariant
            i <= banks@.len(),
            registry_ok(banks@.subrange(0, i as int)),
        decreases banks@.len() - i,
    {
        let b: Bank = banks[i];
        if b.start > usize::MAX - b.size {
            assert(banks@[i as int].end() > usize::MAX);
            return false;
        }
        let mut j: usize = 0;
        while j < i
            invariant
                j <= i < banks@.len(),
                registry_ok(banks@.subrange(0, i as int)),
                banks@[i as int].end() <= usize::MAX,
                b == banks@[i as int],
                forall|k: int|
                    0 <= k < j ==> disjoint(#[trigger] banks@[k], banks@[i as int]) && !(
                    banks@[k].is_golden && banks@[i as int].is_golden),
            decreases i - j,
        {
            let c = &banks[j];
            assert(banks@.subrange(0, i as int)[j as int] == banks@[j as int]);
            assert(banks@.subrange(0, i as int)[j as int].end() <= usize::MAX);
            if c.is_golden && b.is_golden {
                assert(banks@[j as int].is_golden && banks@[i as int].is_golden && j != i);
                assert(!registry_wf(banks@));
                return false;
            }
            if !(c.start + c.size <= b.start || b.start + b.size <= c.start) {
                assert(!disjoint(banks@[j as int], banks@[i as int]));
                assert(!registry_disjoint(banks@));
                return false;
            }
            j = j + 1;
        }
        i = i + 1;
        let ghost prefix = banks@.subrange(0, i as int);
        assert forall|p: int, q: int| 0 <= p < q < prefix.len() implies disjoint(
            #[trigger] prefix[p],
            #[trigger] prefix[q],
        ) by {
            assert(banks@.subrange(0, i - 1)[p] == banks@[p]);
            if q < i - 1 {
                assert(banks@.subrange(0, i - 1)[q] == banks@[q]);
            }
        }
        assert forall|p: int, q: int|
            0 <= p < prefix.len() && 0 <= q < prefix.len() && prefix[p].is_golden
                && prefix[q].is_golden implies p == q by {
            if p < i - 1 {
                assert(banks@.subrange(0, i - 1)[p] == banks@[p]);
            }
            if q < i - 1 {
                assert(banks@.subrange(0, i - 1)[q] == banks@[q]);
            }
        }
        assert forall|p: int| 0 <= p < prefix.len() implies #[trigger] prefix[p].end()
            <= usize::MAX by {
            if p < i - 1 {
                assert(banks@.subrange(0, i - 1)[p] == banks@[p]);
            }
        }
    }
    assert(banks@.subrange(0, i as int) =~= banks@);
    true
}

/// Initial metrics, before any decision.
pub open spec fn fresh_metrics() -> BootMetrics {
    BootMetrics {
        selected_bank: None,
        elapsed_ms: 0,
        retries: 0,
        used_golden: false,
        outcome: Outcome::Recovery,
    }
}

impl<M: Flash, E: Flash> Bootloader<M, E> {
    /// Well-formedness: valid registries and a destination inside the MCU registry.
    pub closed spec fn wf(&self) -> bool {
        registry_ok(self.mcu_banks@) && registry_ok(self.external_banks@) && self.destination
            < self.mcu_banks@.len()
    }

    /// Contents of the MCU flash.
    pub closed spec fn mcu_memory(&self) -> Seq<u8> {
        self.mcu_flash.memory()
    }

    /// Contents of the external flash, if one is attached.
    pub closed spec fn external_memory(&self) -> Option<Seq<u8>> {
        match self.external_flash {
            Some(f) => Some(f.memory()),
            None => None,
        }
    }

    /// The MCU bank registry, in priority order.
    pub closed spec fn banks(&self) -> Seq<Bank> {
        self.mcu_banks@
    }

    /// The external bank registry, in priority order.
    pub closed spec fn external_bank_list(&self) -> Seq<Bank> {
        self.external_banks@
    }

    /// The MCU bank that updates are copied into.
    pub closed spec fn destination_bank(&self) -> Bank {
        self.mcu_banks@[self.destination as int]
    }

    /// Whether the golden bank may be used.
    pub closed spec fn recovery(&self) -> bool {
        self.recovery_enabled
    }

    /// Greeting shown on the diagnostic console.
    pub closed spec fn greeting_text(&self) -> Seq<char> {
        self.greeting@
    }

    /// Metrics of the last decision.
    pub closed spec fn metrics(&self) -> BootMetrics {
        self.boot_metrics
    }

    /// Builds an engine from its capabilities and registries. `None` when a registry
    /// holds two golden banks or a bank that is not addressable, or when `destination`
    /// is not a position of the MCU registry.
    pub fn new(
        mcu_flash: M,
        external_flash: Option<E>,
        mcu_banks: Vec<Bank>,
        external_banks: Vec<Bank>,
        destination: usize,
        recovery_enabled: bool,
        greeting: &'static str,
    ) -> (r: Option<Self>)
        ensures
            r is Some <==> registry_ok(mcu_banks@) && registry_ok(external_banks@) && destination
                < mcu_banks@.len(),
            r matches Some(b) ==> {
                &&& b.wf()
                &&& b.mcu_memory() == mcu_flash.memory()
                &&& b.banks() == mcu_banks@
                &&& b.external_bank_list() == external_banks@
                &&& b.destination_bank() == mcu_banks@[destination as int]
                &&& b.recovery() == recovery_enabled
                &&& b.metrics() == fresh_metrics()
                &&& b.greeting_text() == greeting@
                &&& b.external_memory() == match external_flash {
                    Some(f) => Some(f.memory()),
                    None => None::<Seq<u8>>,
                }
            },
    {
        if !check_registry(&mcu_banks) || !check_registry(&external_banks) || destination
            >= mcu_banks.len() {
            return None;
        }
        Some(Bootloader {
            mcu_flash,
            external_flash,
            mcu_banks,
            external_banks,
            destination,
            recovery_enabled,
            greeting,
            boot_metrics: BootMetrics {
                selected_bank: None,
                elapsed_ms: 0,
                retries: 0,
                used_golden: false,
                outcome: Outcome::Recovery,
            },
        })
    }

    /// Runs one boot: the update flow first when `update_requested` and an external
    /// flash is attached, then the boot decision, whose metrics are recorded and
    /// returned. A failed update counts as one retry; a committed one leaves the
    /// destination holding the first valid external image.
    #[verifier::rlimit(100)]
    pub fn run(&mut self, update_requested: bool) -> (r: BootMetrics)
        requires
            old(self).wf(),
        ensures
            final(self).wf(),
            final(self).banks() == old(self).banks(),
            final(self).external_bank_list() == old(self).external_bank_list(),
            final(self).destination_bank() == old(self).destination_bank(),
            final(self).recovery() == old(self).recovery(),
            final(self).external_memory() == old(self).external_memory(),
            final(self).metrics() == r,
            final(self).greeting_text() == old(self).greeting_text(),
            only_bank_changed(
                old(self).mcu_memory(),
                final(self).mcu_memory(),
                old(self).destination_bank(),
            ),
            !update_requested || old(self).external_memory() is None ==> final(self).mcu_memory()
                == old(self).mcu_memory() && r.retries == 0,
            r.retries <= 1,
            r.selected_bank == decision(
                final(self).mcu_memory(),
                final(self).banks(),
                final(self).recovery(),
            ).selected_bank,
            r.outcome == decision(
                final(self).mcu_memory(),
                final(self).banks(),
                final(self).recovery(),
            ).outcome,
            r.used_golden == decision(
                final(self).mcu_memory(),
                final(self).banks(),
                final(self).recovery(),
            ).used_golden,
            r == (BootMetrics {
                retries: r.retries,
                ..decision(final(self).mcu_memory(), final(self).banks(), final(self).recovery())
            }),
            r.retries == 1 ==> update_requested && old(self).external_memory() is Some && (!validates(
                final(self).mcu_memory(),
                old(self).destination_bank(),
            ) || partly_erased(
                old(self).mcu_memory(),
                final(self).mcu_memory(),
                old(self).destination_bank().start as int,
                old(self).destination_bank().size as int,
            )),
            update_requested && old(self).external_memory() is Some && r.retries == 0 && (exists|
                i: int,
            |
                0 <= i < old(self).external_bank_list().len() && validates(
                    old(self).external_memory()->0,
                    #[trigger] old(self).external_bank_list()[i],
                )) ==> validates(final(self).mcu_memory(), old(self).destination_bank())
                && exists|i: int|
                is_first_valid(old(self).external_memory()->0, old(self).external_bank_list(), i)
                    && partly_written(
                    after_body(
                        old(self).mcu_memory(),
                        old(self).destination_bank(),
                        old(self).external_memory()->0,
                        #[trigger] old(self).external_bank_list()[i],
                    ),
                    final(self).mcu_memory(),
                    old(self).destination_bank().start + image_len(
                        old(self).external_memory()->0,
                        old(self).external_bank_list()[i],
                    ) - MARKER_LEN,
                    image_marker(old(self).external_memory()->0, old(self).external_bank_list()[i]),
                ),
    {
        let mut retries: u32 = 0;
        if update_requested {
            if let Some(external) = &self.external_flash {
                let dest = self.mcu_banks[self.destination];
                proof {
                    assert(self.mcu_banks@[self.destination as int].end() <= usize::MAX);
                }
                let state = copy_image(external, &self.external_banks, &mut self.mcu_flash, &dest);
                if state == CopyState::Failed {
                    retries = 1;
                }
            }
        }
        let mut metrics = select_boot_bank(&self.mcu_flash, &self.mcu_banks, self.recovery_enabled);
        metrics.retries = retries;
        self.boot_metrics = metrics;
        metrics
    }

    /// Metrics of the last decision.
    pub fn boot_metrics(&self) -> (r: BootMetrics)
        ensures
            r == self.metrics(),
    {
        self.boot_metrics
    }

    /// The MCU flash, for reading.
    pub fn mcu_flash(&self) -> (r: &M)
        ensures
            r.memory() == self.mcu_memory(),
    {
        &self.mcu_flash
    }

    /// Greeting shown on the diagnostic console.
    pub fn greeting(&self) -> (r: &'static str)
        ensures
            r@ == self.greeting_text(),
    {
        self.greeting
    }
}

} // verus!
