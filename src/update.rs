//! The update flow: find a valid image in the external banks and copy it into one
//! designated MCU bank, so that an interrupted copy never leaves a bank that passes
//! validation.
use vstd::prelude::*;
use crate::bank::Bank;
use crate::boot::registry_addressable;
use crate::flash::{erased, overwritten, partly_erased, partly_written, Flash, ERASED_BYTE};
use crate::image::{
    image_status, le32, validate_image, validates, COMMIT_MARKER, HEADER_LEN, MAGIC, MARKER_LEN,
};

verus! {

/// States of the copy pipeline.
#[derive(Copy, Clone, Debug, PartialEq, Eq, Structural)]
pub enum CopyState {
    Idle,
    Scanning,
    Verifying,
    Erasing,
    Writing,
    VerifyingWrite,
    Committed,
    Failed,
}

/// `after` differs from `before` at most inside `bank`.
pub open spec fn only_bank_changed(before: Seq<u8>, after: Seq<u8>, bank: Bank) -> bool {
    &&& after.len() == before.len()
    &&& forall|a: int|
        0 <= a < before.len() && !(bank.start <= a < bank.end()) ==> #[trigger] after[a]
            == before[a]
}

/// Bytes of the image held in `bank` of `mem`, header and marker included.
pub open spec fn image_len(mem: Seq<u8>, bank: Bank) -> int {
    HEADER_LEN + image_status(mem, bank)->Ok_0 + MARKER_LEN
}

/// `dest` of `after` starts with a copy of the image held in `source` of `ext`.
pub open spec fn holds_copy(after: Seq<u8>, dest: Bank, ext: Seq<u8>, source: Bank) -> bool {
    let n = image_len(ext, source);
    after.subrange(dest.start as int, dest.start + n) == ext.subrange(
        source.start as int,
        source.start + n,
    )
}

/// The first external bank that validates.
pub open spec fn is_first_valid(ext: Seq<u8>, banks: Seq<Bank>, i: int) -> bool {
    &&& 0 <= i < banks.len()
    &&& validates(ext, banks[i])
    &&& forall|j: int| 0 <= j < i ==> !validates(ext, #[trigger] banks[j])
}

/// A word whose four bytes are all erased reads neither as the magic nor as the
/// commit marker.
proof fn lemma_erased_word(mem: Seq<u8>, at: int)
    requires
        0 <= at,
        at + 4 <= mem.len(),
        forall|i: int| at <= i < at + 4 ==> #[trigger] mem[i] == ERASED_BYTE,
    ensures
        le32(mem.subrange(at, at + 4), 0) != MAGIC,
        le32(mem.subrange(at, at + 4), 0) != COMMIT_MARKER,
{
    let w = mem.subrange(at, at + 4);
    assert(w[0] == ERASED_BYTE && w[1] == ERASED_BYTE && w[2] == ERASED_BYTE && w[3]
        == ERASED_BYTE);
}

/// The MCU memory once the Erasing step has cleared `dest`.
pub open spec fn after_erase(before: Seq<u8>, dest: Bank) -> Seq<u8> {
    erased(before, dest.start as int, dest.size as int)
}

/// Header and payload of the image held in `source` of `ext`.
pub open spec fn image_body(ext: Seq<u8>, source: Bank) -> Seq<u8> {
    ext.subrange(source.start as int, source.start + image_len(ext, source) - MARKER_LEN)
}

/// Commit marker of the image held in `source` of `ext`.
pub open spec fn image_marker(ext: Seq<u8>, source: Bank) -> Seq<u8> {
    let n = image_len(ext, source);
    ext.subrange(source.start + n - MARKER_LEN, source.start + n)
}

/// The MCU memory once the header and payload of the image in `source` have been
/// written into the erased `dest`, the commit marker not yet.
pub open spec fn after_body(before: Seq<u8>, dest: Bank, ext: Seq<u8>, source: Bank) -> Seq<u8> {
    overwritten(after_erase(before, dest), dest.start as int, image_body(ext, source))
}

/// The MCU memory once the commit marker has been written too.
pub open spec fn after_copy(before: Seq<u8>, dest: Bank, ext: Seq<u8>, source: Bank) -> Seq<u8> {
    overwritten(
        after_body(before, dest, ext, source),
        dest.start + image_len(ext, source) - MARKER_LEN,
        image_marker(ext, source),
    )
}

/// A copy of a valid image fits `dest`.
pub open spec fn copy_fits(before: Seq<u8>, dest: Bank, ext: Seq<u8>, source: Bank) -> bool {
    &&& validates(ext, source)
    &&& image_len(ext, source) <= dest.size
    &&& dest.fits(before.len())
}

/// A reset or a fault during the copy is safe: a destination that was erased and then
/// received any part of the header and payload, but no commit marker, does not
/// validate. The erased destination itself is the case where nothing was written.
pub proof fn lemma_interrupted_copy_invalid(
    before: Seq<u8>,
    dest: Bank,
    ext: Seq<u8>,
    source: Bank,
    m: Seq<u8>,
)
    requires
        copy_fits(before, dest, ext, source),
        partly_written(after_erase(before, dest), m, dest.start as int, image_body(ext, source)),
    ensures
        !validates(m, dest),
{
    reveal(image_status);
    let ds = dest.start as int;
    let ss = source.start as int;
    let size = image_status(ext, source)->Ok_0;
    let cleared = after_erase(before, dest);
    let body = image_body(ext, source);
    let hs = ext.subrange(ss, ss + HEADER_LEN);
    assert(le32(hs, 4) == size);
    let h = m.subrange(ds, ds + HEADER_LEN);
    if le32(h, 0) == MAGIC {
        assert forall|k: int| 4 <= k < 8 implies #[trigger] h[k] >= hs[k] by {
            assert(m[ds + k] == cleared[ds + k] || m[ds + k] == body[k]);
        }
        assert(h[4] >= hs[4] && h[5] >= hs[5] && h[6] >= hs[6] && h[7] >= hs[7]);
        let s2 = le32(h, 4);
        assert(s2 >= size);
        if HEADER_LEN + s2 + MARKER_LEN <= dest.size {
            let at = ds + HEADER_LEN + s2;
            assert forall|i: int| at <= i < at + 4 implies #[trigger] m[i] == ERASED_BYTE by {
                assert(m[i] == cleared[i] || (ds <= i < ds + body.len() && m[i] == body[i - ds]));
            }
            lemma_erased_word(m, at);
        }
    }
}

/// An erased destination does not validate.
pub proof fn lemma_erased_invalid(before: Seq<u8>, dest: Bank)
    requires
        dest.fits(before.len()),
    ensures
        !validates(after_erase(before, dest), dest),
{
    reveal(image_status);
    let ds = dest.start as int;
    let cleared = after_erase(before, dest);
    if dest.size >= HEADER_LEN + MARKER_LEN {
        lemma_erased_word(cleared, ds);
        assert(cleared.subrange(ds, ds + HEADER_LEN).subrange(0, 4) =~= cleared.subrange(ds, ds + 4));
    }
}

/// A completed copy validates in the destination.
pub proof fn lemma_completed_copy_valid(before: Seq<u8>, dest: Bank, ext: Seq<u8>, source: Bank)
    requires
        copy_fits(before, dest, ext, source),
    ensures
        validates(after_copy(before, dest, ext, source), dest),
        image_status(after_copy(before, dest, ext, source), dest) == image_status(ext, source),
        holds_copy(after_copy(before, dest, ext, source), dest, ext, source),
{
    reveal(image_status);
    let ds = dest.start as int;
    let ss = source.start as int;
    let size = image_status(ext, source)->Ok_0;
    let n = image_len(ext, source);
    let m = after_copy(before, dest, ext, source);
    assert(m.subrange(ds, ds + n) =~= ext.subrange(ss, ss + n));
    assert(m.subrange(ds, ds + HEADER_LEN) =~= ext.subrange(ss, ss + HEADER_LEN));
    assert(m.subrange(ds + HEADER_LEN, ds + HEADER_LEN + size) =~= ext.subrange(
        ss + HEADER_LEN,
        ss + HEADER_LEN + size,
    ));
    assert(m.subrange(ds + HEADER_LEN + size, ds + HEADER_LEN + size + MARKER_LEN)
        =~= ext.subrange(ss + HEADER_LEN + size, ss + HEADER_LEN + size + MARKER_LEN));
}

/// Copies a validated image from the external banks into `dest`.
///
/// Ends in `Idle` when no external bank validates, and otherwise copies the first
/// valid external image: `Failed`, with `dest` erased, when it does not fit `dest`,
/// `Committed` when `dest` validates after the erase and the writes (a full copy
/// always does), and `Failed` otherwise. A failed erase may leave `dest` partly erased;
/// any later failure leaves it not validating. Only `dest` is ever written.
#[verifier::rlimit(100)]
pub fn copy_image<E: Flash, M: Flash>(
    external: &E,
    external_banks: &Vec<Bank>,
    mcu: &mut M,
    dest: &Bank,
) -> (r: CopyState)
    requires
        registry_addressable(external_banks@),
        dest.end() <= usize::MAX,
    ensures
        r == CopyState::Idle || r == CopyState::Committed || r == CopyState::Failed,
        only_bank_changed(old(mcu).memory(), final(mcu).memory(), *dest),
        r == CopyState::Idle <==> forall|i: int|
            0 <= i < external_banks@.len() ==> !validates(
                external.memory(),
                #[trigger] external_banks@[i],
            ),
        r == CopyState::Idle ==> final(mcu).memory() == old(mcu).memory(),
        forall|i: int|
            is_first_valid(external.memory(), external_banks@, i) && image_len(
                external.memory(),
                #[trigger] external_banks@[i],
            ) > dest.size ==> r == CopyState::Failed && partly_erased(
                old(mcu).memory(),
                final(mcu).memory(),
                dest.start as int,
                dest.size as int,
            ),
        r == CopyState::Committed ==> validates(final(mcu).memory(), *dest) && exists|i: int|
            is_first_valid(external.memory(), external_banks@, i) && copy_fits(
                old(mcu).memory(),
                *dest,
                external.memory(),
                #[trigger] external_banks@[i],
            ) && partly_written(
                after_body(old(mcu).memory(), *dest, external.memory(), external_banks@[i]),
                final(mcu).memory(),
                dest.start + image_len(external.memory(), external_banks@[i]) - MARKER_LEN,
                image_marker(external.memory(), external_banks@[i]),
            ),
        r == CopyState::Failed ==> partly_erased(
            old(mcu).memory(),
            final(mcu).memory(),
            dest.start as int,
            dest.size as int,
        ) || exists|i: int|
            is_first_valid(external.memory(), external_banks@, i) && copy_fits(
                old(mcu).memory(),
                *dest,
                external.memory(),
                #[trigger] external_banks@[i],
            ) && (partly_written(
                after_erase(old(mcu).memory(), *dest),
                final(mcu).memory(),
                dest.start as int,
                image_body(external.memory(), external_banks@[i]),
            ) || partly_written(
                after_body(old(mcu).memory(), *dest, external.memory(), external_banks@[i]),
                final(mcu).memory(),
                dest.start + image_len(external.memory(), external_banks@[i]) - MARKER_LEN,
                image_marker(external.memory(), external_banks@[i]),
            )),
        r == CopyState::Failed ==> !validates(final(mcu).memory(), *dest) || partly_erased(
            old(mcu).memory(),
            final(mcu).memory(),
            dest.start as int,
            dest.size as int,
        ),
        forall|i: int|
            is_first_valid(external.memory(), external_banks@, i) && copy_fits(
                old(mcu).memory(),
                *dest,
                external.memory(),
                #[trigger] external_banks@[i],
            ) && final(mcu).memory() == after_copy(
                old(mcu).memory(),
                *dest,
                external.memory(),
                external_banks@[i],
            ) && !partly_erased(
                old(mcu).memory(),
                final(mcu).memory(),
                dest.start as int,
                dest.size as int,
            ) ==> r == CopyState::Committed,
{
    let ghost before = mcu.memory();
    let ghost ext = external.memory();
    // Scanning
    let mut i: usize = 0;
    let mut found: Option<(usize, usize)> = None;
    while found.is_none() && i < external_banks.len()
        invariant
            i <= external_banks@.len(),
            registry_addressable(external_banks@),
            ext == external.memory(),
            found is None ==> forall|j: int|
                0 <= j < i ==> !validates(ext, #[trigger] external_banks@[j]),
            found matches Some(f) ==> f.0 == i && is_first_valid(ext, external_banks@, i as int),
            found matches Some(f) ==> f.0 < external_banks@.len() && validates(
                ext,
                external_banks@[f.0 as int],
            ) && f.1 as nat == image_status(ext, external_banks@[f.0 as int])->Ok_0,
        decreases external_banks@.len() - i + if found is None { 1int } else { 0int },
    {
        let bank = &external_banks[i];
        assert(external_banks@[i as int].end() <= usize::MAX);
        if let Ok(img) = validate_image(external, bank) {
            found = Some((i, img.size()));
        } else {
            i = i + 1;
        }
    }
    let (pos, size) = match found {
        Some(f) => f,
        None => {
            return CopyState::Idle;
        },
    };
    let source = &external_banks[pos];
    let ghost sb = external_banks@[pos as int];
    let ghost ss = sb.start as int;
    proof {
        reveal(image_status);
        assert(validates(ext, external_banks@[pos as int]));
    }
    // Verifying: the whole image, marker included, must fit the destination.
    let body_len = HEADER_LEN + size;
    if body_len + MARKER_LEN > dest.size {
        assert(image_len(ext, sb) > dest.size);
        // The image cannot be installed: leave the destination erased, so that no
        // failed update leaves a bank that validates.
        let _ = mcu.erase(dest.start, dest.size);
        proof {
            if dest.fits(before.len()) && mcu.memory() == after_erase(before, *dest) {
                lemma_erased_invalid(before, *dest);
            }
        }
        return CopyState::Failed;
    }
    let body = match external.read(source.start, body_len) {
        Ok(b) => b,
        Err(_) => return CopyState::Failed,
    };
    let marker = match external.read(source.start + body_len, MARKER_LEN) {
        Ok(m) => m,
        Err(_) => return CopyState::Failed,
    };
    // Erasing
    if dest.start > mcu.capacity() || dest.size > mcu.capacity() - dest.start {
        return CopyState::Failed;
    }
    if mcu.erase(dest.start, dest.size).is_err() {
        return CopyState::Failed;
    }
    let ghost cleared = mcu.memory();
    let ghost ds = dest.start as int;
    proof {
        assert(copy_fits(before, *dest, ext, sb));
        lemma_completed_copy_valid(before, *dest, ext, sb);
        assert(image_len(ext, sb) == body_len + MARKER_LEN);
        assert(body@ =~= image_body(ext, sb));
        assert(marker@ =~= image_marker(ext, sb));
        assert(cleared == after_erase(before, *dest));
    }
    // Writing, in increasing address order: header and payload, then the marker.
    if mcu.write(dest.start, body.as_slice()).is_err() {
        proof {
            lemma_interrupted_copy_invalid(before, *dest, ext, sb, mcu.memory());
        }
        return CopyState::Failed;
    }
    let ghost written = mcu.memory();
    proof {
        assert(written == after_body(before, *dest, ext, sb));
    }
    // Whether or not the marker write reports a fault, validation decides.
    let marker_written = mcu.write(dest.start + body_len, marker.as_slice());
    proof {
        if marker_written is Ok {
            let fin = mcu.memory();
            assert(fin == after_copy(before, *dest, ext, sb));
            assert(partly_written(written, fin, ds + body_len, marker@));
        }
    }
    // VerifyingWrite
    if validate_image(mcu, dest).is_ok() {
        CopyState::Committed
    } else {
        CopyState::Failed
    }
}

} // verus!
