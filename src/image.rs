//! Firmware image layout and the checksum validation policy.
//!
//! A bank holds `[magic, declared size, crc]` as three little-endian words, then the
//! payload, then a commit marker word written last of all.
use vstd::prelude::*;
use crate::bank::Bank;
use crate::error::{DriverError, Error, InvalidImageReason};
use crate::flash::Flash;

verus! {

/// First word of every image header.
pub const MAGIC: u64 = 0x1057_0E5A;

/// Word that closes a completely written image.
pub const COMMIT_MARKER: u64 = 0xC0DE_D0E5;

/// Bytes of the image header.
pub const HEADER_LEN: usize = 12;

/// Bytes of the commit marker.
pub const MARKER_LEN: usize = 4;

/// The little-endian word at `at` in `s`.
pub open spec fn le32(s: Seq<u8>, at: int) -> int {
    s[at] as int + s[at + 1] as int * 256 + s[at + 2] as int * 65536 + s[at + 3] as int
        * 16777216
}

/// The IEEE CRC-32 of `bytes`.
pub uninterp spec fn crc32_of(bytes: Seq<u8>) -> u32;

/// Verdict on a header read from `bank`: the declared payload size, or why it is rejected.
/// The size is bounded before anything past the header is looked at.
pub open spec fn header_verdict(bank: Bank, header: Seq<u8>) -> Result<nat, InvalidImageReason> {
    if bank.size < HEADER_LEN + MARKER_LEN {
        Err(InvalidImageReason::SizeOutOfBounds)
    } else if le32(header, 0) != MAGIC {
        Err(InvalidImageReason::BadMagic)
    } else if HEADER_LEN + le32(header, 4) + MARKER_LEN > bank.size {
        Err(InvalidImageReason::SizeOutOfBounds)
    } else {
        Ok(le32(header, 4) as nat)
    }
}

/// Verdict on the rest of an image: its commit marker, then the checksum of its payload.
pub open spec fn body_verdict(header: Seq<u8>, marker: Seq<u8>, payload_crc: u32) -> Result<
    (),
    InvalidImageReason,
> {
    if le32(marker, 0) != COMMIT_MARKER {
        Err(InvalidImageReason::BadMagic)
    } else if le32(header, 8) != payload_crc {
        Err(InvalidImageReason::ChecksumMismatch)
    } else {
        Ok(())
    }
}

/// Verdict of the checksum policy on the image in `bank` of `mem`: its payload size,
/// or why it is rejected.
#[verifier::opaque]
pub open spec fn image_status(mem: Seq<u8>, bank: Bank) -> Result<nat, InvalidImageReason> {
    let s = bank.start as int;
    let header = mem.subrange(s, s + HEADER_LEN);
    match header_verdict(bank, header) {
        Err(e) => Err(e),
        Ok(size) => {
            let payload = mem.subrange(s + HEADER_LEN, s + HEADER_LEN + size);
            let marker = mem.subrange(
                s + HEADER_LEN + size,
                s + HEADER_LEN + size + MARKER_LEN,
            );
            match body_verdict(header, marker, crc32_of(payload)) {
                Err(e) => Err(e),
                Ok(_) => Ok(size),
            }
        },
    }
}

/// Whether `bank` lies in `mem` and holds an image that the checksum policy accepts.
pub open spec fn validates(mem: Seq<u8>, bank: Bank) -> bool {
    bank.fits(mem.len()) && image_status(mem, bank) is Ok
}

/// An image that passed validation, with the bank it was found in.
#[derive(Copy, Clone, Debug, PartialEq, Eq, Structural)]
pub struct ValidatedImage {
    bank: u8,
    size: usize,
}

impl ValidatedImage {
    /// Identifier of the bank that holds the image.
    pub fn bank(&self) -> (r: u8)
        ensures
            r == self.bank_id(),
    {
        self.bank
    }

    /// Verified payload size in bytes.
    pub fn size(&self) -> (r: usize)
        ensures
            r as nat == self.payload_size(),
    {
        self.size
    }

    /// Identifier of the bank that holds the image.
    pub closed spec fn bank_id(self) -> u8 {
        self.bank
    }

    /// Verified payload size in bytes.
    pub closed spec fn payload_size(self) -> nat {
        self.size as nat
    }
}

/// Relies on crc::crc32::checksum_ieee: the IEEE CRC-32 of the bytes, which depends
/// on them alone.
#[verifier::external_body]
fn crc32(bytes: &[u8]) -> (r: u32)
    ensures
        r == crc32_of(bytes@),
{
    crc::crc32::checksum_ieee(bytes)
}

/// The little-endian word at `at` in `bytes`.
pub fn read_le32(bytes: &[u8], at: usize) -> (r: u64)
    requires
        at + 4 <= bytes@.len(),
    ensures
        r == le32(bytes@, at as int),
{
    bytes[at] as u64 + bytes[at + 1] as u64 * 256 + bytes[at + 2] as u64 * 65536
        + bytes[at + 3] as u64 * 16777216
}

/// Checks a header read from `bank`: magic, then the declared size against the bank's
/// capacity.
pub fn check_header(bank: &Bank, header: &[u8]) -> (r: Result<usize, InvalidImageReason>)
    requires
        header@.len() == HEADER_LEN,
    ensures
        r is Ok == header_verdict(*bank, header@) is Ok,
        r is Ok ==> r->Ok_0 as nat == header_verdict(*bank, header@)->Ok_0,
        r is Err ==> r->Err_0 == header_verdict(*bank, header@)->Err_0,
{
    if bank.size < HEADER_LEN + MARKER_LEN {
        return Err(InvalidImageReason::SizeOutOfBounds);
    }
    if read_le32(header, 0) != MAGIC {
        return Err(InvalidImageReason::BadMagic);
    }
    let size = read_le32(header, 4);
    if size > (bank.size - HEADER_LEN - MARKER_LEN) as u64 {
        return Err(InvalidImageReason::SizeOutOfBounds);
    }
    Ok(size as usize)
}

/// Checks the commit marker, then the payload checksum against the header's.
pub fn check_body(header: &[u8], marker: &[u8], payload_crc: u32) -> (r: Result<
    (),
    InvalidImageReason,
>)
    requires
        header@.len() == HEADER_LEN,
        marker@.len() == MARKER_LEN,
    ensures
        r == body_verdict(header@, marker@, payload_crc),
{
    if read_le32(marker, 0) != COMMIT_MARKER {
        return Err(InvalidImageReason::BadMagic);
    }
    if read_le32(header, 8) != payload_crc as u64 {
        return Err(InvalidImageReason::ChecksumMismatch);
    }
    Ok(())
}

/// Validates the image in `bank` of `flash` under the checksum policy. A bank that
/// does not lie in the flash is a driver error.
pub fn validate_image<F: Flash>(flash: &F, bank: &Bank) -> (r: Result<ValidatedImage, Error>)
    requires
        bank.end() <= usize::MAX,
    ensures
        r is Ok == validates(flash.memory(), *bank),
        !bank.fits(flash.memory().len()) ==> r is Err,
        bank.fits(flash.memory().len()) ==> {
            &&& r is Ok == image_status(flash.memory(), *bank) is Ok
            &&& r is Ok ==> r->Ok_0.bank_id() == bank.index && r->Ok_0.payload_size()
                == image_status(flash.memory(), *bank)->Ok_0
            &&& r is Err ==> r->Err_0 == Error::InvalidImage(
                image_status(flash.memory(), *bank)->Err_0,
            )
        },
{
    proof {
        reveal(image_status);
    }
    let s = bank.start;
    let capacity = flash.capacity();
    if s > capacity || bank.size > capacity - s {
        return Err(DriverError::InvalidAddress.into_error());
    }
    if bank.size < HEADER_LEN + MARKER_LEN {
        return Err(Error::InvalidImage(InvalidImageReason::SizeOutOfBounds));
    }
    let header = match flash.read(s, HEADER_LEN) {
        Ok(h) => h,
        Err(e) => return Err(e.into_error()),
    };
    let size = match check_header(bank, header.as_slice()) {
        Ok(n) => n,
        Err(reason) => return Err(reason.into_error()),
    };
    let payload = match flash.read(s + HEADER_LEN, size) {
        Ok(p) => p,
        Err(e) => return Err(e.into_error()),
    };
    let marker = match flash.read(s + HEADER_LEN + size, MARKER_LEN) {
        Ok(m) => m,
        Err(e) => return Err(e.into_error()),
    };
    let payload_crc = crc32(payload.as_slice());
    match check_body(header.as_slice(), marker.as_slice(), payload_crc) {
        Ok(()) => Ok(ValidatedImage { bank: bank.index, size }),
        Err(reason) => Err(reason.into_error()),
    }
}

} // verus!

verus! {

/// Validation of a bank reads nothing outside it: two memories of one length that
/// agree on every byte of `bank` give the same verdict.
pub proof fn lemma_validates_frame(m1: Seq<u8>, m2: Seq<u8>, bank: Bank)
    requires
        m1.len() == m2.len(),
        forall|a: int| bank.start <= a < bank.end() && 0 <= a < m1.len() ==> #[trigger] m1[a] == m2[a],
    ensures
        validates(m1, bank) == validates(m2, bank),
        bank.fits(m1.len()) ==> image_status(m1, bank) == image_status(m2, bank),
{
    reveal(image_status);
    if bank.fits(m1.len()) && bank.size >= HEADER_LEN + MARKER_LEN {
        let s = bank.start as int;
        let h1 = m1.subrange(s, s + HEADER_LEN);
        let h2 = m2.subrange(s, s + HEADER_LEN);
        assert(h1 =~= h2);
        if let Ok(size) = header_verdict(bank, h1) {
            let p = s + HEADER_LEN;
            assert(m1.subrange(p, p + size) =~= m2.subrange(p, p + size));
            assert(m1.subrange(p + size, p + size + MARKER_LEN) =~= m2.subrange(
                p + size,
                p + size + MARKER_LEN,
            ));
        }
    }
}

} // verus!
