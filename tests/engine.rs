use loadstone::bank::{Bank, Location};
use loadstone::boot::{boot_candidates, select_boot_bank, BootMetrics, Outcome};
use loadstone::engine::{check_registry, Bootloader};
use loadstone::error::{DriverError, Error, InvalidImageReason};
use loadstone::flash::{Flash, RamFlash};
use loadstone::image::{
    check_body, check_header, read_le32, validate_image, COMMIT_MARKER, HEADER_LEN, MAGIC,
};
use loadstone::update::{copy_image, CopyState};

const BANK_SIZE: usize = 1024;

fn bank(index: u8, start: usize, location: Location, is_golden: bool) -> Bank {
    Bank { index, start, size: BANK_SIZE, location, bootable: true, is_golden }
}

fn mcu(index: u8, slot: usize) -> Bank {
    bank(index, slot * BANK_SIZE, Location::Internal, false)
}

fn golden_at(index: u8, slot: usize) -> Bank {
    bank(index, slot * BANK_SIZE, Location::Internal, true)
}

fn image(payload: &[u8]) -> Vec<u8> {
    let mut out = Vec::new();
    out.extend_from_slice(&(MAGIC as u32).to_le_bytes());
    out.extend_from_slice(&(payload.len() as u32).to_le_bytes());
    out.extend_from_slice(&crc::crc32::checksum_ieee(payload).to_le_bytes());
    out.extend_from_slice(payload);
    out.extend_from_slice(&(COMMIT_MARKER as u32).to_le_bytes());
    out
}

fn flash_with(slots: usize, images: &[(usize, Vec<u8>)]) -> RamFlash {
    let mut f = RamFlash::new(slots * BANK_SIZE, 256);
    for (slot, bytes) in images {
        f.write(slot * BANK_SIZE, bytes).unwrap();
    }
    f
}

fn bad_magic() -> Vec<u8> {
    let mut img = image(b"alpha firmware");
    img[0] ^= 0x01;
    img
}

fn checksum_mismatch() -> Vec<u8> {
    let mut img = image(b"beta firmware");
    img[HEADER_LEN] ^= 0x80;
    img
}

fn size_out_of_bounds() -> Vec<u8> {
    let mut img = image(b"gamma");
    img[4..8].copy_from_slice(&(BANK_SIZE as u32).to_le_bytes());
    img
}

fn read_all(f: &RamFlash) -> Vec<u8> {
    f.read(0, f.capacity()).unwrap()
}

#[test]
fn selects_second_bank_when_first_has_bad_magic() {
    let f = flash_with(2, &[(0, bad_magic()), (1, image(b"valid"))]);
    let banks = vec![mcu(10, 0), mcu(11, 1)];
    let m = select_boot_bank(&f, &banks, false);
    assert_eq!(m.selected_bank, Some(11));
    assert_eq!(m.outcome, Outcome::Booted);
    assert!(!m.used_golden);
}

#[test]
fn falls_back_to_golden_with_recovery() {
    let f = flash_with(3, &[(0, checksum_mismatch()), (1, size_out_of_bounds()), (2, image(b"golden"))]);
    assert_eq!(
        validate_image(&f, &mcu(1, 0)),
        Err(Error::InvalidImage(InvalidImageReason::ChecksumMismatch))
    );
    assert_eq!(
        validate_image(&f, &mcu(2, 1)),
        Err(Error::InvalidImage(InvalidImageReason::SizeOutOfBounds))
    );
    let banks = vec![mcu(1, 0), mcu(2, 1), golden_at(7, 2)];
    let m = select_boot_bank(&f, &banks, true);
    assert_eq!(m.selected_bank, Some(7));
    assert!(m.used_golden);
    assert_eq!(m.outcome, Outcome::Booted);
}

#[test]
fn update_commits_and_next_boot_selects_destination() {
    let internal = flash_with(2, &[]);
    let external = flash_with(1, &[(0, image(b"new firmware image"))]);
    let mcu_banks = vec![mcu(1, 0), mcu(2, 1)];
    let ext_banks = vec![bank(9, 0, Location::External, false)];
    let mut boot =
        Bootloader::new(internal, Some(external), mcu_banks, ext_banks, 1, false, "hello").unwrap();
    let m = boot.run(true);
    assert_eq!(m.selected_bank, Some(2));
    assert_eq!(m.retries, 0);
    assert!(validate_image(boot.mcu_flash(), &mcu(2, 1)).is_ok());
    let again = boot.run(false);
    assert_eq!(again.selected_bank, Some(2));
    assert_eq!(boot.boot_metrics(), again);
}

#[test]
fn copy_pipeline_reaches_committed() {
    let mut internal = flash_with(2, &[]);
    let external = flash_with(1, &[(0, image(b"payload bytes"))]);
    let ext_banks = vec![bank(9, 0, Location::External, false)];
    let state = copy_image(&external, &ext_banks, &mut internal, &mcu(2, 1));
    assert_eq!(state, CopyState::Committed);
    let img = validate_image(&internal, &mcu(2, 1)).unwrap();
    assert_eq!(img.bank(), 2);
    assert_eq!(img.size(), 13);
    let copied = internal.read(BANK_SIZE, image(b"payload bytes").len()).unwrap();
    assert_eq!(copied, image(b"payload bytes"));
    assert_eq!(internal.read(0, BANK_SIZE).unwrap(), vec![0xFF; BANK_SIZE]);
}

#[test]
fn locked_write_fails_copy_and_destination_stays_invalid() {
    let mut internal = flash_with(2, &[]);
    internal.lock_after(1);
    let external = flash_with(1, &[(0, image(b"payload"))]);
    let ext_banks = vec![bank(9, 0, Location::External, false)];
    let dest = mcu(2, 1);
    let state = copy_image(&external, &ext_banks, &mut internal, &dest);
    assert_eq!(state, CopyState::Failed);
    assert!(validate_image(&internal, &dest).is_err());
    let m = select_boot_bank(&internal, &vec![mcu(1, 0), dest], false);
    assert_eq!(m.selected_bank, None);
    assert_eq!(m.outcome, Outcome::Recovery);
}

#[test]
fn locked_write_counts_a_retry_in_the_engine() {
    let mut internal = flash_with(2, &[(0, image(b"old firmware"))]);
    internal.lock_after(1);
    let external = flash_with(1, &[(0, image(b"new firmware"))]);
    let mut boot = Bootloader::new(
        internal,
        Some(external),
        vec![mcu(1, 0), mcu(2, 1)],
        vec![bank(9, 0, Location::External, false)],
        1,
        false,
        "hello",
    )
    .unwrap();
    let m = boot.run(true);
    assert_eq!(m.retries, 1);
    assert_eq!(m.selected_bank, Some(1));
    assert!(validate_image(boot.mcu_flash(), &mcu(2, 1)).is_err());
}

#[test]
fn nothing_valid_without_recovery_enters_recovery() {
    let f = flash_with(2, &[(0, bad_magic()), (1, checksum_mismatch())]);
    let banks = vec![mcu(1, 0), mcu(2, 1)];
    let m = select_boot_bank(&f, &banks, false);
    assert_eq!(
        m,
        BootMetrics {
            selected_bank: None,
            elapsed_ms: 0,
            retries: 0,
            used_golden: false,
            outcome: Outcome::Recovery
        }
    );
}

#[test]
fn lowest_position_valid_bank_wins_in_any_order() {
    let f = flash_with(3, &[(0, bad_magic()), (1, image(b"one")), (2, image(b"two"))]);
    let a = mcu(1, 0);
    let b = mcu(2, 1);
    let c = mcu(3, 2);
    let orders = [
        (vec![a, b, c], 2),
        (vec![a, c, b], 3),
        (vec![b, a, c], 2),
        (vec![b, c, a], 2),
        (vec![c, a, b], 3),
        (vec![c, b, a], 3),
    ];
    for (banks, expected) in orders.iter() {
        let before = read_all(&f);
        let m = select_boot_bank(&f, banks, false);
        assert_eq!(m.selected_bank, Some(*expected));
        assert_eq!(read_all(&f), before);
    }
}

#[test]
fn golden_ignored_without_recovery() {
    let f = flash_with(2, &[(0, image(b"golden")), (1, bad_magic())]);
    let banks = vec![golden_at(7, 0), mcu(2, 1)];
    assert_eq!(boot_candidates(&banks, false), vec![1]);
    let m = select_boot_bank(&f, &banks, false);
    assert_eq!(m.selected_bank, None);
    assert_eq!(m.outcome, Outcome::Recovery);
    assert!(!m.used_golden);
}

#[test]
fn golden_evaluated_last_with_recovery() {
    let f = flash_with(3, &[(0, image(b"golden")), (1, bad_magic()), (2, image(b"ordinary"))]);
    let banks = vec![golden_at(7, 0), mcu(2, 1), mcu(3, 2)];
    assert_eq!(boot_candidates(&banks, true), vec![1, 2, 0]);
    let m = select_boot_bank(&f, &banks, true);
    assert_eq!(m.selected_bank, Some(3));
    assert!(!m.used_golden);
}

#[test]
fn rerunning_the_decision_repeats_it() {
    let internal = flash_with(2, &[(0, checksum_mismatch()), (1, image(b"fw"))]);
    let mut boot = Bootloader::<RamFlash, RamFlash>::new(
        internal,
        None,
        vec![mcu(1, 0), mcu(2, 1)],
        vec![],
        0,
        true,
        "hi",
    )
    .unwrap();
    let first = boot.run(false);
    let before = read_all(boot.mcu_flash());
    let second = boot.run(false);
    assert_eq!(first, second);
    assert_eq!(first.selected_bank, Some(2));
    assert_eq!(read_all(boot.mcu_flash()), before);
}

#[test]
fn update_writes_only_the_destination() {
    let internal = flash_with(3, &[(0, image(b"keep zero")), (2, image(b"keep two"))]);
    let external = flash_with(2, &[(0, bad_magic()), (1, image(b"incoming"))]);
    let ext_before = read_all(&external);
    let int_before = read_all(&internal);
    let ext_banks = vec![
        bank(8, 0, Location::External, false),
        bank(9, BANK_SIZE, Location::External, false),
    ];
    let mut boot = Bootloader::new(
        internal,
        Some(external),
        vec![mcu(1, 0), mcu(2, 1), mcu(3, 2)],
        ext_banks,
        1,
        false,
        "hi",
    )
    .unwrap();
    let m = boot.run(true);
    assert_eq!(m.selected_bank, Some(1));
    let after = read_all(boot.mcu_flash());
    assert_eq!(after[..BANK_SIZE], int_before[..BANK_SIZE]);
    assert_eq!(after[2 * BANK_SIZE..], int_before[2 * BANK_SIZE..]);
    assert_ne!(after[BANK_SIZE..2 * BANK_SIZE], int_before[BANK_SIZE..2 * BANK_SIZE]);
    assert!(validate_image(boot.mcu_flash(), &mcu(2, 1)).is_ok());
    assert_eq!(ext_before.len(), 2 * BANK_SIZE);
}

#[test]
fn copy_without_valid_source_stays_idle() {
    let mut internal = flash_with(1, &[(0, image(b"current"))]);
    let before = read_all(&internal);
    let external = flash_with(1, &[(0, checksum_mismatch())]);
    let ext_banks = vec![bank(9, 0, Location::External, false)];
    let state = copy_image(&external, &ext_banks, &mut internal, &mcu(1, 0));
    assert_eq!(state, CopyState::Idle);
    assert_eq!(read_all(&internal), before);
}

#[test]
fn copy_into_too_small_bank_fails_and_erases() {
    let mut internal = flash_with(1, &[(0, image(b"current"))]);
    let small = Bank { index: 1, start: 0, size: 512, location: Location::Internal, bootable: true, is_golden: false };
    assert!(validate_image(&internal, &small).is_ok());
    let external = flash_with(1, &[(0, image(&[7u8; 600]))]);
    let ext_banks = vec![bank(9, 0, Location::External, false)];
    let state = copy_image(&external, &ext_banks, &mut internal, &small);
    assert_eq!(state, CopyState::Failed);
    assert!(validate_image(&internal, &small).is_err());
    assert_eq!(internal.read(0, 512).unwrap(), vec![0xFF; 512]);
    assert_eq!(internal.read(512, BANK_SIZE - 512).unwrap(), vec![0xFF; BANK_SIZE - 512]);
}

#[test]
fn validation_reports_each_reason() {
    let f = flash_with(4, &[(0, bad_magic()), (1, size_out_of_bounds()), (2, checksum_mismatch())]);
    assert_eq!(validate_image(&f, &mcu(1, 0)), Err(Error::InvalidImage(InvalidImageReason::BadMagic)));
    assert_eq!(
        validate_image(&f, &mcu(2, 1)),
        Err(Error::InvalidImage(InvalidImageReason::SizeOutOfBounds))
    );
    assert_eq!(
        validate_image(&f, &mcu(3, 2)),
        Err(Error::InvalidImage(InvalidImageReason::ChecksumMismatch))
    );
    assert_eq!(validate_image(&f, &mcu(4, 3)), Err(Error::InvalidImage(InvalidImageReason::BadMagic)));
    assert_eq!(validate_image(&f, &mcu(5, 4)), Err(Error::Driver(DriverError::InvalidAddress)));
    let tiny = Bank { index: 6, start: 0, size: 8, location: Location::Internal, bootable: true, is_golden: false };
    assert_eq!(validate_image(&f, &tiny), Err(Error::InvalidImage(InvalidImageReason::SizeOutOfBounds)));
}

#[test]
fn missing_commit_marker_is_rejected() {
    let mut img = image(b"interrupted");
    let n = img.len();
    img.truncate(n - 4);
    let f = flash_with(1, &[(0, img)]);
    assert_eq!(validate_image(&f, &mcu(1, 0)), Err(Error::InvalidImage(InvalidImageReason::BadMagic)));
}

#[test]
fn checksum_uses_the_payload_crc() {
    let img = image(b"123456789");
    let header = &img[..HEADER_LEN];
    assert_eq!(read_le32(header, 8), 0xCBF4_3926);
    let marker = &img[img.len() - 4..];
    assert_eq!(check_body(header, marker, 0xCBF4_3926), Ok(()));
    assert_eq!(check_body(header, marker, 0), Err(InvalidImageReason::ChecksumMismatch));
    assert_eq!(check_body(header, header, 0xCBF4_3926), Err(InvalidImageReason::BadMagic));
    assert_eq!(check_header(&mcu(1, 0), header), Ok(9));
    let f = flash_with(1, &[(0, img.clone())]);
    assert_eq!(validate_image(&f, &mcu(1, 0)).unwrap().size(), 9);
}

#[test]
fn registry_checks() {
    assert!(check_registry(&vec![mcu(1, 0), golden_at(2, 1)]));
    assert!(!check_registry(&vec![golden_at(1, 0), golden_at(2, 1)]));
    let huge = Bank { index: 1, start: usize::MAX, size: 2, location: Location::Internal, bootable: true, is_golden: false };
    assert!(!check_registry(&vec![huge]));
    let overlapping = Bank { index: 3, start: BANK_SIZE / 2, size: BANK_SIZE, location: Location::Internal, bootable: true, is_golden: false };
    assert!(!check_registry(&vec![mcu(1, 0), overlapping]));
    assert!(check_registry(&vec![mcu(1, 0), mcu(2, 1), mcu(3, 3)]));
    let two_golden = Bootloader::<RamFlash, RamFlash>::new(
        RamFlash::new(2048, 256),
        None,
        vec![golden_at(1, 0), golden_at(2, 1)],
        vec![],
        0,
        true,
        "hi",
    );
    assert!(two_golden.is_none());
    let bad_dest = Bootloader::<RamFlash, RamFlash>::new(
        RamFlash::new(2048, 256),
        None,
        vec![mcu(1, 0)],
        vec![],
        1,
        true,
        "hi",
    );
    assert!(bad_dest.is_none());
}

#[test]
fn greeting_is_kept() {
    let boot = Bootloader::<RamFlash, RamFlash>::new(
        RamFlash::new(1024, 256),
        None,
        vec![mcu(1, 0)],
        vec![],
        0,
        false,
        "Welcome",
    )
    .unwrap();
    assert_eq!(boot.greeting(), "Welcome");
    assert_eq!(boot.boot_metrics().outcome, Outcome::Recovery);
}

#[test]
fn ram_flash_checks_requests() {
    let mut f = RamFlash::new(1024, 256);
    assert_eq!(f.erase(10, 256), Err(DriverError::MisalignedAccess));
    assert_eq!(f.erase(768, 512), Err(DriverError::InvalidAddress));
    assert_eq!(f.write(1020, &[1, 2, 3, 4, 5]), Err(DriverError::InvalidAddress));
    f.write(4, &[1, 2, 3]).unwrap();
    assert_eq!(f.read(3, 5).unwrap(), vec![0xFF, 1, 2, 3, 0xFF]);
    f.erase(0, 256).unwrap();
    assert_eq!(f.read(3, 5).unwrap(), vec![0xFF; 5]);
    assert!(f.read(1000, 25).is_err());
    f.lock_after(0);
    assert_eq!(f.write(0, &[0]), Err(DriverError::MemoryIsLocked));
}

#[test]
fn driver_errors_convert() {
    assert_eq!(DriverError::MemoryIsLocked.into_error(), Error::Driver(DriverError::MemoryIsLocked));
    assert_eq!(DriverError::MemoryIsLocked.message(), "[MCU Flash] Memory is locked");
    assert_eq!(DriverError::InvalidAddress.message(), "[MCU Flash] Address is invalid");
    assert_eq!(
        InvalidImageReason::SignatureInvalid.into_error(),
        Error::InvalidImage(InvalidImageReason::SignatureInvalid)
    );
}
