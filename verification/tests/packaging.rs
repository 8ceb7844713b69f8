use onenote_parser::errors::ErrorKind;
use onenote_parser::packaging::{
    embedded_packaging_offset, parse_header_log_end, sniff_store_format, OneStoreHeader,
    StoreFormat, PACKAGE_STORE_FORMAT, REVISION_STORE_FORMAT,
};
use onenote_parser::reader::Reader;

fn guid_bytes(value: u128) -> [u8; 16] {
    uuid::Uuid::from_u128(value).to_bytes_le()
}

fn header(legacy: u128, format: u128, stp: u64, cb: u32) -> Vec<u8> {
    let mut data = vec![0u8; 1024];
    data[32..48].copy_from_slice(&guid_bytes(legacy));
    data[48..64].copy_from_slice(&guid_bytes(format));
    data[160..168].copy_from_slice(&stp.to_le_bytes());
    data[168..172].copy_from_slice(&cb.to_le_bytes());
    data
}

#[test]
fn package_files_are_read_from_their_start() {
    let data = header(0, PACKAGE_STORE_FORMAT, 0, 0);
    assert_eq!(
        sniff_store_format(&data),
        Some(StoreFormat::FssHttpB {
            packaging_offset: 0
        })
    );
}

#[test]
fn revision_stores_with_a_legacy_version_are_packages() {
    let data = header(7, REVISION_STORE_FORMAT, 0, 0);
    assert_eq!(
        sniff_store_format(&data),
        Some(StoreFormat::FssHttpB {
            packaging_offset: 0
        })
    );
}

#[test]
fn revision_stores_without_an_embedded_package_are_desktop_files() {
    let data = header(0, REVISION_STORE_FORMAT, 1024, 0);
    assert_eq!(sniff_store_format(&data), Some(StoreFormat::Desktop));
    assert_eq!(embedded_packaging_offset(&data), None);
}

#[test]
fn embedded_packages_start_after_the_transaction_log() {
    let mut data = header(0, REVISION_STORE_FORMAT, 1000, 24);
    let mut package = vec![0u8; 64];
    package[48..64].copy_from_slice(&guid_bytes(PACKAGE_STORE_FORMAT));
    data.extend_from_slice(&package);
    assert_eq!(embedded_packaging_offset(&data), Some(1024));
    assert_eq!(
        sniff_store_format(&data),
        Some(StoreFormat::FssHttpB {
            packaging_offset: 1024
        })
    );
}

#[test]
fn unknown_or_short_files_have_no_format() {
    assert_eq!(sniff_store_format(&[0u8; 63]), None);
    assert_eq!(sniff_store_format(&header(0, 0x1234, 0, 0)), None);
}

#[test]
fn the_header_names_its_guids_and_transaction_log() {
    let data = header(5, REVISION_STORE_FORMAT, 0x0102_0304_0506_0708, 0x0A0B_0C0D);
    let mut reader = Reader::new(&data);
    let h = OneStoreHeader::parse(&mut reader).unwrap();
    assert_eq!(h.legacy_file_version.value, 5);
    assert_eq!(h.file_format.value, REVISION_STORE_FORMAT);
    assert_eq!(h.fcr_transaction_log.stp, 0x0102_0304_0506_0708);
    assert_eq!(h.fcr_transaction_log.cb, 0x0A0B_0C0D);
    assert_eq!(reader.remaining(), 0);

    let short = vec![0u8; 1000];
    let err = OneStoreHeader::parse(&mut Reader::new(&short)).unwrap_err();
    assert_eq!(err.kind, ErrorKind::UnexpectedEof);
}

#[test]
fn transaction_log_ends_are_checked() {
    let data = header(0, REVISION_STORE_FORMAT, u64::MAX, 1);
    let err = parse_header_log_end(&mut Reader::new(&data), 1024).unwrap_err();
    assert_eq!(err.kind, ErrorKind::TransactionLogOverflow);
    assert_eq!(err.to_string(), "transaction log offset overflow");

    let data = header(0, REVISION_STORE_FORMAT, 10, 0);
    let err = parse_header_log_end(&mut Reader::new(&data), 1024).unwrap_err();
    assert_eq!(err.kind, ErrorKind::TransactionLogUnderflow);

    let data = header(0, REVISION_STORE_FORMAT, 2000, 48);
    let (_, end) = parse_header_log_end(&mut Reader::new(&data), 1024).unwrap();
    assert_eq!(end, 2048);
}
