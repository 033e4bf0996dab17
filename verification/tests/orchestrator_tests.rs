use stm32_an3155::{checksum, erase, flash, get_info, Error, SimStream, AN3155};

const ACK: u8 = 0x79;

fn session(input: Vec<u8>) -> AN3155<SimStream> {
    AN3155::with(SimStream::new(input))
}

/// The exact bytes a write-memory exchange sends for one chunk.
fn write_frame(address: u32, chunk: &[u8]) -> Vec<u8> {
    let mut out = vec![0x31, 0xCE];
    let addr = address.to_be_bytes().to_vec();
    out.extend_from_slice(&addr);
    out.push(checksum(&addr));
    let mut data = vec![(chunk.len() - 1) as u8];
    data.extend_from_slice(chunk);
    out.extend_from_slice(&data);
    out.push(checksum(&data));
    out
}

/// The exact bytes a read-memory request sends for one chunk.
fn read_frame(address: u32, len: usize) -> Vec<u8> {
    let mut out = vec![0x11, 0xEE];
    let addr = address.to_be_bytes().to_vec();
    out.extend_from_slice(&addr);
    out.push(checksum(&addr));
    let n1 = (len - 1) as u8;
    out.push(n1);
    out.push(!n1);
    out
}

#[test]
fn flash_300_bytes_writes_two_chunks_and_verifies_them() {
    let image: Vec<u8> = (0..300u32).map(|i| (i % 251) as u8).collect();
    let chunk1 = &image[..256];
    let chunk2 = &image[256..];
    assert_eq!(chunk2.len(), 44);

    // The simulated bootloader acknowledges everything and echoes each
    // written chunk back on read.
    let mut input = vec![ACK, ACK, ACK, ACK, ACK];
    input.extend_from_slice(chunk1);
    input.push(ACK);
    input.extend_from_slice(&[ACK, ACK, ACK, ACK, ACK]);
    input.extend_from_slice(chunk2);
    input.push(ACK);

    let mut an = session(input);
    flash(&mut an, 0x0800_0000, &image, false).unwrap();

    let mut expected = write_frame(0x0800_0000, chunk1);
    expected.extend_from_slice(&read_frame(0x0800_0000, 256));
    expected.extend_from_slice(&write_frame(0x0800_0100, chunk2));
    expected.extend_from_slice(&read_frame(0x0800_0100, 44));
    let stream = an.into_inner();
    assert_eq!(stream.written(), &expected);
    assert!(stream.remaining_input().is_empty());
}

#[test]
fn flash_without_verification_only_writes() {
    let image: Vec<u8> = (0..300u32).map(|i| (i % 7) as u8).collect();
    let mut an = session(vec![ACK; 6]);
    flash(&mut an, 0x0800_0000, &image, true).unwrap();
    let mut expected = write_frame(0x0800_0000, &image[..256]);
    expected.extend_from_slice(&write_frame(0x0800_0100, &image[256..]));
    assert_eq!(an.into_inner().written(), &expected);
}

#[test]
fn flash_reports_first_differing_byte() {
    let image: Vec<u8> = vec![0xAA; 300];
    // First chunk echoes correctly; second chunk corrupts its third byte.
    let mut corrupted = image[256..].to_vec();
    corrupted[2] = 0x00;

    let mut input = vec![ACK, ACK, ACK, ACK, ACK];
    input.extend_from_slice(&image[..256]);
    input.push(ACK);
    input.extend_from_slice(&[ACK, ACK, ACK, ACK, ACK]);
    input.extend_from_slice(&corrupted);
    input.push(ACK);

    let mut an = session(input);
    assert!(matches!(
        flash(&mut an, 0x0800_0000, &image, false),
        Err(Error::Verification(258))
    ));
}

#[test]
fn flash_of_empty_image_touches_nothing() {
    let mut an = session(vec![]);
    flash(&mut an, 0x0800_0000, &[], false).unwrap();
    assert!(an.into_inner().written().is_empty());
}

/// The bytes a capability-list reply carries: ack, count, protocol version,
/// the command bytes, trailing ack.
fn capability_reply(commands: &[u8]) -> Vec<u8> {
    let mut out = vec![ACK, commands.len() as u8, 0x31];
    out.extend_from_slice(commands);
    out.push(ACK);
    out
}

#[test]
fn erase_uses_standard_erase_when_supported() {
    let mut input = capability_reply(&[0x43]);
    input.extend_from_slice(&[ACK, ACK]);
    let mut an = session(input);
    erase(&mut an, 0x0800_0000, 300).unwrap();

    let mut expected = vec![0x00, 0xFF];
    expected.extend_from_slice(&[0x43, 0xBC]);
    let payload = vec![2, 0, 1, 2];
    expected.extend_from_slice(&payload);
    expected.push(checksum(&payload));
    assert_eq!(an.into_inner().written(), &expected);
}

#[test]
fn erase_uses_extended_erase_when_standard_is_absent() {
    let mut input = capability_reply(&[0x44]);
    input.extend_from_slice(&[ACK, ACK]);
    let mut an = session(input);
    erase(&mut an, 0x0800_0000, 300).unwrap();

    let mut expected = vec![0x00, 0xFF];
    expected.extend_from_slice(&[0x44, 0xBB]);
    let payload = vec![0x00, 0x03, 0x00, 0x00, 0x00, 0x01, 0x00, 0x02];
    expected.extend_from_slice(&payload);
    expected.push(checksum(&payload));
    assert_eq!(an.into_inner().written(), &expected);
}

#[test]
fn erase_without_erase_capability_is_unsupported() {
    let mut an = session(capability_reply(&[0x21]));
    assert!(matches!(
        erase(&mut an, 0x0800_0000, 300),
        Err(Error::Unsupported)
    ));
}

#[test]
fn erase_page_beyond_standard_range_is_rejected() {
    // Pages start at index 256, which one byte cannot address.
    let address = 0x0800_0000 + 256 * 128;
    let mut an = session(capability_reply(&[0x43]));
    assert!(matches!(
        erase(&mut an, address, 128),
        Err(Error::PageOutOfRange(256))
    ));
}

#[test]
fn erase_page_beyond_extended_range_is_rejected() {
    // Pages start at index 65536, which two bytes cannot address.
    let address = 0x0800_0000 + 65_536 * 128;
    let mut an = session(capability_reply(&[0x44]));
    assert!(matches!(
        erase(&mut an, address, 128),
        Err(Error::PageOutOfRange(65_536))
    ));
}

#[test]
fn erase_of_65536_pages_exceeds_extended_count() {
    // Pages 0 through 65535 all fit in two bytes, but their count does not.
    let mut an = session(capability_reply(&[0x44]));
    assert!(matches!(
        erase(&mut an, 0x0800_0000, 65_536 * 128),
        Err(Error::ErasePageCount(65_536))
    ));
}

#[test]
fn erase_of_empty_range_touches_nothing() {
    let mut an = session(vec![]);
    erase(&mut an, 0x0800_0000, 0).unwrap();
    assert!(an.into_inner().written().is_empty());
}

#[test]
fn erase_splits_standard_erase_into_chunks_of_255() {
    // 256 pages: one call with 255 pages, then one with the last page.
    let mut input = capability_reply(&[0x43]);
    input.extend_from_slice(&[ACK, ACK, ACK, ACK]);
    let mut an = session(input);
    erase(&mut an, 0x0800_0000, 256 * 128).unwrap();

    let mut expected = vec![0x00, 0xFF];
    let first: Vec<u8> = (0..=254).collect();
    let mut payload = vec![254];
    payload.extend_from_slice(&first);
    expected.extend_from_slice(&[0x43, 0xBC]);
    expected.extend_from_slice(&payload);
    expected.push(checksum(&payload));
    let payload2 = vec![0, 255];
    expected.extend_from_slice(&[0x43, 0xBC]);
    expected.extend_from_slice(&payload2);
    expected.push(checksum(&payload2));
    assert_eq!(an.into_inner().written(), &expected);
}

#[test]
fn get_info_reports_version_commands_and_product_id() {
    let mut input = vec![ACK, 0x31, 0xAA, 0xBB, ACK];
    input.extend_from_slice(&capability_reply(&[0x43, 0x21]));
    input.extend_from_slice(&[ACK, 0x01, 0x04, 0x12, ACK]);
    let mut an = session(input);
    let info = get_info(&mut an).unwrap();
    assert_eq!(info.version.value(), (3, 1));
    assert_eq!(
        info.commands,
        vec![
            stm32_an3155::BootloaderCommand::Erase,
            stm32_an3155::BootloaderCommand::Go
        ]
    );
    assert_eq!(info.product_id, 0x0412);
}

#[test]
fn get_info_stops_at_first_failure() {
    // The version exchange is rejected outright.
    let mut an = session(vec![0x1F]);
    assert!(matches!(get_info(&mut an), Err(Error::Nack)));
}
