use stm32_an3155::{checksum, BankErase, BootloaderCommand, Error, EraseCommand, SimStream, AN3155};

const ACK: u8 = 0x79;
const NACK: u8 = 0x1F;

fn session(input: Vec<u8>) -> AN3155<SimStream> {
    AN3155::with(SimStream::new(input))
}

#[test]
fn initialize_writes_sync_byte() {
    let mut an = session(vec![ACK]);
    an.initialize().unwrap();
    assert_eq!(an.into_inner().written(), &vec![0x7F]);
}

#[test]
fn initialize_ignores_response_value() {
    let mut an = session(vec![0x00]);
    assert!(an.initialize().is_ok());
}

#[test]
fn get_version_reads_version_and_discards_capability_bytes() {
    let mut an = session(vec![ACK, 0x31, 0xAA, 0xBB, ACK]);
    let ver = an.get_version().unwrap();
    assert_eq!(ver.value(), (3, 1));
    assert_eq!(an.into_inner().written(), &vec![0x01, 0xFE]);
}

#[test]
fn get_version_nack_on_trailing_ack_fails_with_nack() {
    let mut an = session(vec![ACK, 0x31, 0xAA, 0xBB, NACK]);
    assert!(matches!(an.get_version(), Err(Error::Nack)));
}

#[test]
fn get_version_rejected_command_fails_with_nack() {
    let mut an = session(vec![NACK]);
    assert!(matches!(an.get_version(), Err(Error::Nack)));
}

#[test]
fn get_version_garbage_ack_is_invalid_response() {
    let mut an = session(vec![0x42]);
    assert!(matches!(an.get_version(), Err(Error::InvalidResponse(0x42))));
}

#[test]
fn get_version_on_exhausted_stream_is_transport_error() {
    let mut an = session(vec![]);
    assert!(matches!(an.get_version(), Err(Error::Transport)));
}

#[test]
fn get_id_reads_big_endian_product_id() {
    let mut an = session(vec![ACK, 0x01, 0x04, 0x12, ACK]);
    assert_eq!(an.get_id().unwrap(), 0x0412);
    assert_eq!(an.into_inner().written(), &vec![0x02, 0xFD]);
}

#[test]
fn get_id_rejects_wrong_length_prefix() {
    let mut an = session(vec![ACK, 0x02, 0x04, 0x12, ACK]);
    assert!(matches!(an.get_id(), Err(Error::InvalidResponse(0x02))));
}

#[test]
fn get_commands_decodes_capability_list() {
    let mut an = session(vec![ACK, 0x03, 0x31, 0x00, 0x01, 0x43, ACK]);
    let cmds = an.get_commands().unwrap();
    assert_eq!(
        cmds,
        vec![
            BootloaderCommand::Get,
            BootloaderCommand::GetVersion,
            BootloaderCommand::Erase
        ]
    );
    assert_eq!(an.into_inner().written(), &vec![0x00, 0xFF]);
}

#[test]
fn get_commands_fails_on_unknown_command_byte() {
    let mut an = session(vec![ACK, 0x02, 0x31, 0x00, 0x5A, ACK]);
    assert!(matches!(
        an.get_commands(),
        Err(Error::InvalidBootloaderCommand(0x5A))
    ));
}

#[test]
fn get_erase_command_prefers_standard_erase() {
    let mut an = session(vec![ACK, 0x02, 0x31, 0x43, 0x44, ACK]);
    assert!(matches!(an.get_erase_command(), Ok(EraseCommand::Erase)));
}

#[test]
fn get_erase_command_falls_back_to_extended() {
    let mut an = session(vec![ACK, 0x01, 0x31, 0x44, ACK]);
    assert!(matches!(
        an.get_erase_command(),
        Ok(EraseCommand::ExtendedErase)
    ));
}

#[test]
fn get_erase_command_without_either_is_unsupported() {
    let mut an = session(vec![ACK, 0x01, 0x31, 0x21, ACK]);
    assert!(matches!(an.get_erase_command(), Err(Error::Unsupported)));
}

#[test]
fn standard_erase_sends_count_pages_and_checksum() {
    let mut an = session(vec![ACK, ACK]);
    an.standard_erase(&[0, 1, 2]).unwrap();
    let mut expected = vec![0x43, 0xBC];
    let payload = vec![2, 0, 1, 2];
    let chk = checksum(&payload);
    expected.extend_from_slice(&payload);
    expected.push(chk);
    assert_eq!(an.into_inner().written(), &expected);
}

#[test]
fn standard_erase_of_nothing_touches_nothing() {
    let mut an = session(vec![]);
    an.standard_erase(&[]).unwrap();
    assert!(an.into_inner().written().is_empty());
}

#[test]
fn standard_erase_count_boundary() {
    let too_many: Vec<u8> = vec![0; 256];
    let mut an = session(vec![]);
    assert!(matches!(
        an.standard_erase(&too_many),
        Err(Error::ErasePageCount(256))
    ));
    assert!(an.into_inner().written().is_empty());

    let just_right: Vec<u8> = (0..=254).collect();
    let mut an = session(vec![ACK, ACK]);
    assert!(an.standard_erase(&just_right).is_ok());
}

#[test]
fn standard_global_erase_sends_global_payload() {
    let mut an = session(vec![ACK, ACK]);
    an.standard_global_erase().unwrap();
    assert_eq!(an.into_inner().written(), &vec![0x43, 0xBC, 0xFF, 0x00]);
}

#[test]
fn extended_erase_sends_big_endian_count_and_pages() {
    let mut an = session(vec![ACK, ACK]);
    an.extended_erase(&[0x0001, 0x0102]).unwrap();
    let mut expected = vec![0x44, 0xBB];
    let payload = vec![0x00, 0x02, 0x00, 0x01, 0x01, 0x02];
    let chk = checksum(&payload);
    expected.extend_from_slice(&payload);
    expected.push(chk);
    assert_eq!(an.into_inner().written(), &expected);
}

#[test]
fn extended_erase_of_nothing_touches_nothing() {
    let mut an = session(vec![]);
    an.extended_erase(&[]).unwrap();
    assert!(an.into_inner().written().is_empty());
}

#[test]
fn extended_global_erase_sends_bank_sentinels() {
    let cases = [
        (BankErase::Global, vec![0x44, 0xBB, 0xFF, 0xFF, 0x00]),
        (BankErase::Bank1, vec![0x44, 0xBB, 0xFF, 0xFE, 0x01]),
        (BankErase::Bank2, vec![0x44, 0xBB, 0xFF, 0xFD, 0x02]),
    ];
    for (bank, expected) in cases {
        let mut an = session(vec![ACK, ACK]);
        an.extended_global_erase(bank).unwrap();
        assert_eq!(an.into_inner().written(), &expected);
    }
}

#[test]
fn write_memory_sends_address_frame_then_data_frame() {
    let mut an = session(vec![ACK, ACK, ACK]);
    an.write_memory(0x0800_0100, &[0xDE, 0xAD]).unwrap();
    let mut expected = vec![0x31, 0xCE];
    let addr = vec![0x08, 0x00, 0x01, 0x00];
    expected.extend_from_slice(&addr);
    expected.push(checksum(&addr));
    let data = vec![0x01, 0xDE, 0xAD];
    expected.extend_from_slice(&data);
    expected.push(checksum(&data));
    assert_eq!(an.into_inner().written(), &expected);
}

#[test]
fn write_memory_byte_count_boundary() {
    let too_many: Vec<u8> = vec![0; 257];
    let mut an = session(vec![]);
    assert!(matches!(
        an.write_memory(0x0800_0000, &too_many),
        Err(Error::WriteBytesCount(257))
    ));
    assert!(an.into_inner().written().is_empty());

    let just_right: Vec<u8> = vec![0xA5; 256];
    let mut an = session(vec![ACK, ACK, ACK]);
    an.write_memory(0x0800_0000, &just_right).unwrap();
    let written = an.into_inner().written().clone();
    // One single frame sequence: header, address frame, one data frame.
    assert_eq!(written.len(), 2 + 5 + 1 + 256 + 1);
    assert_eq!(written[7], 255);
}

#[test]
fn write_memory_of_nothing_touches_nothing() {
    let mut an = session(vec![]);
    an.write_memory(0x0800_0000, &[]).unwrap();
    assert!(an.into_inner().written().is_empty());
}

#[test]
fn read_memory_requests_count_and_fills_buffer() {
    let mut an = session(vec![ACK, ACK, 0x11, 0x22, 0x33, ACK]);
    let mut buf = vec![0u8; 3];
    an.read_memory(0x0800_0000, &mut buf).unwrap();
    assert_eq!(buf, vec![0x11, 0x22, 0x33]);
    let mut expected = vec![0x11, 0xEE];
    let addr = vec![0x08, 0x00, 0x00, 0x00];
    expected.extend_from_slice(&addr);
    expected.push(checksum(&addr));
    expected.push(0x02);
    expected.push(!0x02u8);
    assert_eq!(an.into_inner().written(), &expected);
}

#[test]
fn read_memory_byte_count_boundary() {
    let mut too_big = vec![0u8; 257];
    let mut an = session(vec![]);
    assert!(matches!(
        an.read_memory(0x0800_0000, &mut too_big),
        Err(Error::WriteBytesCount(257))
    ));

    let mut just_right = vec![0u8; 256];
    let mut input = vec![ACK, ACK];
    input.extend_from_slice(&[0x5A; 256]);
    input.push(ACK);
    let mut an = session(input);
    an.read_memory(0x0800_0000, &mut just_right).unwrap();
    assert_eq!(just_right, vec![0x5A; 256]);
}

#[test]
fn read_memory_of_nothing_touches_nothing() {
    let mut an = session(vec![]);
    let mut buf = Vec::new();
    an.read_memory(0x0800_0000, &mut buf).unwrap();
    assert!(buf.is_empty());
}
