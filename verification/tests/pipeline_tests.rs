use elf2nucleus::image::{extract_firmware, PipelineError};

/// The firmware bytes of a small blink program for an ATtiny85, as the
/// object-copy tool reports them.
fn sample_firmware() -> Vec<u8> {
    vec![
        14, 192, 29, 192, 28, 192, 27, 192, 26, 192, 25, 192, 24, 192, 23, 192, 22, 192, 21, 192,
        20, 192, 19, 192, 18, 192, 17, 192, 16, 192, 17, 36, 31, 190, 207, 229, 210, 224, 222,
        191, 205, 191, 32, 224, 160, 230, 176, 224, 1, 192, 29, 146, 161, 54, 178, 7, 225, 247, 2,
        208, 188, 192, 224, 207, 1, 208, 181, 208, 207, 146, 223, 146, 239, 146, 255, 146, 15,
        147, 31, 147, 143, 183, 248, 148, 144, 145, 96, 0, 144, 48, 9, 240, 160, 192, 145, 224,
        144, 147, 96, 0, 143, 191, 193, 152, 185, 154, 193, 154, 64, 224, 80, 224, 42, 239, 63,
        225, 140, 227, 146, 224, 124, 1, 108, 231, 116, 224, 236, 225, 241, 224, 140, 227, 157,
        224, 108, 1, 193, 154, 138, 1, 202, 1, 217, 1, 17, 151, 241, 247, 161, 224, 9, 55, 17, 5,
        132, 7, 149, 7, 8, 240, 161, 45, 161, 112, 15, 95, 31, 79, 143, 79, 159, 79, 160, 48, 121,
        247, 199, 1, 1, 151, 241, 247, 193, 152, 138, 1, 202, 1, 217, 1, 17, 151, 241, 247, 161,
        224, 3, 63, 17, 5, 132, 7, 149, 7, 8, 240, 161, 45, 161, 112, 15, 95, 31, 79, 143, 79,
        159, 79, 160, 48, 121, 247, 203, 1, 1, 151, 241, 247, 193, 154, 138, 1, 202, 1, 217, 1,
        17, 151, 241, 247, 161, 224, 12, 51, 17, 5, 132, 7, 149, 7, 8, 240, 161, 45, 161, 112, 15,
        95, 31, 79, 143, 79, 159, 79, 160, 48, 121, 247, 207, 1, 1, 151, 241, 247, 193, 152, 138,
        1, 202, 1, 217, 1, 17, 151, 241, 247, 161, 224, 7, 49, 17, 5, 132, 7, 149, 7, 8, 240, 161,
        45, 161, 112, 15, 95, 31, 79, 143, 79, 159, 79, 160, 48, 121, 247, 198, 1, 1, 151, 241,
        247, 193, 154, 138, 1, 202, 1, 217, 1, 17, 151, 241, 247, 161, 224, 12, 51, 17, 5, 132, 7,
        149, 7, 8, 240, 161, 45, 161, 112, 15, 95, 31, 79, 143, 79, 159, 79, 160, 48, 121, 247,
        207, 1, 1, 151, 241, 247, 193, 152, 138, 1, 202, 1, 217, 1, 17, 151, 241, 247, 161, 224,
        3, 63, 17, 5, 132, 7, 149, 7, 8, 240, 161, 45, 161, 112, 15, 95, 31, 79, 143, 79, 159, 79,
        160, 48, 121, 247, 203, 1, 1, 151, 241, 247, 117, 207, 143, 191, 3, 208, 5, 208, 3, 208,
        3, 208, 253, 223, 1, 208, 255, 207, 129, 224, 144, 224, 248, 148, 0, 192, 248, 148, 255,
        207,
    ]
}

/// Serialize data records through the ihex writer, 16 payload bytes per
/// record, the way the object-copy tool lays a contiguous image out.
fn to_ihex_text(firmware: &[u8]) -> String {
    let mut records = Vec::new();
    for (index, chunk) in firmware.chunks(16).enumerate() {
        records.push(ihex::Record::Data {
            offset: (index * 16) as u16,
            value: chunk.to_vec(),
        });
    }
    records.push(ihex::Record::EndOfFile);
    ihex::create_object_file_representation(&records).expect("serializing records")
}

#[test]
fn parse_elf() {
    let expected = sample_firmware();
    let text = to_ihex_text(&expected);
    let image = extract_firmware(true, Some(0), text.as_bytes()).expect("extraction succeeds");
    assert_eq!(image.bytes, expected);
}

#[test]
fn tool_failure_propagates_and_yields_no_image() {
    let text = to_ihex_text(&sample_firmware());
    let result = extract_firmware(false, Some(1), text.as_bytes());
    assert_eq!(
        result,
        Err(PipelineError::ExternalToolFailed { code: Some(1) })
    );
}

#[test]
fn tool_killed_by_signal_propagates() {
    let result = extract_firmware(false, None, b"");
    assert_eq!(result, Err(PipelineError::ExternalToolFailed { code: None }));
}

#[test]
fn invalid_text_output_is_rejected() {
    let result = extract_firmware(true, Some(0), &[0xff, 0xfe, 0x20]);
    assert_eq!(result, Err(PipelineError::InvalidEncoding));
}

#[test]
fn empty_output_yields_empty_image() {
    let image = extract_firmware(true, Some(0), b"").expect("empty stream is not an error");
    assert_eq!(image.bytes, Vec::<u8>::new());
}

#[test]
fn stream_without_data_records_yields_empty_image() {
    let text = ":020000021000EC\n:00000001FF\n";
    let image = extract_firmware(true, Some(0), text.as_bytes()).expect("no error");
    assert_eq!(image.bytes, Vec::<u8>::new());
}
