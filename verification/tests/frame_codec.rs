use ceros_serial::protocol::{
    category_code, header_bytes, prepend_header, sniff_header, CEROSSerial, DataType,
};

fn categories() -> Vec<DataType> {
    vec![DataType::Print, DataType::Error, DataType::KernelLog]
}

fn payloads() -> Vec<Vec<u8>> {
    let mut long_plain: Vec<u8> = Vec::new();
    let mut long_mixed: Vec<u8> = Vec::new();
    for i in 0..700usize {
        long_plain.push((i % 255) as u8 + 1);
        long_mixed.push((i % 7) as u8);
    }
    vec![
        vec![],
        vec![0x00],
        vec![0x00, 0x00, 0x00],
        vec![0x41, 0x00, 0x42],
        b"hello".to_vec(),
        b"sout".to_vec(),
        vec![0x37, 0x31, 0x32, 0x32, 0x02],
        vec![0xff; 249],
        vec![0xff; 250],
        vec![0xff; 254],
        long_plain,
        long_mixed,
        vec![0x00; 600],
    ]
}

fn zero_only_at_end(packet: &[u8]) -> bool {
    match packet.split_last() {
        Some((last, body)) => *last == 0 && body.iter().all(|b| *b != 0),
        None => false,
    }
}

#[test]
fn category_codes_are_zero_one_two() {
    assert_eq!(category_code(DataType::Print), 0x00);
    assert_eq!(category_code(DataType::Error), 0x01);
    assert_eq!(category_code(DataType::KernelLog), 0x02);
}

#[test]
fn native_header_is_magic_and_code() {
    assert_eq!(header_bytes(false, DataType::Print), vec![0x37, 0x31, 0x32, 0x32, 0x00]);
    assert_eq!(header_bytes(false, DataType::Error), vec![0x37, 0x31, 0x32, 0x32, 0x01]);
    assert_eq!(header_bytes(false, DataType::KernelLog), vec![0x37, 0x31, 0x32, 0x32, 0x02]);
}

#[test]
fn compat_header_is_ascii_tag() {
    assert_eq!(header_bytes(true, DataType::Print), b"sout".to_vec());
    assert_eq!(header_bytes(true, DataType::Error), b"serr".to_vec());
    assert_eq!(header_bytes(true, DataType::KernelLog), b"kdbg".to_vec());
}

#[test]
fn prepend_header_keeps_payload_behind_header() {
    assert_eq!(
        prepend_header(false, DataType::Error, vec![0x41, 0x00, 0x42]),
        vec![0x37, 0x31, 0x32, 0x32, 0x01, 0x41, 0x00, 0x42]
    );
    assert_eq!(prepend_header(true, DataType::KernelLog, b"hello".to_vec()), b"kdbghello".to_vec());
    assert_eq!(prepend_header(true, DataType::Print, vec![]), b"sout".to_vec());
}

#[test]
fn native_error_packet_scenario() {
    let framer = CEROSSerial::new();
    let packet = framer.create_serial_packet(DataType::Error, vec![0x41, 0x00, 0x42]);
    assert!(!packet.is_empty());
    assert!(zero_only_at_end(&packet));
    assert_eq!(packet, vec![0x07, 0x37, 0x31, 0x32, 0x32, 0x01, 0x41, 0x02, 0x42, 0x00]);
    assert_eq!(framer.parse_serial_packet(packet), (DataType::Error, vec![0x41, 0x00, 0x42]));
}

#[test]
fn compat_kernel_log_packet_scenario() {
    let framer = CEROSSerial::new_pros();
    let content = prepend_header(true, DataType::KernelLog, b"hello".to_vec());
    assert_eq!(&content[..4], b"kdbg");
    let packet = framer.create_serial_packet(DataType::KernelLog, b"hello".to_vec());
    assert_eq!(
        packet,
        vec![0x0a, 0x6b, 0x64, 0x62, 0x67, 0x68, 0x65, 0x6c, 0x6c, 0x6f, 0x00]
    );
    assert_eq!(framer.parse_serial_packet(packet), (DataType::KernelLog, b"hello".to_vec()));
}

#[test]
fn round_trip_native() {
    let framer = CEROSSerial::new();
    for category in categories() {
        for payload in payloads() {
            let packet = framer.create_serial_packet(category, payload.clone());
            assert_eq!(framer.parse_serial_packet(packet), (category, payload));
        }
    }
}

#[test]
fn round_trip_compat() {
    let framer = CEROSSerial::new_pros();
    for category in categories() {
        for payload in payloads() {
            let packet = framer.create_serial_packet(category, payload.clone());
            assert_eq!(framer.parse_serial_packet(packet), (category, payload));
        }
    }
}

#[test]
fn round_trip_without_delimiter() {
    let native = CEROSSerial::new();
    let compat = CEROSSerial::new_pros();
    for category in categories() {
        for payload in payloads() {
            let mut packet = native.create_serial_packet(category, payload.clone());
            assert_eq!(packet.pop(), Some(0x00));
            assert_eq!(native.parse_serial_packet(packet), (category, payload.clone()));
            let mut packet = compat.create_serial_packet(category, payload.clone());
            assert_eq!(packet.pop(), Some(0x00));
            assert_eq!(compat.parse_serial_packet(packet), (category, payload));
        }
    }
}

#[test]
fn packets_hold_no_zero_but_the_delimiter() {
    let native = CEROSSerial::new();
    let compat = CEROSSerial::new_pros();
    for category in categories() {
        for payload in payloads() {
            assert!(zero_only_at_end(&native.create_serial_packet(category, payload.clone())));
            assert!(zero_only_at_end(&compat.create_serial_packet(category, payload)));
        }
    }
}

#[test]
fn packet_is_cut_at_its_delimiter() {
    // 5 + 250 = 255 bytes of content with zeros in it: the encoded form is one
    // byte shorter than the worst case for 255 bytes.
    let mut payload = vec![0x11u8; 250];
    payload[100] = 0x00;
    let packet = CEROSSerial::new().create_serial_packet(DataType::Print, payload);
    assert_eq!(packet.len(), 257);
    assert!(zero_only_at_end(&packet));
    // 254 bytes of content without a zero need the worst case exactly.
    let packet = CEROSSerial::new_pros().create_serial_packet(DataType::Print, vec![0x11u8; 250]);
    assert_eq!(packet.len(), 256);
    assert_eq!(packet[0], 0xff);
    assert!(zero_only_at_end(&packet));
}

#[test]
fn compat_frame_is_parsed_by_native_framer() {
    let native = CEROSSerial::new();
    let compat = CEROSSerial::new_pros();
    for category in categories() {
        for payload in payloads() {
            let packet = compat.create_serial_packet(category, payload.clone());
            assert_eq!(native.parse_serial_packet(packet), (category, payload));
        }
    }
}

#[test]
fn native_frame_is_parsed_by_compat_framer() {
    let native = CEROSSerial::new();
    let compat = CEROSSerial::new_pros();
    for category in categories() {
        for payload in payloads() {
            let packet = native.create_serial_packet(category, payload.clone());
            assert_eq!(compat.parse_serial_packet(packet), (category, payload));
        }
    }
}

#[test]
fn variants_differ_only_in_the_header() {
    let native = CEROSSerial::new().create_serial_packet(DataType::Print, b"x".to_vec());
    let compat = CEROSSerial::new_pros().create_serial_packet(DataType::Print, b"x".to_vec());
    assert_eq!(native, vec![0x05, 0x37, 0x31, 0x32, 0x32, 0x02, 0x78, 0x00]);
    assert_eq!(compat, vec![0x06, 0x73, 0x6f, 0x75, 0x74, 0x78, 0x00]);
}

#[test]
fn malformed_input_is_empty_print() {
    let framer = CEROSSerial::new();
    let inputs: Vec<Vec<u8>> = vec![
        vec![],
        vec![0x00],
        vec![0x00, 0x00],
        // a run that claims more bytes than there are
        vec![0x05, 0x41],
        vec![0x05, 0x41, 0x00],
        vec![0xff; 40],
        // decodes to "A", which is no header
        vec![0x02, 0x41, 0x00],
        vec![0x02, 0x41],
        // decodes to "sou": a tag cut short
        vec![0x04, 0x73, 0x6f, 0x75, 0x00],
        // decodes to "xout"
        vec![0x05, 0x78, 0x6f, 0x75, 0x74, 0x00],
    ];
    for input in inputs {
        assert_eq!(framer.parse_serial_packet(input.clone()), (DataType::Print, vec![]));
        assert_eq!(
            CEROSSerial::new_pros().parse_serial_packet(input),
            (DataType::Print, vec![])
        );
    }
}

#[test]
fn unknown_category_code_discards_content() {
    let framer = CEROSSerial::new();
    // magic, code 3, "hi"
    let packet = vec![0x08, 0x37, 0x31, 0x32, 0x32, 0x03, 0x68, 0x69, 0x00];
    assert_eq!(framer.parse_serial_packet(packet), (DataType::Print, vec![]));
    let packet = vec![0x08, 0x37, 0x31, 0x32, 0x32, 0xff, 0x68, 0x69, 0x00];
    assert_eq!(framer.parse_serial_packet(packet), (DataType::Print, vec![]));
}

#[test]
fn magic_without_code_is_empty_print() {
    let framer = CEROSSerial::new();
    let packet = vec![0x05, 0x37, 0x31, 0x32, 0x32, 0x00];
    assert_eq!(framer.parse_serial_packet(packet), (DataType::Print, vec![]));
    assert_eq!(sniff_header(vec![0x37, 0x31, 0x32, 0x32]), (DataType::Print, vec![]));
}

#[test]
fn sniff_header_reads_compat_tags() {
    assert_eq!(sniff_header(b"soutabc".to_vec()), (DataType::Print, b"abc".to_vec()));
    assert_eq!(sniff_header(b"serrabc".to_vec()), (DataType::Error, b"abc".to_vec()));
    assert_eq!(sniff_header(b"kdbgabc".to_vec()), (DataType::KernelLog, b"abc".to_vec()));
    assert_eq!(sniff_header(b"kdbg".to_vec()), (DataType::KernelLog, vec![]));
}

#[test]
fn sniff_header_reads_native_header() {
    assert_eq!(
        sniff_header(vec![0x37, 0x31, 0x32, 0x32, 0x00, 0x09]),
        (DataType::Print, vec![0x09])
    );
    assert_eq!(
        sniff_header(vec![0x37, 0x31, 0x32, 0x32, 0x01, 0x00, 0x09]),
        (DataType::Error, vec![0x00, 0x09])
    );
    assert_eq!(sniff_header(vec![0x37, 0x31, 0x32, 0x32, 0x02]), (DataType::KernelLog, vec![]));
}

#[test]
fn sniff_header_rejects_the_rest() {
    assert_eq!(sniff_header(vec![]), (DataType::Print, vec![]));
    assert_eq!(sniff_header(b"sou".to_vec()), (DataType::Print, vec![]));
    assert_eq!(sniff_header(b"SOUTabc".to_vec()), (DataType::Print, vec![]));
    assert_eq!(sniff_header(vec![0x37, 0x31, 0x32, 0x33, 0x01, 0x41]), (DataType::Print, vec![]));
    assert_eq!(sniff_header(vec![0x37, 0x31, 0x32, 0x32, 0x03, 0x41]), (DataType::Print, vec![]));
    assert_eq!(sniff_header(vec![0x41, 0x73, 0x6f, 0x75, 0x74]), (DataType::Print, vec![]));
}

#[test]
fn can_frame_tells_what_fits() {
    let native = CEROSSerial::new();
    let compat = CEROSSerial::new_pros();
    assert!(native.can_frame(DataType::Print, 0));
    assert!(compat.can_frame(DataType::KernelLog, 1 << 20));
    assert!(!native.can_frame(DataType::Error, usize::MAX));
    assert!(!compat.can_frame(DataType::Error, usize::MAX - 4));
    // The true bound, computed in wider arithmetic
    for data_len in [usize::MAX - (usize::MAX / 254), usize::MAX - (usize::MAX / 128), usize::MAX / 255 * 253] {
        for back in 0..600usize {
            let data_len = data_len - back;
            for (framer, head) in [(&native, 5u128), (&compat, 4u128)] {
                let raw = data_len as u128 + head;
                let worst = raw + (raw + 253) / 254 + 1;
                assert_eq!(
                    framer.can_frame(DataType::Print, data_len),
                    worst <= usize::MAX as u128
                );
            }
        }
    }
}

#[test]
fn parse_takes_any_input() {
    let framer = CEROSSerial::new();
    let mut state: u32 = 0x9e37_79b9;
    for round in 0..600usize {
        let mut input: Vec<u8> = Vec::new();
        for _ in 0..(round % 300) {
            state = state.wrapping_mul(1_664_525).wrapping_add(1_013_904_223);
            input.push((state >> 24) as u8);
        }
        let (data_type, data) = framer.parse_serial_packet(input.clone());
        assert!(data.len() <= input.len());
        if data_type != DataType::Print {
            assert!(input.len() >= 5);
        }
    }
}
