use phpmailer_rs::encoding::encode_base64;

fn decode(text: &str) -> Vec<u8> {
    fn value(c: u8) -> u32 {
        match c {
            b'A'..=b'Z' => (c - b'A') as u32,
            b'a'..=b'z' => (c - b'a' + 26) as u32,
            b'0'..=b'9' => (c - b'0' + 52) as u32,
            b'+' => 62,
            b'/' => 63,
            _ => 0,
        }
    }
    let bytes = text.as_bytes();
    let mut out = Vec::new();
    for quad in bytes.chunks(4) {
        let v: Vec<u32> = quad.iter().map(|&c| value(c)).collect();
        out.push((v[0] * 4 + v[1] / 16) as u8);
        if quad[2] != b'=' {
            out.push(((v[1] % 16) * 16 + v[2] / 4) as u8);
        }
        if quad[3] != b'=' {
            out.push(((v[2] % 4) * 64 + v[3]) as u8);
        }
    }
    out
}

#[test]
fn encodes_rfc4648_vectors() {
    assert_eq!(encode_base64(b"".to_vec()), "");
    assert_eq!(encode_base64(b"f".to_vec()), "Zg==");
    assert_eq!(encode_base64(b"fo".to_vec()), "Zm8=");
    assert_eq!(encode_base64(b"foo".to_vec()), "Zm9v");
    assert_eq!(encode_base64(b"foob".to_vec()), "Zm9vYg==");
    assert_eq!(encode_base64(b"fooba".to_vec()), "Zm9vYmE=");
    assert_eq!(encode_base64(b"foobar".to_vec()), "Zm9vYmFy");
}

#[test]
fn encodes_all_alphabet_characters() {
    let data: Vec<u8> = vec![0x00, 0x10, 0x83, 0x10, 0x51, 0x87, 0x20, 0x92, 0x8b, 0x30, 0xd3, 0x8f, 0x41, 0x14, 0x93, 0x51, 0x55, 0x97, 0x61, 0x96, 0x9b, 0x71, 0xd7, 0x9f, 0x82, 0x18, 0xa3, 0x92, 0x59, 0xa7, 0xa2, 0x9a, 0xab, 0xb2, 0xdb, 0xaf, 0xc3, 0x1c, 0xb3, 0xd3, 0x5d, 0xb7, 0xe3, 0x9e, 0xbb, 0xf3, 0xdf, 0xbf];
    assert_eq!(
        encode_base64(data),
        "ABCDEFGHIJKLMNOPQRSTUVWXYZabcdefghijklmnopqrstuvwxyz0123456789+/"
    );
}

#[test]
fn encoded_length_is_four_per_started_group() {
    for n in 0..20usize {
        let data = vec![0xabu8; n];
        assert_eq!(encode_base64(data).len(), 4 * ((n + 2) / 3));
    }
}

#[test]
fn encoding_round_trips_through_decoding() {
    let samples: Vec<Vec<u8>> = vec![
        Vec::new(),
        vec![0],
        vec![255, 254],
        (0..=255u8).collect(),
        "héllo wörld".as_bytes().to_vec(),
    ];
    for sample in samples {
        let text = encode_base64(sample.clone());
        assert!(text
            .chars()
            .all(|c| c.is_ascii_alphanumeric() || c == '+' || c == '/' || c == '='));
        assert_eq!(decode(&text), sample);
    }
}

#[test]
fn encoding_splits_at_whole_groups() {
    let first = b"abcdef".to_vec();
    let rest = b"gh".to_vec();
    let mut whole = first.clone();
    whole.extend_from_slice(&rest);
    assert_eq!(
        encode_base64(whole),
        format!("{}{}", encode_base64(first), encode_base64(rest))
    );
}

#[test]
fn encodes_utf8_bytes() {
    assert_eq!(encode_base64("héllo".as_bytes().to_vec()), "aMOpbGxv");
}
