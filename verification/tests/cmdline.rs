use hyperlight_unikraft::cmdline::decode_header;
use hyperlight_unikraft::prepend_cmdline_to_initrd;

fn args(list: &[&str]) -> Vec<String> {
    list.iter().map(|s| s.to_string()).collect()
}

#[test]
fn nothing_for_no_image_and_no_arguments() {
    assert_eq!(prepend_cmdline_to_initrd(None, &[]), None);
}

#[test]
fn nothing_for_no_image_and_one_empty_argument() {
    assert_eq!(prepend_cmdline_to_initrd(None, &args(&[""])), None);
}

#[test]
fn image_unchanged_without_arguments() {
    let image: Vec<u8> = vec![1, 2, 3, 0, 255];
    assert_eq!(prepend_cmdline_to_initrd(Some(&image), &[]), Some(image.clone()));
    assert_eq!(prepend_cmdline_to_initrd(Some(&image), &args(&[""])), Some(image.clone()));
    let empty: Vec<u8> = Vec::new();
    assert_eq!(prepend_cmdline_to_initrd(Some(&empty), &[]), Some(Vec::new()));
}

#[test]
fn header_only_blob_for_one_argument() {
    let blob = prepend_cmdline_to_initrd(None, &args(&["/hello.py"])).unwrap();
    assert_eq!(blob.len(), 4096);
    assert_eq!(&blob[0..8], b"HLCMDLN\0");
    assert_eq!(&blob[8..12], &[9, 0, 0, 0]);
    assert_eq!(&blob[12..21], b"/hello.py");
    assert!(blob[21..].iter().all(|b| *b == 0));
}

#[test]
fn arguments_are_joined_by_single_spaces() {
    let blob = prepend_cmdline_to_initrd(None, &args(&["a", "bc", "", "d"])).unwrap();
    assert_eq!(&blob[8..12], &[7, 0, 0, 0]);
    assert_eq!(&blob[12..19], b"a bc  d");
    assert_eq!(blob[19], 0);
    let blob = prepend_cmdline_to_initrd(None, &args(&["", ""])).unwrap();
    assert_eq!(&blob[8..12], &[1, 0, 0, 0]);
    assert_eq!(&blob[12..14], b" \0");
}

#[test]
fn no_separator_token_is_added() {
    let blob = prepend_cmdline_to_initrd(None, &args(&["/app/hello.js"])).unwrap();
    assert_eq!(&blob[12..25], b"/app/hello.js");
    assert_eq!(&blob[8..12], &[13, 0, 0, 0]);
}

#[test]
fn image_follows_at_the_page_boundary() {
    let image: Vec<u8> = (0..=255u8).collect();
    let blob = prepend_cmdline_to_initrd(Some(&image), &args(&["x", "y"])).unwrap();
    assert_eq!(blob.len(), 4096 + 256);
    assert_eq!(&blob[4096..], &image[..]);
    assert!(blob[16..4096].iter().all(|b| *b == 0));
}

#[test]
fn length_field_is_little_endian() {
    let long = "a".repeat(0x0102);
    let blob = prepend_cmdline_to_initrd(None, &args(&[&long])).unwrap();
    assert_eq!(&blob[8..12], &[0x02, 0x01, 0, 0]);
    let longer = "b".repeat(0x01_0203);
    let blob = prepend_cmdline_to_initrd(None, &args(&[&longer])).unwrap();
    assert_eq!(&blob[8..12], &[0x03, 0x02, 0x01, 0]);
    assert_eq!(blob.len() % 4096, 0);
    assert_eq!(blob.len(), 69632);
}

#[test]
fn padding_at_the_page_edges() {
    // 13 + 4083 = 4096: no padding at all.
    let exact = "c".repeat(4083);
    let blob = prepend_cmdline_to_initrd(Some(&[7u8][..]), &args(&[&exact])).unwrap();
    assert_eq!(blob.len(), 4097);
    assert_eq!(blob[4095], 0);
    assert_eq!(blob[4094], b'c');
    assert_eq!(blob[4096], 7);
    // One byte more spills into a second page.
    let over = "c".repeat(4084);
    let blob = prepend_cmdline_to_initrd(Some(&[7u8][..]), &args(&[&over])).unwrap();
    assert_eq!(blob.len(), 8193);
    assert_eq!(blob[8192], 7);
    // One byte less leaves one byte of padding.
    let under = "c".repeat(4082);
    let blob = prepend_cmdline_to_initrd(Some(&[7u8][..]), &args(&[&under])).unwrap();
    assert_eq!(blob.len(), 4097);
    assert_eq!(blob[4094], 0);
    assert_eq!(blob[4095], 0);
}

#[test]
fn command_line_is_encoded_as_utf8() {
    let blob = prepend_cmdline_to_initrd(None, &args(&["é", "日本"])).unwrap();
    assert_eq!(&blob[8..12], &[9, 0, 0, 0]);
    assert_eq!(&blob[12..21], "é 日本".as_bytes());
}

#[test]
fn decoding_recovers_the_command_line() {
    let image: Vec<u8> = vec![9, 8, 7];
    for list in [
        args(&["/hello.py"]),
        args(&["a", "b", "c"]),
        args(&["--flag", "value with space", "ü"]),
        args(&["", ""]),
    ] {
        for image in [None, Some(&image[..])] {
            let blob = prepend_cmdline_to_initrd(image, &list).unwrap();
            let header = decode_header(&blob).unwrap();
            assert_eq!(header.cmdline, list.join(" "));
            assert_eq!(header.payload_offset % 4096, 0);
            assert_eq!(&blob[header.payload_offset..], image.unwrap_or(&[]));
        }
    }
}

#[test]
fn decoding_refuses_what_is_no_header() {
    assert!(decode_header(&[]).is_none());
    assert!(decode_header(b"HLCMDLN\0").is_none());
    assert!(decode_header(&[0u8; 4096]).is_none());
    let good = prepend_cmdline_to_initrd(None, &args(&["abc"])).unwrap();
    assert!(decode_header(&good).is_some());
    // Wrong magic.
    let mut blob = good.clone();
    blob[0] = b'h';
    assert!(decode_header(&blob).is_none());
    // Truncated before the page boundary.
    assert!(decode_header(&good[..4095]).is_none());
    // A length that runs past the end.
    let mut blob = good.clone();
    blob[9] = 0x10;
    assert!(decode_header(&blob).is_none());
    // No terminator after the command line.
    let mut blob = good.clone();
    blob[15] = b'x';
    assert!(decode_header(&blob).is_none());
    // Padding that is not zero.
    let mut blob = good.clone();
    blob[4095] = 1;
    assert!(decode_header(&blob).is_none());
    // A command line that is not UTF-8.
    let mut blob = good.clone();
    blob[12] = 0xff;
    assert!(decode_header(&blob).is_none());
}
