use udpcapture::reply::{reply_packets, OutputWrapper};

#[test]
fn packet_for_success() {
    let o = OutputWrapper { stdout: b"hi".to_vec(), stderr: Vec::new(), status_code: 0 };
    assert_eq!(
        o.to_packet(),
        b"ack-ok\n0\narb-cmd-stdout\nhi\narb-cmd-stderr\n".to_vec()
    );
}

#[test]
fn packet_for_failure() {
    let o = OutputWrapper { stdout: Vec::new(), stderr: b"boom".to_vec(), status_code: -1 };
    assert_eq!(
        o.to_packet(),
        b"error\n-1\narb-cmd-stdout\n\narb-cmd-stderr\nboom".to_vec()
    );
    let o = OutputWrapper { stdout: Vec::new(), stderr: Vec::new(), status_code: 127 };
    assert!(o.to_packet().starts_with(b"error\n127\n"));
}

#[test]
fn packets_are_padded_and_numbered() {
    let bytes: Vec<u8> = (0..1025u32).map(|i| (i % 200) as u8 + 1).collect();
    let p = reply_packets(&bytes);
    assert_eq!(p.len(), 3);
    assert_eq!(p[0].len(), 1025);
    assert_eq!(&p[0][..1024], &bytes[..1024]);
    assert_eq!(p[0][1024], 0);
    assert_eq!(p[1].len(), 1025);
    assert_eq!(p[1][0], bytes[1024]);
    assert!(p[1][1..1024].iter().all(|b| *b == 0));
    assert_eq!(p[1][1024], 1);
    assert_eq!(p[2], b"finished".to_vec());
}

#[test]
fn empty_reply_is_only_the_end() {
    let p = reply_packets(&Vec::new());
    assert_eq!(p, vec![b"finished".to_vec()]);
    let p = reply_packets(&vec![5u8; 2048]);
    assert_eq!(p.len(), 3);
    assert_eq!(p[1][1024], 1);
    assert_eq!(p[1][1023], 5);
}

#[test]
fn packet_numbers_wrap() {
    let p = reply_packets(&vec![1u8; 1024 * 257]);
    assert_eq!(p.len(), 258);
    assert_eq!(p[255][1024], 255);
    assert_eq!(p[256][1024], 0);
}

#[test]
fn status_extremes_in_decimal() {
    let o = OutputWrapper { stdout: Vec::new(), stderr: Vec::new(), status_code: i32::MIN };
    assert!(o.to_packet().starts_with(b"error\n-2147483648\narb-cmd-stdout\n"));
    let o = OutputWrapper { stdout: Vec::new(), stderr: Vec::new(), status_code: 9 };
    assert!(o.to_packet().starts_with(b"error\n9\narb"));
    let o = OutputWrapper { stdout: Vec::new(), stderr: Vec::new(), status_code: 10 };
    assert!(o.to_packet().starts_with(b"error\n10\narb"));
}
