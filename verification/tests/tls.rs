use tsoracle::node::tls::{read_pem, server_pem, tried_out, FileRead};

/// A certificate for `localhost`, signed by itself, of the Ed25519 key that is all sevens.
const CERTIFICATE: &str = "\
    308201013081b4a003020102020101300506032b657030143112301006035504030c096c6f63616c\
    686f73743020170d3230303130313030303030305a180f32313230303130313030303030305a3014\
    3112301006035504030c096c6f63616c686f7374302a300506032b6570032100ea4a6c63e29c520a\
    bef5507b132ec5f9954776aebebe7b92421eea691446d22ca329302730140603551d11040d300b82\
    096c6f63616c686f7374300f0603551d130101ff040530030101ff300506032b6570034100069b3c\
    3555e74f7722201df87f2cbb4b30787aa46b81c396b02cea34030242fd581cdd2c220b6c5746a8bf\
    8b6add420c175957b12bc3bd9c7f0ce8504bcd6407";

fn base64(bytes: &[u8]) -> String {
    let alphabet = b"ABCDEFGHIJKLMNOPQRSTUVWXYZabcdefghijklmnopqrstuvwxyz0123456789+/";
    let mut text = String::new();
    for chunk in bytes.chunks(3) {
        let byte = |i: usize| chunk.get(i).copied().unwrap_or(0) as usize;
        let bits = byte(0) << 16 | byte(1) << 8 | byte(2);
        for place in 0..4 {
            if place <= chunk.len() {
                text.push(alphabet[bits >> (18 - 6 * place) & 63] as char);
            } else {
                text.push('=');
            }
        }
    }
    text
}

fn pem(label: &str, bytes: &[u8]) -> Vec<u8> {
    let dashes = "-".repeat(5);
    format!(
        "{dashes}BEGIN {label}{dashes}\n{}\n{dashes}END {label}{dashes}\n",
        base64(bytes)
    )
    .into_bytes()
}

fn certificate() -> Vec<u8> {
    let digits: Vec<char> = CERTIFICATE.chars().collect();
    let bytes: Vec<u8> = digits
        .chunks(2)
        .map(|pair| (pair[0].to_digit(16).unwrap() * 16 + pair[1].to_digit(16).unwrap()) as u8)
        .collect();
    pem("CERTIFICATE", &bytes)
}

fn key(seed: u8) -> Vec<u8> {
    let mut bytes: Vec<u8> = vec![
        0x30, 0x2e, 2, 1, 0, 0x30, 5, 6, 3, 0x2b, 0x65, 0x70, 4, 0x22, 4, 0x20,
    ];
    bytes.extend([seed; 32]);
    pem("PRIVATE KEY", &bytes)
}

fn file(shown: &str, bytes: Vec<u8>) -> FileRead {
    FileRead {
        shown: shown.into(),
        bytes: Ok(bytes),
    }
}

fn missing(shown: &str) -> FileRead {
    FileRead {
        shown: shown.into(),
        bytes: Err("no such file".into()),
    }
}

#[test]
fn a_good_pair_is_accepted() {
    let read = server_pem(file("c", certificate()), file("k", key(7)), None).unwrap();
    assert_eq!(read.cert, certificate());
    assert_eq!(read.key, key(7));
    assert!(read.ca.is_none());
}

#[test]
fn a_good_pair_with_an_authority_is_accepted() {
    let ca = Some(file("a", certificate()));
    let read = server_pem(file("c", certificate()), file("k", key(7)), ca).unwrap();
    assert_eq!(read.ca, Some(certificate()));
}

#[test]
fn what_no_server_takes_is_reported_at_once() {
    let garbage = || b"not pem".to_vec();
    for (cert, key_bytes, ca) in [
        (garbage(), key(7), None),
        (certificate(), garbage(), None),
        (certificate(), key(8), None),
        (certificate(), key(7), Some(garbage())),
        (Vec::new(), Vec::new(), None),
    ] {
        let client_ca = ca.map(|bytes| file("a", bytes));
        let (line, cause) =
            server_pem(file("c", cert), file("k", key_bytes), client_ca).unwrap_err();
        assert_eq!(line, "invalid client-API TLS configuration");
        assert!(!cause.is_empty());
    }
}

#[test]
fn the_cause_names_what_is_wrong() {
    let (_, cause) =
        server_pem(file("c", certificate()), file("k", b"x".to_vec()), None).unwrap_err();
    assert!(cause.contains("private key"), "got: {cause}");
}

#[test]
fn the_first_file_that_cannot_be_read_is_reported() {
    let failed = |shown: &str| Some((format!("read {shown}"), "no such file".to_string()));
    let ca = || Some(missing("a"));
    assert_eq!(server_pem(missing("c"), missing("k"), ca()).err(), failed("c"));
    let cert = || file("c", certificate());
    assert_eq!(server_pem(cert(), missing("k"), ca()).err(), failed("k"));
    assert_eq!(server_pem(cert(), file("k", key(7)), ca()).err(), failed("a"));
    assert_eq!(read_pem(cert(), file("k", key(7)), ca()).err(), failed("a"));
    assert_eq!(read_pem(missing("c"), missing("k"), None).err(), failed("c"));
}

#[test]
fn reading_alone_tries_nothing_out() {
    let read = read_pem(file("c", vec![1]), file("k", vec![2]), Some(file("a", vec![3]))).unwrap();
    assert_eq!((read.cert, read.key, read.ca), (vec![1], vec![2], Some(vec![3])));
}

#[test]
fn an_outcome_is_told() {
    assert_eq!(tried_out(Ok(())), Ok(()));
    assert_eq!(
        tried_out(Err("why".into())),
        Err(("invalid client-API TLS configuration".into(), "why".into()))
    );
}
