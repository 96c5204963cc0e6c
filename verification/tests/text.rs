use pcl_seal::cert::{find_signing_cert, percent_decode, CertError};
use pcl_seal::digits::{read_hex_digit, read_u32, write_decimal, write_hex8, write_hex_digit};
use pcl_seal::hex::decode_spid;
use pcl_seal::text::{chars_of, remove_all, split_at_all, text_of};

fn chars(text: &str) -> Vec<char> {
    text.chars().collect()
}

fn decoded(text: &str) -> Option<String> {
    percent_decode(&chars(text)).map(|c| c.into_iter().collect())
}

fn pieces(text: &str, sep: &str) -> Vec<String> {
    split_at_all(&chars(text), &chars(sep)).into_iter().map(|p| p.into_iter().collect()).collect()
}

fn removed(text: &str, sep: &str) -> String {
    remove_all(&chars(text), &chars(sep)).into_iter().collect()
}

fn hex8(v: u32) -> String {
    let mut text = String::new();
    write_hex8(&mut text, v);
    text
}

fn decimal(n: usize) -> String {
    let mut text = String::new();
    write_decimal(&mut text, n);
    text
}

#[test]
fn chars_and_text_go_back_and_forth() {
    assert_eq!(chars_of("a\u{e9}\u{20ac}"), vec!['a', '\u{e9}', '\u{20ac}']);
    assert_eq!(text_of(&vec!['a', '\u{e9}', '\u{20ac}']), "a\u{e9}\u{20ac}");
    assert_eq!(chars_of(""), Vec::<char>::new());
    assert_eq!(text_of(&vec![]), "");
}

#[test]
fn split_finds_pieces_from_the_left() {
    assert_eq!(pieces("a--b--c", "--"), vec!["a", "b", "c"]);
    assert_eq!(pieces("a---b", "--"), vec!["a", "-b"]);
    assert_eq!(pieces("--", "--"), vec!["", ""]);
    assert_eq!(pieces("", "--"), vec![""]);
    assert_eq!(pieces("-", "--"), vec!["-"]);
    assert_eq!(pieces("abc", "--"), vec!["abc"]);
}

#[test]
fn split_agrees_with_std() {
    for text in ["", "-----", "a-----b", "------", "-----------", "x----y-----z-", "-----a-----"] {
        let expected: Vec<&str> = text.split("-----").collect();
        assert_eq!(pieces(text, "-----"), expected);
    }
}

#[test]
fn pieces_join_back() {
    for text in ["", "|", "a|b", "||", "a|b|c|"] {
        assert_eq!(pieces(text, "|").join("|"), text);
    }
}

#[test]
fn removal_agrees_with_std() {
    for text in ["", "%0A", "a%0Ab%0A", "%0%0AA", "%0a", "x%0A%0Ay"] {
        assert_eq!(removed(text, "%0A"), text.replace("%0A", ""));
    }
}

#[test]
fn hex8_is_eight_lower_case_digits() {
    assert_eq!(hex8(0), "00000000");
    assert_eq!(hex8(0xb1a), "00000b1a");
    assert_eq!(hex8(0x1234_abcd), "1234abcd");
    assert_eq!(hex8(u32::MAX), "ffffffff");
    for v in [0u32, 9, 10, 255, 256, 0x8000_0000] {
        assert_eq!(hex8(v), format!("{:08x}", v));
    }
}

#[test]
fn hex8_reads_back() {
    for v in [0u32, 1, 0xdead_beef, 0x0fed_cba9, u32::MAX] {
        let mut n: u32 = 0;
        for c in hex8(v).chars() {
            n = n * 16 + read_hex_digit(c).unwrap() as u32;
        }
        assert_eq!(n, v);
    }
}

#[test]
fn hex_digits_of_both_cases_are_read() {
    assert_eq!(read_hex_digit('0'), Some(0));
    assert_eq!(read_hex_digit('9'), Some(9));
    assert_eq!(read_hex_digit('a'), Some(10));
    assert_eq!(read_hex_digit('F'), Some(15));
    assert_eq!(read_hex_digit('g'), None);
    assert_eq!(read_hex_digit('/'), None);
    assert_eq!(read_hex_digit(':'), None);
    assert_eq!(read_hex_digit('@'), None);
    assert_eq!(read_hex_digit('`'), None);
    assert_eq!(read_hex_digit('\u{ff10}'), None);
    let mut text = String::from("x");
    write_hex_digit(&mut text, 11);
    assert_eq!(text, "xb");
}

#[test]
fn decimal_has_no_leading_zeros() {
    assert_eq!(decimal(0), "0");
    assert_eq!(decimal(9), "9");
    assert_eq!(decimal(10), "10");
    assert_eq!(decimal(1234567890), "1234567890");
    assert_eq!(decimal(usize::MAX), usize::MAX.to_string());
}

#[test]
fn decimal_reads_back_as_u32() {
    for n in [0usize, 7, 28, 99, 100, 4294967295] {
        assert_eq!(read_u32(decimal(n).as_bytes()), Some(n as u32));
    }
}

#[test]
fn u32_is_read_like_std_reads_it() {
    for text in [
        "", "0", "5", "007", "+7", "+", "++1", "-0", "-1", " 1", "1 ", "1a", "0x10", "4294967295",
        "4294967296", "99999999999999999999", "0000000000000000000000012",
    ] {
        assert_eq!(read_u32(text.as_bytes()), text.parse::<u32>().ok());
    }
    assert_eq!(read_u32(&[0xff]), None);
}

#[test]
fn percent_decoding_replaces_escapes() {
    assert_eq!(decoded("a%20b"), Some("a b".to_string()));
    assert_eq!(decoded("%2B%2f%3D"), Some("+/=".to_string()));
    assert_eq!(decoded("%e9"), Some("\u{e9}".to_string()));
    assert_eq!(decoded(""), Some(String::new()));
}

#[test]
fn percent_decoding_leaves_plain_text() {
    let plain = "-----BEGIN CERTIFICATE-----";
    assert_eq!(decoded(plain), Some(plain.to_string()));
}

#[test]
fn percent_decoding_refuses_broken_escapes() {
    assert_eq!(decoded("%"), None);
    assert_eq!(decoded("a%2"), None);
    assert_eq!(decoded("%zz"), None);
    assert_eq!(decoded("%2z"), None);
}

#[test]
fn signing_cert_is_the_first_body() {
    let chain = "-----BEGIN%20CERTIFICATE-----%0AMIIB%2B%0AAAA%3D%0A-----END%20CERTIFICATE-----%0A\
                 -----BEGIN%20CERTIFICATE-----%0AMIIC%0A-----END%20CERTIFICATE-----%0A";
    assert_eq!(find_signing_cert(chain), Ok("MIIB+AAA=".to_string()));
}

#[test]
fn signing_cert_errors() {
    assert_eq!(find_signing_cert("-----BEGIN%2"), Err(CertError::Encoding));
    assert_eq!(find_signing_cert(""), Err(CertError::Missing));
    assert_eq!(find_signing_cert("-----BEGIN%20CERTIFICATE"), Err(CertError::Missing));
}

#[test]
fn encoded_line_ends_go_before_decoding() {
    // The escape that is left when a line end is cut out of another is decoded.
    assert_eq!(find_signing_cert("----------%%0A41-----"), Ok("A".to_string()));
}

#[test]
fn spid_is_thirty_two_hex_digits() {
    let id = [
        0x00, 0x11, 0x22, 0x33, 0x44, 0x55, 0x66, 0x77, 0x88, 0x99, 0xaa, 0xbb, 0xcc, 0xdd, 0xee,
        0xff,
    ];
    assert_eq!(decode_spid("00112233445566778899aabbccddeeff"), Some(id));
    assert_eq!(decode_spid(" \t00112233445566778899AABBCCDDEEFF\r\n"), Some(id));
}

#[test]
fn other_spids_are_refused() {
    assert_eq!(decode_spid(""), None);
    assert_eq!(decode_spid("   "), None);
    assert_eq!(decode_spid("00112233445566778899aabbccddeef"), None);
    assert_eq!(decode_spid("00112233445566778899aabbccddeeff0"), None);
    assert_eq!(decode_spid("00112233445566778899aabbccddeefg"), None);
    assert_eq!(decode_spid("g0112233445566778899aabbccddeeff"), None);
    assert_eq!(decode_spid("0011223344556677 8899aabbccddeef"), None);
}

#[test]
fn spid_reads_back_from_its_digits() {
    let id = [7u8, 255, 16, 0, 1, 2, 3, 4, 5, 6, 0x7f, 0x80, 0xa0, 0x0a, 0xf0, 0x0f];
    let mut text = String::new();
    for b in id.iter() {
        write_hex_digit(&mut text, (*b / 16) as u32);
        write_hex_digit(&mut text, (*b % 16) as u32);
    }
    assert_eq!(decode_spid(&text), Some(id));
}
