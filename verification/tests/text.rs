use pegin_descriptors::fragment::{
    clone_keys, push_emergency_text, push_multi_text, push_pegin_text,
};
use pegin_descriptors::key::{LegacyPeginKey, PublicKey};
use pegin_descriptors::pegin::parse_functionary_keys;
use pegin_descriptors::pegin_text::{literal_at, scan_keys, scan_multi, scan_number, scan_pegin_body};
use pegin_descriptors::script::{append_bytes, v0_p2wsh};
use pegin_descriptors::text::{
    append_chars, append_str, push_decimal, push_hex, slice_chars, starts_with,
};

const KEY_A: &str = "020e0338c96a8870479f2396c373cc7696ba124e8635d41b0ea581112b67817261";
const KEY_B: &str = "02675333a4e4b8fb51d9d4e22fa5a8eaced3fdac8a8cbf9be8c030f75712e6af99";

fn chars(s: &str) -> Vec<char> {
    s.chars().collect()
}

fn text(v: &[char]) -> String {
    v.iter().collect()
}

fn keys() -> Vec<LegacyPeginKey> {
    vec![
        LegacyPeginKey::Functionary(PublicKey::from_str(KEY_A).unwrap()),
        LegacyPeginKey::NonFunctionary(PublicKey::from_str(KEY_B).unwrap()),
    ]
}

#[test]
fn decimal_text_has_no_leading_zeros() {
    for (n, expected) in [
        (0u64, "0"),
        (7, "7"),
        (10, "10"),
        (4032, "4032"),
        (u64::MAX, "18446744073709551615"),
    ] {
        let mut out = chars("x");
        push_decimal(&mut out, n);
        assert_eq!(text(&out), format!("x{}", expected));
    }
}

#[test]
fn hex_text_is_lower_case_with_two_digits_a_byte() {
    let mut out = chars(">");
    push_hex(&mut out, &vec![0x00, 0x0f, 0xa0, 0xff, 0x5b]);
    assert_eq!(text(&out), ">000fa0ff5b");
}

#[test]
fn appending_and_slicing() {
    let mut out = chars("ab");
    append_str(&mut out, "cd");
    append_chars(&mut out, &chars("ef"));
    assert_eq!(text(&out), "abcdef");
    assert_eq!(slice_chars(&out, 1, 4), chars("bcd"));
    assert_eq!(slice_chars(&out, 3, 3), chars(""));
    assert!(starts_with(&out, "abc"));
    assert!(starts_with(&out, ""));
    assert!(!starts_with(&out, "abd"));
    assert!(!starts_with(&out, "abcdefg"));
    let mut bytes = vec![1u8];
    append_bytes(&mut bytes, &vec![2, 3]);
    assert_eq!(bytes, vec![1, 2, 3]);
}

#[test]
fn witness_program_is_zero_and_the_pushed_digest() {
    let program = v0_p2wsh(&vec![0x51]);
    let digest = <bitcoin::hashes::sha256::Hash as bitcoin::hashes::Hash>::hash(&[0x51]);
    let mut expected = vec![0u8, 32];
    expected.extend(bitcoin::hashes::Hash::into_inner(digest));
    assert_eq!(program, expected);
}

#[test]
fn fragment_text_with_and_without_tags() {
    let mut out = Vec::new();
    push_multi_text(&mut out, 2, &keys(), true);
    assert_eq!(text(&out), format!("multi(2,f{},u{})", KEY_A, KEY_B));
    let mut out = Vec::new();
    push_multi_text(&mut out, 1, &Vec::new(), false);
    assert_eq!(text(&out), "multi(1)");
    let mut out = Vec::new();
    push_emergency_text(&mut out, 4032, 1, &keys(), false);
    assert_eq!(text(&out), format!("and_v(v:older(4032),multi(1,{},{}))", KEY_A, KEY_B));
    let mut out = Vec::new();
    push_pegin_text(&mut out, &keys(), 2, &keys(), 1, 9, false);
    assert_eq!(
        text(&out),
        format!(
            "or_d(multi(2,{a},{b}),and_v(v:older(9),multi(1,{a},{b})))",
            a = KEY_A,
            b = KEY_B
        )
    );
    assert_eq!(clone_keys(&keys()), keys());
}

#[test]
fn numbers_are_read_up_to_32_bits() {
    assert_eq!(scan_number(&chars("x12,"), 1), Some((12, 3)));
    assert_eq!(scan_number(&chars("007"), 0), Some((7, 3)));
    assert_eq!(scan_number(&chars("4294967295)"), 0), Some((4294967295, 10)));
    assert_eq!(scan_number(&chars("4294967296)"), 0), None);
    assert_eq!(scan_number(&chars("99999999999999999999999999"), 0), None);
    assert_eq!(scan_number(&chars("a1"), 0), None);
    assert_eq!(scan_number(&chars("1"), 1), None);
}

#[test]
fn keys_are_read_in_blocks() {
    let s = chars(&format!("(,f{},u{})", KEY_A, KEY_B));
    assert_eq!(scan_keys(&s, 1), (Some(keys()), 137));
    assert_eq!(scan_keys(&s, 0), (Some(Vec::new()), 0));
    let bad = chars(&format!(",f{},x{})", KEY_A, KEY_B));
    assert_eq!(scan_keys(&bad, 0), (None, 136));
    let short = chars(&format!(",f{}", &KEY_A[..65]));
    assert_eq!(scan_keys(&short, 0), (Some(Vec::new()), 0));
    let multi = chars(&format!("3,f{},u{})", KEY_A, KEY_B));
    assert_eq!(scan_multi(&multi, 0), Some((3, keys(), 137)));
    assert_eq!(scan_multi(&bad, 0), None);
    assert!(literal_at(&multi, 137, ")"));
    assert!(!literal_at(&multi, 137, "))"));
    assert!(!literal_at(&multi, 0, ")"));
}

#[test]
fn body_is_taken_apart() {
    let body = format!(
        "legacy_pegin(or_d(multi(2,f{a},u{b}),and_v(v:older(9),multi(1,f{a},u{b}))),anything)",
        a = KEY_A,
        b = KEY_B
    );
    assert_eq!(
        scan_pegin_body(&chars(&body)),
        Some((keys(), 2, keys(), 1, 9, chars("anything")))
    );
    assert_eq!(scan_pegin_body(&chars(&body[..body.len() - 1])), None);
    assert_eq!(scan_pegin_body(&chars("legacy_pegin()")), None);
}

#[test]
fn functionary_keys_are_parsed_in_order() {
    let parsed = parse_functionary_keys(&vec![KEY_B, KEY_A]).unwrap();
    assert_eq!(
        parsed,
        vec![
            LegacyPeginKey::Functionary(PublicKey::from_str(KEY_B).unwrap()),
            LegacyPeginKey::Functionary(PublicKey::from_str(KEY_A).unwrap()),
        ]
    );
    assert_eq!(parse_functionary_keys(&vec![KEY_B, "02", KEY_A]), None);
    assert_eq!(parse_functionary_keys(&vec![" 02"]), None);
}
