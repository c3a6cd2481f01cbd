use std::str::FromStr;

use pegin_descriptors::bare::{witness_to_scriptsig, Bare};
use pegin_descriptors::checksum::{desc_checksum, verify_checksum};
use pegin_descriptors::descriptor::Descriptor;
use pegin_descriptors::error::Error;
use pegin_descriptors::key::PublicKey;
use pegin_descriptors::pkh::Pkh;

const KEY_A: &str = "020e0338c96a8870479f2396c373cc7696ba124e8635d41b0ea581112b67817261";
const KEY_B: &str = "02675333a4e4b8fb51d9d4e22fa5a8eaced3fdac8a8cbf9be8c030f75712e6af99";
const KEY_C: &str = "02896807d54bc55c24981f24a453c60ad3e8993d693732288068a23df3d9f50d48";
const KEY_D: &str = "029e51a5ef5db3137051de8323b001749932f2ff0d34c82e96a2c2461de96ae56c";

fn chars(s: &str) -> Vec<char> {
    s.chars().collect()
}

fn reference_text(body: &str) -> String {
    miniscript::Descriptor::<bitcoin::PublicKey>::from_str(body).unwrap().to_string()
}

#[test]
fn checksum_agrees_with_the_reference_engine() {
    let body = format!("pkh({})", KEY_A);
    let sum: String = desc_checksum(&chars(&body)).unwrap().into_iter().collect();
    assert_eq!(sum.len(), 8);
    assert_eq!(format!("{}#{}", body, sum), reference_text(&body));
    let body = format!("sh(multi(2,{},{}))", KEY_A, KEY_B);
    let sum: String = desc_checksum(&chars(&body)).unwrap().into_iter().collect();
    assert_eq!(format!("{}#{}", body, sum), reference_text(&body));
}

#[test]
fn checksum_of_mixed_classes() {
    let body = "A b,C[9]'{z}~ \\\"`#";
    let sum = desc_checksum(&chars(body)).unwrap();
    assert_eq!(sum.len(), 8);
    assert!(sum.iter().all(|c| "qpzry9x8gf2tvdw0s3jn54khce6mua7l".contains(*c)));
    assert_ne!(sum, desc_checksum(&chars("A b,C[9]'{z}~ \\\"`")).unwrap());
}

#[test]
fn checksum_rejects_a_character_outside_the_alphabet() {
    assert_eq!(
        desc_checksum(&chars("pkh(\u{e9})")),
        Err(Error::BadDescriptor("Invalid character in checksum: '\u{e9}'".to_string()))
    );
}

#[test]
fn verify_checksum_gives_the_body() {
    let body = format!("pkh({})", KEY_A);
    let text = reference_text(&body);
    assert_eq!(verify_checksum(&chars(&text)), Ok(chars(&body)));
    assert_eq!(verify_checksum(&chars(&body)), Ok(chars(&body)));
}

#[test]
fn verify_checksum_rejects_unprintable_text() {
    assert_eq!(verify_checksum(&chars("pkh(\n)")), Err(Error::Unprintable(10)));
    assert_eq!(verify_checksum(&chars("pkh(\u{e9})")), Err(Error::Unprintable(0xc3)));
}

#[test]
fn verify_checksum_names_both_checksums() {
    let body = format!("pkh({})", KEY_A);
    let text = reference_text(&body);
    let good = &text[body.len() + 1..];
    let bad = format!("{}#qqqqqqqq", body);
    assert_eq!(
        verify_checksum(&chars(&bad)),
        Err(Error::BadDescriptor(format!("Invalid checksum 'qqqqqqqq', expected '{}'", good)))
    );
}

#[test]
fn pkh_text_round_trip() {
    let pkh = Pkh::new(PublicKey::from_str(KEY_A).unwrap());
    let text = pkh.to_string();
    assert_eq!(text, reference_text(&format!("pkh({})", KEY_A)));
    assert_eq!(Pkh::from_str(&text), Ok(Pkh::new(PublicKey::from_str(KEY_A).unwrap())));
    assert_eq!(Pkh::from_str(&format!("pkh({})", KEY_A)).unwrap(), pkh);
}

#[test]
fn pkh_text_with_any_flipped_checksum_character_fails() {
    let pkh = Pkh::new(PublicKey::from_str(KEY_A).unwrap());
    let text = pkh.to_string();
    let start = text.len() - 8;
    for i in start..text.len() {
        let mut flipped: Vec<char> = text.chars().collect();
        flipped[i] = if flipped[i] == 'q' { 'p' } else { 'q' };
        let flipped: String = flipped.into_iter().collect();
        assert!(matches!(Pkh::from_str(&flipped), Err(Error::BadDescriptor(_))));
    }
}

#[test]
fn pkh_text_of_another_shape_is_unexpected() {
    assert!(matches!(Pkh::from_str(&format!("pk({})", KEY_A)), Err(Error::Unexpected(_))));
    assert!(matches!(Pkh::from_str(&format!("pkh({}", KEY_A)), Err(Error::Unexpected(_))));
    assert!(matches!(Pkh::from_str("pkh()"), Err(Error::BadPubkey)));
    assert_eq!(Pkh::from_str(&format!("pkh({},{})", KEY_A, KEY_B)), Err(Error::BadPubkey));
}

#[test]
fn bare_accepts_the_standard_top_level_fragments() {
    let key = bitcoin::PublicKey::from_str(KEY_A).unwrap();
    let hash = <bitcoin::hashes::hash160::Hash as bitcoin::hashes::Hash>::hash(&key.to_bytes());
    for text in [
        format!("pk({})", KEY_A),
        format!("pkh({})", hash),
        format!("multi(2,{},{},{})", KEY_A, KEY_B, KEY_C),
    ] {
        let bare = Bare::new(&text).unwrap();
        assert_eq!(bare.as_inner(), text);
    }
}

#[test]
fn bare_rejects_illegal_top_level_fragments_at_construction() {
    let four = format!("multi(2,{},{},{},{})", KEY_A, KEY_B, KEY_C, KEY_D);
    assert_eq!(Bare::new(&four), Err(Error::NonStandardBareScript));
    let and = format!("and_v(v:pk({}),pk({}))", KEY_A, KEY_B);
    assert_eq!(Bare::new(&and), Err(Error::NonStandardBareScript));
    assert_eq!(Bare::new("older(5)"), Err(Error::NonStandardBareScript));
    assert!(matches!(Bare::new(&format!("v:pk({})", KEY_A)), Err(Error::BadDescriptor(_))));
    assert!(matches!(Bare::new("nonsense("), Err(Error::BadDescriptor(_))));
    assert!(matches!(Bare::from_str(&four), Err(Error::NonStandardBareScript)));
}

#[test]
fn bare_scripts_are_the_encoded_fragment() {
    let bare = Bare::new(&format!("pk({})", KEY_A)).unwrap();
    let mut expected = vec![33u8];
    expected.extend(PublicKey::from_str(KEY_A).unwrap().to_bytes());
    expected.push(0xac);
    assert_eq!(bare.script_pubkey(), expected);
    assert_eq!(bare.witness_script(), expected);
    assert_eq!(bare.script_code(), expected);
    assert!(bare.unsigned_script_sig().is_empty());
    assert_eq!(bare.address(), None);
    assert_eq!(bare.blind_addr(), None);
    assert_eq!(bare.sanity_check(), Ok(()));
}

#[test]
fn bare_weight_is_four_times_script_sig_and_prefix() {
    let bare = Bare::new(&format!("pk({})", KEY_A)).unwrap();
    assert_eq!(bare.max_satisfaction_weight(), Some(4 * (1 + 73)));
    let multi = Bare::new(&format!("multi(2,{},{},{})", KEY_A, KEY_B, KEY_C)).unwrap();
    let ms = miniscript::Miniscript::<bitcoin::PublicKey, miniscript::BareCtx>::from_str_insane(
        multi.as_inner(),
    )
    .unwrap();
    let size = ms.max_satisfaction_size().unwrap();
    assert_eq!(multi.max_satisfaction_weight(), Some(4 * (1 + size)));
}

#[test]
fn bare_sanity_check_reports_repeated_keys() {
    let bare = Bare::new(&format!("multi(1,{},{})", KEY_A, KEY_A)).unwrap();
    assert_eq!(bare.sanity_check(), Err(Error::AnalysisError));
}

#[test]
fn bare_satisfaction_pushes_the_stack() {
    let bare = Bare::new(&format!("pk({})", KEY_A)).unwrap();
    let sig = vec![0x30u8; 71];
    let stack = vec![Vec::new(), vec![1u8], vec![0x81u8], vec![17u8], sig.clone()];
    let (witness, script_sig) = bare.get_satisfaction(&stack);
    assert!(witness.is_empty());
    let mut expected = vec![0x00u8, 0x51, 0x4f, 0x01, 0x11, 71];
    expected.extend(sig);
    assert_eq!(script_sig, expected);
    assert_eq!(witness_to_scriptsig(&stack), expected);
}

#[test]
fn bare_text_round_trip() {
    let body = format!("pk({})", KEY_A);
    let bare = Bare::new(&body).unwrap();
    let text = bare.to_string();
    assert_eq!(text, reference_text(&body));
    assert_eq!(Bare::from_str(&text).unwrap(), bare);
    let mut flipped: Vec<char> = text.chars().collect();
    let last = flipped.len() - 1;
    flipped[last] = if flipped[last] == 'q' { 'p' } else { 'q' };
    let flipped: String = flipped.into_iter().collect();
    assert!(matches!(Bare::from_str(&flipped), Err(Error::BadDescriptor(_))));
}

#[test]
fn descriptor_text_picks_the_variant() {
    let pkh = Descriptor::from_str(&format!("pkh({})", KEY_A)).unwrap();
    assert_eq!(pkh, Descriptor::Pkh(Pkh::new(PublicKey::from_str(KEY_A).unwrap())));
    assert_eq!(pkh.explicit_script().len(), 25);
    assert_eq!(pkh.sanity_check(), Ok(()));
    let bare = Descriptor::from_str(&format!("pk({})", KEY_A)).unwrap();
    assert!(matches!(bare, Descriptor::Bare(_)));
    assert_eq!(bare.explicit_script().len(), 35);
    assert_eq!(bare.sanity_check(), Ok(()));
    assert!(Descriptor::from_str("pkh(00)").is_err());
}

#[test]
fn descriptor_text_round_trip() {
    for body in [format!("pkh({})", KEY_A), format!("pk({})", KEY_B)] {
        let d = Descriptor::from_str(&body).unwrap();
        let text = d.to_string();
        assert_eq!(text, reference_text(&body));
        assert_eq!(Descriptor::from_str(&text).unwrap(), d);
    }
}

#[test]
fn stack_elements_that_read_as_numbers_are_pushed_as_numbers() {
    for (element, push) in [
        (vec![0x80u8], vec![0x00u8]),
        (vec![0x10], vec![0x60]),
        (vec![0x01, 0x00], vec![0x51]),
        (vec![0x7f], vec![0x01, 0x7f]),
        (vec![0xff], vec![0x01, 0xff]),
        (vec![0x80, 0x00], vec![0x02, 0x80, 0x00]),
        (vec![0x80, 0x80], vec![0x02, 0x80, 0x80]),
        (vec![0x00, 0x01], vec![0x02, 0x00, 0x01]),
        (vec![0xc0, 0x0f], vec![0x02, 0xc0, 0x0f]),
        (vec![0xff, 0xff, 0xff, 0x7f], vec![0x04, 0xff, 0xff, 0xff, 0x7f]),
        (vec![0xff, 0xff, 0xff, 0xff], vec![0x04, 0xff, 0xff, 0xff, 0xff]),
        (vec![0x01, 0x00, 0x00, 0x00], vec![0x51]),
        (vec![0x01, 0x00, 0x00, 0x00, 0x00], vec![0x05, 0x01, 0x00, 0x00, 0x00, 0x00]),
    ] {
        assert_eq!(witness_to_scriptsig(&vec![element.clone()]), push, "{:?}", element);
    }
}

#[test]
fn descriptor_errors_keep_their_class() {
    let four = format!("multi(1,{},{},{},{})", KEY_A, KEY_B, KEY_C, KEY_D);
    assert_eq!(Descriptor::from_str(&four), Err(Error::NonStandardBareScript));
    assert!(matches!(Descriptor::from_str("nonsense("), Err(Error::BadDescriptor(_))));
    assert_eq!(Descriptor::from_str("pkh(00)"), Err(Error::BadPubkey));
    assert!(matches!(Descriptor::from_str("pkh(00"), Err(Error::Unexpected(_))));
    assert_eq!(Descriptor::from_str("pkh(\n)"), Err(Error::Unprintable(10)));
}

#[test]
fn descriptors_can_be_copied_and_ordered() {
    let a = Descriptor::from_str(&format!("pkh({})", KEY_A)).unwrap();
    let b = Descriptor::from_str(&format!("pkh({})", KEY_B)).unwrap();
    assert_eq!(a.clone(), a);
    assert!(a < b);
    let bare = Bare::new(&format!("pk({})", KEY_A)).unwrap();
    assert_eq!(bare.clone(), bare);
    assert!(Descriptor::Bare(bare) < a);
}

#[test]
fn bare_holds_the_engine_s_own_text() {
    let spelled = Bare::new(&format!("c:pk_k({})", KEY_A.to_uppercase())).unwrap();
    let plain = Bare::new(&format!("pk({})", KEY_A)).unwrap();
    assert_eq!(spelled.as_inner(), format!("pk({})", KEY_A));
    assert_eq!(spelled, plain);
    assert_eq!(spelled.to_string(), plain.to_string());
    assert_eq!(Bare::from_str(&spelled.to_string()).unwrap(), plain);
}
