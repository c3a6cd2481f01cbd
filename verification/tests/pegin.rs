use std::str::FromStr;

use bitcoin::blockdata::opcodes::all::{OP_DEPTH, OP_ELSE, OP_EQUAL, OP_IF};
use pegin_descriptors::descriptor::Descriptor;
use pegin_descriptors::error::Error;
use pegin_descriptors::fragment::Fragment;
use pegin_descriptors::key::{LegacyPeginKey, PublicKey};
use pegin_descriptors::pegin::{
    assemble_witness_script, pegin_weight, LegacyPegin, WITNESS_SCRIPT_SIZE,
};
use pegin_descriptors::script::varint_len;
use pegin_descriptors::pkh::{BitcoinSig, Pkh};

const FED: [&str; 15] = [
    "020e0338c96a8870479f2396c373cc7696ba124e8635d41b0ea581112b67817261",
    "02675333a4e4b8fb51d9d4e22fa5a8eaced3fdac8a8cbf9be8c030f75712e6af99",
    "02896807d54bc55c24981f24a453c60ad3e8993d693732288068a23df3d9f50d48",
    "029e51a5ef5db3137051de8323b001749932f2ff0d34c82e96a2c2461de96ae56c",
    "02a4e1a9638d46923272c266631d94d36bdb03a64ee0e14c7518e49d2f29bc4010",
    "02f8a00b269f8c5e59c67d36db3cdc11b11b21f64b4bffb2815e9100d9aa8daf07",
    "03079e252e85abffd3c401a69b087e590a9b86f33f574f08129ccbd3521ecf516b",
    "03111cf405b627e22135b3b3733a4a34aa5723fb0f58379a16d32861bf576b0ec2",
    "0318f331b3e5d38156da6633b31929c5b220349859cc9ca3d33fb4e68aa0840174",
    "03230dae6b4ac93480aeab26d000841298e3b8f6157028e47b0897c1e025165de1",
    "035abff4281ff00660f99ab27bb53e6b33689c2cd8dcd364bc3c90ca5aea0d71a6",
    "03bd45cddfacf2083b14310ae4a84e25de61e451637346325222747b157446614c",
    "03cc297026b06c71cbfa52089149157b5ff23de027ac5ab781800a578192d17546",
    "03d3bde5d63bdb3a6379b461be64dad45eabff42f758543a9645afd42f6d424828",
    "03ed1e8d5109c9ed66f7941bc53cc71137baa76d50d274bda8d5e8ffbd6e61fe9a",
];

const EMER: [&str; 3] = [
    "03aab896d53a8e7d6433137bbba940f9c521e085dd07e60994579b64a6d992cf79",
    "0291b7d0b1b692f8f524516ed950872e5da10fb1b808b5a526dedc6fed1cf29807",
    "0386aa9372fbab374593466bc5451dc59954e90787f08060964d95c87ef34ca5bb",
];

fn user_desc() -> Descriptor {
    Descriptor::Pkh(Pkh::new(PublicKey::from_str(FED[0]).unwrap()))
}

fn functionary(text: &str) -> LegacyPeginKey {
    LegacyPeginKey::Functionary(PublicKey::from_str(text).unwrap())
}

fn plain(text: &str) -> LegacyPeginKey {
    LegacyPeginKey::NonFunctionary(PublicKey::from_str(text).unwrap())
}

fn small_pegin() -> LegacyPegin {
    LegacyPegin::new(
        vec![functionary(FED[0]), functionary(FED[1]), functionary(FED[2])],
        2,
        vec![functionary(EMER[0]), functionary(EMER[1])],
        1,
        4032,
        user_desc(),
    )
}

#[allow(deprecated)]
fn tweaked(key: &str, contract: &[u8]) -> bitcoin::PublicKey {
    let secp = bitcoin::secp256k1::Secp256k1::verification_only();
    let pk = bitcoin::PublicKey::from_str(key).unwrap();
    bitcoin::util::contracthash::tweak_key(&secp, pk, contract)
}

fn contract_of(desc: &Descriptor) -> Vec<u8> {
    let script = desc.explicit_script();
    let hash = <bitcoin::hashes::sha256::Hash as bitcoin::hashes::Hash>::hash(&script);
    bitcoin::hashes::Hash::into_inner(hash).to_vec()
}

fn emergency_encoding(timelock: u32, k: usize, keys: &[&str]) -> Vec<u8> {
    let text = format!("and_v(v:older({}),multi({},{}))", timelock, k, keys.join(","));
    miniscript::Miniscript::<bitcoin::PublicKey, miniscript::Segwitv0>::from_str_insane(&text)
        .unwrap()
        .encode()
        .into_bytes()
}

fn expected_script(
    signing: &[bitcoin::PublicKey],
    fed_k: i64,
    timelock: u32,
    emer_k: usize,
    emer: &[&str],
) -> Vec<u8> {
    let mut builder = bitcoin::blockdata::script::Builder::new()
        .push_opcode(OP_DEPTH)
        .push_int(signing.len() as i64 + 1)
        .push_opcode(OP_EQUAL)
        .push_opcode(OP_IF)
        .push_int(fed_k);
    for key in signing {
        builder = builder.push_key(key);
    }
    let mut bytes = builder
        .push_int(signing.len() as i64)
        .push_opcode(OP_ELSE)
        .into_script()
        .into_bytes();
    let mut right = emergency_encoding(timelock, emer_k, emer);
    assert_eq!(right[4], 0x69);
    right[4] = 0x75;
    bytes.extend(right);
    let at = bytes.len() - 1;
    bytes.insert(at, 0x68);
    bytes
}

#[test]
fn emergency_encoding_holds_verify_at_index_four() {
    let right = emergency_encoding(4032, 2, &EMER);
    assert_eq!(&right[..5], &[0x02, 0xc0, 0x0f, 0xb2, 0x69]);
    assert_eq!(right.len(), 110);
}

#[test]
fn production_federation_has_the_built_in_values() {
    let pegin = LegacyPegin::new_legacy_fed(user_desc()).unwrap();
    assert_eq!(pegin.fed_k, 11);
    assert_eq!(pegin.emer_k, 2);
    assert_eq!(pegin.timelock, 4032);
    assert_eq!(pegin.fed_pks.len(), 15);
    assert_eq!(pegin.emer_pks.len(), 3);
    for (key, text) in pegin.fed_pks.iter().zip(FED.iter()) {
        assert_eq!(key, &functionary(text));
    }
    for (key, text) in pegin.emer_pks.iter().zip(EMER.iter()) {
        assert_eq!(key, &functionary(text));
    }
    assert_eq!(pegin.desc, user_desc());
    assert_eq!(pegin.into_user_descriptor(), user_desc());
}

#[test]
fn production_witness_script_is_bit_exact() {
    let pegin = LegacyPegin::new_legacy_fed(user_desc()).unwrap();
    let script = pegin.bitcoin_witness_script().unwrap();
    assert_eq!(script.len(), WITNESS_SCRIPT_SIZE);
    assert_eq!(script.len(), 628);
    assert_eq!(&script[..6], &[0x74, 0x60, 0x87, 0x63, 0x5b, 0x21]);
    assert_eq!(script[515], 0x5f);
    assert_eq!(script[516], 0x67);
    assert_eq!(&script[517..522], &[0x02, 0xc0, 0x0f, 0xb2, 0x75]);
    assert_eq!(&script[625..], &[0x53, 0x68, 0xae]);
    let contract = contract_of(&user_desc());
    let signing: Vec<bitcoin::PublicKey> = FED.iter().map(|k| tweaked(k, &contract)).collect();
    assert_eq!(script, expected_script(&signing, 11, 4032, 2, &EMER));
    assert_eq!(pegin.script_code().unwrap(), script);
}

#[test]
fn witness_script_depends_on_the_user_descriptor() {
    let a = LegacyPegin::new_legacy_fed(user_desc()).unwrap();
    let other = Descriptor::Pkh(Pkh::new(PublicKey::from_str(FED[1]).unwrap()));
    let b = LegacyPegin::new_legacy_fed(other).unwrap();
    assert_ne!(a.bitcoin_witness_script().unwrap(), b.bitcoin_witness_script().unwrap());
}

#[test]
fn only_functionary_keys_are_tweaked() {
    let pegin = LegacyPegin::new(
        vec![functionary(FED[0]), plain(FED[1]), functionary(FED[2])],
        2,
        vec![plain(EMER[0]), functionary(EMER[1])],
        1,
        1000,
        user_desc(),
    );
    let contract = contract_of(&user_desc());
    let keys = pegin.federation_signing_keys().unwrap();
    assert_eq!(keys.len(), 3);
    assert_eq!(keys[0].to_bytes(), tweaked(FED[0], &contract).to_bytes());
    assert_ne!(keys[0].to_string(), FED[0]);
    assert_eq!(keys[1].to_string(), FED[1]);
    assert_eq!(keys[2].to_bytes(), tweaked(FED[2], &contract).to_bytes());
    let emer = pegin.emergency_signing_keys();
    assert_eq!(emer.len(), 2);
    assert_eq!(emer[0].to_string(), EMER[0]);
    assert_eq!(emer[1].to_string(), EMER[1]);
    let signing = vec![
        tweaked(FED[0], &contract),
        bitcoin::PublicKey::from_str(FED[1]).unwrap(),
        tweaked(FED[2], &contract),
    ];
    assert_eq!(
        pegin.bitcoin_witness_script().unwrap(),
        expected_script(&signing, 2, 1000, 1, &EMER[..2])
    );
}

#[test]
fn witness_script_needs_verify_at_index_four() {
    let short = LegacyPegin::new(
        vec![functionary(FED[0])],
        1,
        vec![functionary(EMER[0])],
        1,
        5,
        user_desc(),
    );
    assert_eq!(emergency_encoding(5, 1, &EMER[..1])[4], 0x21);
    assert_eq!(short.bitcoin_witness_script(), None);
    assert_eq!(short.bitcoin_unsigned_script_sig(), None);
    assert_eq!(short.bitcoin_script_pubkey(), None);
    assert_eq!(short.get_bitcoin_satisfaction(&vec![None], &vec![None]), None);
}

#[test]
fn assembly_patches_and_inserts() {
    let keys = vec![PublicKey::from_str(FED[0]).unwrap(), PublicKey::from_str(FED[1]).unwrap()];
    let script = assemble_witness_script(2, &keys, vec![1, 2, 3, 4, 0x69, 5, 6]);
    let mut expected = vec![0x74, 0x53, 0x87, 0x63, 0x52, 33];
    expected.extend(keys[0].to_bytes());
    expected.push(33);
    expected.extend(keys[1].to_bytes());
    expected.extend([0x52, 0x67, 1, 2, 3, 4, 0x75, 5, 0x68, 6]);
    assert_eq!(script, expected);
}

#[test]
fn assembly_pushes_large_counts_as_numbers() {
    let mut keys = Vec::new();
    for _ in 0..17 {
        keys.push(PublicKey::from_str(FED[0]).unwrap());
    }
    let script = assemble_witness_script(17, &keys, vec![0, 0, 0, 0, 0x69, 0xae]);
    assert_eq!(&script[..8], &[0x74, 0x01, 0x12, 0x87, 0x63, 0x01, 0x11, 33]);
    let tail = &script[script.len() - 10..];
    assert_eq!(tail, &[0x01, 0x11, 0x67, 0, 0, 0, 0, 0x75, 0x68, 0xae]);
}

#[test]
fn script_sig_and_script_pubkey_commit_to_the_witness_script() {
    let pegin = small_pegin();
    let ws = pegin.bitcoin_witness_script().unwrap();
    let script = bitcoin::Script::from(ws.clone());
    let program = script.to_v0_p2wsh();
    let expected_sig = bitcoin::blockdata::script::Builder::new()
        .push_slice(&program[..])
        .into_script()
        .into_bytes();
    let sig = pegin.bitcoin_unsigned_script_sig().unwrap();
    assert_eq!(sig, expected_sig);
    assert_eq!(sig.len(), 35);
    assert_eq!(&sig[..3], &[34, 0, 32]);
    let address = bitcoin::Address::p2shwsh(&script, bitcoin::Network::Bitcoin);
    assert_eq!(pegin.bitcoin_script_pubkey().unwrap(), address.script_pubkey().into_bytes());
}

fn sig(len: usize, mark: u8) -> Option<BitcoinSig> {
    Some(BitcoinSig { der: vec![mark; len - 1], sighash: 1 })
}

#[test]
fn satisfaction_prefers_the_federation() {
    let pegin = small_pegin();
    let fed = vec![sig(72, 1), sig(71, 2), sig(73, 3)];
    let emer = vec![sig(70, 8), sig(70, 9)];
    let (witness, script_sig) = pegin.get_bitcoin_satisfaction(&fed, &emer).unwrap().unwrap();
    assert_eq!(witness.len(), 3);
    assert_eq!(witness[0], sig(71, 2).unwrap().encode());
    assert_eq!(witness[1], sig(72, 1).unwrap().encode());
    assert_eq!(witness[2], Vec::<u8>::new());
    assert_eq!(script_sig, pegin.bitcoin_unsigned_script_sig().unwrap());
}

#[test]
fn satisfaction_falls_back_to_the_emergency_keys() {
    let pegin = small_pegin();
    let fed = vec![None, sig(71, 2), None];
    let emer = vec![None, sig(70, 9)];
    let (witness, _) = pegin.get_bitcoin_satisfaction(&fed, &emer).unwrap().unwrap();
    assert_eq!(witness, vec![sig(70, 9).unwrap().encode(), Vec::new()]);
}

#[test]
fn satisfaction_fails_without_either_threshold() {
    let pegin = small_pegin();
    let fed = vec![None, sig(71, 2), None];
    let emer = vec![None, None];
    assert_eq!(
        pegin.get_bitcoin_satisfaction(&fed, &emer),
        Some(Err(Error::CouldNotSatisfy))
    );
}

#[test]
fn fragment_and_fields_are_inverse() {
    let fed = vec![functionary(FED[0]), plain(FED[1]), functionary(FED[2])];
    let emer = vec![functionary(EMER[0]), plain(EMER[1])];
    let ms = Fragment::pegin(&fed, 2, &emer, 1, 4032);
    assert!(matches!(ms, Fragment::OrD(_, _)));
    let pegin = LegacyPegin::from_ms_and_desc(user_desc(), ms);
    assert_eq!(pegin.fed_pks, fed);
    assert_eq!(pegin.fed_k, 2);
    assert_eq!(pegin.emer_pks, emer);
    assert_eq!(pegin.emer_k, 1);
    assert_eq!(pegin.timelock, 4032);
    assert_eq!(pegin.desc, user_desc());
    let made = LegacyPegin::new(
        vec![functionary(FED[0]), plain(FED[1]), functionary(FED[2])],
        2,
        vec![functionary(EMER[0]), plain(EMER[1])],
        1,
        4032,
        user_desc(),
    );
    assert_eq!(pegin, made);
    let (fed_pks, fed_k, emer_pks, emer_k, timelock) =
        Fragment::pegin(&fed, 2, &emer, 1, 4032).into_pegin_params();
    assert_eq!((fed_pks, fed_k, emer_pks, emer_k, timelock), (fed, 2, emer, 1, 4032));
}

#[test]
fn weight_uses_the_measured_script_size() {
    assert_eq!(varint_len(0xfc), 1);
    assert_eq!(varint_len(0xfd), 3);
    assert_eq!(varint_len(628), 3);
    assert_eq!(varint_len(0xffff), 3);
    assert_eq!(varint_len(0x10000), 5);
    assert_eq!(varint_len(0x1_0000_0000), 9);
    assert_eq!(pegin_weight(13, 1000), 144 + 3 + 628 + 1 + 1000);
    assert_eq!(pegin_weight(13, 1000), 1776);
    let pegin = LegacyPegin::new_legacy_fed(user_desc()).unwrap();
    let text = format!(
        "or_d(multi(11,{}),and_v(v:older(4032),multi(2,{})))",
        FED.join(","),
        EMER.join(",")
    );
    let ms = miniscript::Miniscript::<bitcoin::PublicKey, miniscript::Segwitv0>::from_str_insane(
        &text,
    )
    .unwrap();
    let elements = ms.max_satisfaction_witness_elements().unwrap();
    let size = ms.max_satisfaction_size().unwrap();
    assert_eq!(pegin.max_satisfaction_weight(), Some(Ok(144 + 3 + 628 + 1 + size)));
    assert!(elements <= 0xfc);
    assert!(size > 11 * 70);
}

#[test]
fn sanity_check_accepts_the_production_federation() {
    let pegin = LegacyPegin::new_legacy_fed(user_desc()).unwrap();
    assert_eq!(pegin.sanity_check(), Ok(()));
}

#[test]
fn sanity_check_reports_a_malformed_federation_script() {
    let repeated = LegacyPegin::new(
        vec![functionary(FED[0]), functionary(FED[0])],
        1,
        vec![functionary(EMER[0])],
        1,
        4032,
        user_desc(),
    );
    assert_eq!(
        repeated.sanity_check(),
        Err(Error::Unexpected("Federation script sanity check failed".to_string()))
    );
}

#[test]
fn pegin_text_is_the_fragment_and_the_descriptor_with_a_checksum() {
    let pegin = small_pegin();
    let text = pegin.to_string();
    let body = format!(
        "legacy_pegin(or_d(multi(2,f{},f{},f{}),and_v(v:older(4032),multi(1,f{},f{}))),pkh({}))",
        FED[0], FED[1], FED[2], EMER[0], EMER[1], FED[0]
    );
    assert_eq!(&text[..body.len()], body);
    assert_eq!(text.len(), body.len() + 9);
    assert_eq!(&text[body.len()..body.len() + 1], "#");
}

#[test]
fn pegin_text_round_trip() {
    let pegin = small_pegin();
    let text = pegin.to_string();
    assert_eq!(LegacyPegin::from_str(&text), Ok(small_pegin()));
    let production = LegacyPegin::new_legacy_fed(user_desc()).unwrap();
    let text = production.to_string();
    let parsed = LegacyPegin::from_str(&text).unwrap();
    assert_eq!(parsed, production);
    assert_eq!(parsed.to_string(), text);
}

#[test]
fn pegin_text_with_a_flipped_checksum_character_fails() {
    let text = small_pegin().to_string();
    for i in text.len() - 8..text.len() {
        let mut flipped: Vec<char> = text.chars().collect();
        flipped[i] = if flipped[i] == 'q' { 'p' } else { 'q' };
        let flipped: String = flipped.into_iter().collect();
        assert!(matches!(LegacyPegin::from_str(&flipped), Err(Error::BadDescriptor(_))));
    }
}

#[test]
fn pegin_text_without_checksum_and_with_a_bare_descriptor() {
    let body = format!(
        "legacy_pegin(or_d(multi(1,f{},u{}),and_v(v:older(0144),multi(1,u{}))),pk({}))",
        FED[0],
        FED[1].to_uppercase(),
        EMER[0],
        FED[2]
    );
    let parsed = LegacyPegin::from_str(&body).unwrap();
    assert_eq!(parsed.fed_pks, vec![functionary(FED[0]), plain(FED[1])]);
    assert_eq!(parsed.fed_k, 1);
    assert_eq!(parsed.emer_pks, vec![plain(EMER[0])]);
    assert_eq!(parsed.emer_k, 1);
    assert_eq!(parsed.timelock, 144);
    assert!(matches!(parsed.desc, Descriptor::Bare(_)));
}

#[test]
fn pegin_text_of_another_shape_is_unexpected() {
    let key = format!("f{}", FED[0]);
    for body in [
        format!("legacy(or_d(multi(1,{}),and_v(v:older(5),multi(1,{}))),pkh({}))", key, key, FED[0]),
        format!("legacy_pegin(or_d(multi(1,{}),and_v(v:after(5),multi(1,{}))),pkh({}))", key, key, FED[0]),
        format!("legacy_pegin(or_d(multi(1,{}),and_v(v:older(5),multi(1,{}))))", key, key),
        format!("legacy_pegin(or_d(multi(,{}),and_v(v:older(5),multi(1,{}))),pkh({}))", key, key, FED[0]),
        format!("legacy_pegin(or_d(multi(1,{}),and_v(v:older(4294967296),multi(1,{}))),pkh({}))", key, key, FED[0]),
        format!("legacy_pegin(or_d(multi(1,x{}),and_v(v:older(5),multi(1,{}))),pkh({}))", FED[0], key, FED[0]),
        format!("legacy_pegin(or_d(multi(2,{}),and_v(v:older(5),multi(1,{}))),pkh({}))", key, key, FED[0]),
        format!("legacy_pegin(or_d(multi(1,{}),and_v(v:older(0),multi(1,{}))),pkh({}))", key, key, FED[0]),
        format!("legacy_pegin(or_d(multi(1,{}),and_v(v:older(5),multi(0,{}))),pkh({}))", key, key, FED[0]),
    ] {
        assert!(matches!(LegacyPegin::from_str(&body), Err(Error::Unexpected(_))), "{}", body);
    }
}

#[test]
fn pegin_text_hands_the_error_of_its_descriptor_on() {
    let key = format!("f{}", FED[0]);
    let with = |desc: &str| {
        format!("legacy_pegin(or_d(multi(1,{}),and_v(v:older(5),multi(1,{}))),{})", key, key, desc)
    };
    let four = format!("multi(1,{},{},{},{})", FED[0], FED[1], FED[2], FED[3]);
    assert_eq!(LegacyPegin::from_str(&with(&four)), Err(Error::NonStandardBareScript));
    assert_eq!(LegacyPegin::from_str(&with("pkh(00)")), Err(Error::BadPubkey));
    assert!(matches!(LegacyPegin::from_str(&with("pkh(00")), Err(Error::Unexpected(_))));
    assert!(matches!(LegacyPegin::from_str(&with("nonsense")), Err(Error::BadDescriptor(_))));
    let ill_typed = format!(
        "legacy_pegin(or_d(multi(2,{}),and_v(v:older(5),multi(1,{}))),{})",
        key, key, four
    );
    assert_eq!(LegacyPegin::from_str(&ill_typed), Err(Error::NonStandardBareScript));
}

#[test]
fn peg_ins_can_be_copied_and_ordered() {
    let pegin = small_pegin();
    assert_eq!(pegin.clone(), pegin);
    assert!(functionary(FED[0]) < functionary(FED[1]));
    assert!(functionary(FED[1]) < plain(FED[0]));
    assert_eq!(functionary(FED[0]).clone(), functionary(FED[0]));
    let production = LegacyPegin::new_legacy_fed(user_desc()).unwrap();
    assert!(pegin != production);
    assert!(pegin < production || production < pegin);
}

#[test]
fn weight_fails_where_the_engine_knows_no_satisfaction() {
    let mut pegin = small_pegin();
    pegin.fed_k = 0;
    assert_eq!(pegin.max_satisfaction_weight(), Some(Err(Error::ImpossibleSatisfaction)));
}

#[test]
fn getters_give_the_fields() {
    let pegin = small_pegin();
    assert_eq!(pegin.federation_keys(), &pegin.fed_pks);
    assert_eq!(pegin.federation_threshold(), 2);
    assert_eq!(pegin.emergency_keys(), &pegin.emer_pks);
    assert_eq!(pegin.emergency_threshold(), 1);
    assert_eq!(pegin.relative_timelock(), 4032);
    assert_eq!(pegin.as_user_descriptor(), &user_desc());
}
