use pegin_descriptors::pkh::BitcoinSig;
use pegin_descriptors::satisfy::{
    collect_signatures, path_witness_of, preferred_witness_of, sort_by_length,
};

fn sig(len: usize, mark: u8) -> Option<BitcoinSig> {
    let mut der = vec![mark; len - 1];
    der[0] = 0x30;
    Some(BitcoinSig { der, sighash: 1 })
}

#[test]
fn signatures_are_collected_in_key_order() {
    let answers = vec![sig(72, 1), None, sig(71, 2)];
    let got = collect_signatures(&answers);
    assert_eq!(got.len(), 2);
    assert_eq!(got[0].len(), 72);
    assert_eq!(got[0][1], 1);
    assert_eq!(got[0][71], 1);
    assert_eq!(got[1].len(), 71);
}

#[test]
fn sorting_is_by_length_and_stable() {
    let items = vec![vec![9u8; 3], vec![1u8; 2], vec![2u8; 3], vec![3u8; 1], vec![4u8; 2]];
    let sorted = sort_by_length(&items);
    assert_eq!(
        sorted,
        vec![vec![3u8; 1], vec![1u8; 2], vec![4u8; 2], vec![9u8; 3], vec![2u8; 3]]
    );
    let empty: Vec<Vec<u8>> = Vec::new();
    assert_eq!(sort_by_length(&empty), empty);
}

#[test]
fn path_takes_the_shortest_signatures_and_a_placeholder() {
    let answers = vec![sig(73, 1), sig(71, 2), sig(72, 3), sig(71, 4)];
    let witness = path_witness_of(&answers, 3).unwrap();
    assert_eq!(witness.len(), 4);
    assert_eq!(witness[0].len(), 71);
    assert_eq!(witness[0][1], 2);
    assert_eq!(witness[1].len(), 71);
    assert_eq!(witness[1][1], 4);
    assert_eq!(witness[2].len(), 72);
    assert!(witness[3].is_empty());
    assert_eq!(path_witness_of(&answers, 5), None);
}

#[test]
fn federation_path_is_preferred() {
    let fed = vec![sig(72, 1), sig(71, 2), sig(73, 3)];
    let emer = vec![sig(70, 7), sig(70, 8)];
    let witness = preferred_witness_of(&fed, 2, &emer, 1).unwrap();
    assert_eq!(witness.len(), 3);
    assert_eq!(witness[0][1], 2);
    assert_eq!(witness[1][1], 1);
    assert!(witness[0].len() <= witness[1].len());
    assert!(witness[2].is_empty());
    assert!(witness.iter().all(|w| w.is_empty() || (w[1] != 7 && w[1] != 8)));
}

#[test]
fn emergency_path_is_the_fallback() {
    let fed = vec![sig(72, 1), None, None];
    let emer = vec![sig(72, 7), sig(70, 8), None];
    let witness = preferred_witness_of(&fed, 2, &emer, 2).unwrap();
    assert_eq!(witness.len(), 3);
    assert_eq!(witness[0][1], 8);
    assert_eq!(witness[1][1], 7);
    assert!(witness[2].is_empty());
}

#[test]
fn no_path_means_no_witness() {
    let fed = vec![sig(72, 1), None, None];
    let emer = vec![sig(72, 7), None, None];
    assert_eq!(preferred_witness_of(&fed, 2, &emer, 2), None);
}
