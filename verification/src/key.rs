//! Public keys and the tagged keys of the legacy peg-in federation.

use vstd::prelude::*;
use crate::error::Error;
use crate::text::{string_of, hex_lower, push_hex};

verus! {

/// What `bitcoin::PublicKey::from_str` makes of a text: the serialization of
/// the key it parses to, or `None` where it rejects the text.
pub uninterp spec fn parsed_public_key(text: Seq<char>) -> Option<Seq<u8>>;

/// A valid serialized public key: 33 bytes (compressed) or 65 bytes, which
/// the key parser gives back from their hexadecimal text.
pub open spec fn is_public_key(bytes: Seq<u8>) -> bool {
    &&& (bytes.len() == 33 || bytes.len() == 65)
    &&& parsed_public_key(hex_lower(bytes)) == Some(bytes)
}

/// A public key on the curve, held in its serialized form.
#[derive(Debug, PartialEq, Eq, PartialOrd, Ord, Hash)]
pub struct PublicKey {
    bytes: Vec<u8>,
}

impl PublicKey {
    #[verifier::type_invariant]
    spec fn length_is_valid(self) -> bool {
        self.bytes@.len() == 33 || self.bytes@.len() == 65
    }
}

impl Clone for PublicKey {
    fn clone(&self) -> (r: PublicKey)
        ensures
            r@ == self@,
    {
        self.duplicate()
    }
}

impl View for PublicKey {
    type V = Seq<u8>;

    closed spec fn view(&self) -> Seq<u8> {
        self.bytes@
    }
}

/// Parses a public key from hexadecimal text.
///
/// Trusted: calls `bitcoin::PublicKey::from_str` and serializes the key with
/// `to_bytes`. The contract names the outcome, and claims of an accepted key
/// that it has 33 bytes exactly when the text has 66 characters, 65
/// otherwise, and that its own lower-case hexadecimal text parses back to it.
#[verifier::external_body]
fn parse_public_key(text: &str) -> (r: Option<PublicKey>)
    ensures
        r matches Some(k) ==> parsed_public_key(text@) == Some(k@),
        r is None ==> parsed_public_key(text@) is None,
        r matches Some(k) ==> is_public_key(k@) && (k@.len() == 33 <==> text@.len() == 66),
{
    match <bitcoin::PublicKey as std::str::FromStr>::from_str(text) {
        Ok(pk) => Some(PublicKey { bytes: pk.to_bytes() }),
        Err(_) => None,
    }
}

impl PublicKey {
    /// Whether the value holds a valid serialized key.
    pub open spec fn wf(&self) -> bool {
        is_public_key(self@)
    }

    /// Parses 66 or 130 hexadecimal characters into a key on the curve.
    pub fn from_str(text: &str) -> (r: Result<PublicKey, Error>)
        ensures
            match r {
                Ok(k) => {
                    &&& parsed_public_key(text@) == Some(k@)
                    &&& k.wf()
                    &&& k@.len() == 33 <==> text@.len() == 66
                },
                Err(e) => parsed_public_key(text@) is None && e is BadPubkey,
            },
    {
        match parse_public_key(text) {
            Some(k) => Ok(k),
            None => Err(Error::BadPubkey),
        }
    }

    /// The serialized key: 33 or 65 bytes.
    pub fn to_bytes(&self) -> (r: Vec<u8>)
        ensures
            r@ == self@,
            r@.len() == 33 || r@.len() == 65,
    {
        proof {
            use_type_invariant(self);
        }
        self.bytes.clone()
    }

    /// A copy of the key.
    pub fn duplicate(&self) -> (r: PublicKey)
        ensures
            r@ == self@,
    {
        proof {
            use_type_invariant(self);
        }
        PublicKey { bytes: self.bytes.clone() }
    }

    /// The lower-case hexadecimal text of the serialized key.
    pub fn to_string(&self) -> (r: String)
        ensures
            r@ == hex_lower(self@),
    {
        let mut out: Vec<char> = Vec::new();
        push_hex(&mut out, &self.bytes);
        string_of(&out)
    }

    /// Whether the key is serialized in the 65-byte form.
    pub fn is_uncompressed(&self) -> (r: bool)
        ensures
            r == (self@.len() != 33),
    {
        self.bytes.len() != 33
    }

    /// The length of the serialized key: 33 or 65.
    pub fn serialized_len(&self) -> (r: usize)
        ensures
            r == self@.len(),
            r == 33 || r == 65,
    {
        proof {
            use_type_invariant(self);
        }
        self.bytes.len()
    }
}

/// The key that a key and a contract make, serialized: the key with the
/// tweak of `bitcoin::util::contracthash::compute_tweak` added to it by
/// `secp256k1::PublicKey::add_exp_assign`. `None` where the bytes are no key
/// or the addition fails.
pub uninterp spec fn tweaked_key(key: Seq<u8>, contract: Seq<u8>) -> Option<Seq<u8>>;

/// Tweaks a key by a contract.
///
/// Trusted: reads the key with `bitcoin::PublicKey::from_slice`, computes
/// the tweak with `contracthash::compute_tweak`, adds it with
/// `add_exp_assign`, and serializes the key with `to_bytes`; a failure of
/// the reading or of the addition is `None`. The contract names the
/// outcome, and says that the tweaked key is serialized in the form of the
/// key that came in, so at its length.
#[verifier::external_body]
pub(crate) fn tweak_public_key(key: &PublicKey, contract: &Vec<u8>) -> (r: Option<PublicKey>)
    ensures
        r matches Some(k) ==> tweaked_key(key@, contract@) == Some(k@),
        r is None ==> tweaked_key(key@, contract@) is None,
        r matches Some(k) ==> k@.len() == key@.len(),
{
    let mut pk = bitcoin::PublicKey::from_slice(&key.bytes).ok()?;
    let tweak = bitcoin::util::contracthash::compute_tweak(&pk, contract);
    let secp = bitcoin::secp256k1::Secp256k1::verification_only();
    pk.key.add_exp_assign(&secp, &tweak[..]).ok()?;
    Some(PublicKey { bytes: pk.to_bytes() })
}

/// The RIPEMD-160 of the SHA-256 of a byte string, as
/// `bitcoin::hashes::hash160` computes it.
pub uninterp spec fn hash160(data: Seq<u8>) -> Seq<u8>;

/// Hashes a byte string to twenty bytes.
///
/// Trusted: calls `bitcoin::hashes::hash160::Hash::hash` and copies the
/// digest out; the contract names the digest and gives its length.
#[verifier::external_body]
pub(crate) fn hash160_of(data: &Vec<u8>) -> (r: Vec<u8>)
    ensures
        r@ == hash160(data@),
        r@.len() == 20,
{
    let digest = <bitcoin::hashes::hash160::Hash as bitcoin::hashes::Hash>::hash(data);
    bitcoin::hashes::Hash::into_inner(digest).to_vec()
}

/// A key of the peg-in federation: a compressed public key with a tag that
/// says whether the key takes part in contract tweaking.
#[derive(Debug, Clone, PartialEq, Eq, PartialOrd, Ord, Hash)]
pub enum LegacyPeginKey {
    /// A functionary key, which is tweaked by the contract.
    Functionary(PublicKey),
    /// A key that is never tweaked.
    NonFunctionary(PublicKey),
}

/// What the text of a federation key parses to: the tag (`true` for a
/// functionary key) and the serialized key, or `None` where the text is
/// rejected.
pub open spec fn parsed_legacy_key(s: Seq<char>) -> Option<(bool, Seq<u8>)> {
    if s.len() == 67 && (s[0] == 'f' || s[0] == 'u') {
        match parsed_public_key(s.subrange(1, 67)) {
            Some(bytes) => Some((s[0] == 'f', bytes)),
            None => None,
        }
    } else {
        None
    }
}

/// The text of a federation key: the tag character, then the key in
/// lower-case hexadecimal.
pub open spec fn legacy_key_text(k: (bool, Seq<u8>)) -> Seq<char> {
    seq![if k.0 { 'f' } else { 'u' }] + hex_lower(k.1)
}

impl View for LegacyPeginKey {
    type V = (bool, Seq<u8>);

    open spec fn view(&self) -> (bool, Seq<u8>) {
        match *self {
            LegacyPeginKey::Functionary(pk) => (true, pk@),
            LegacyPeginKey::NonFunctionary(pk) => (false, pk@),
        }
    }
}

impl LegacyPeginKey {
    /// Whether the key inside is a valid compressed key.
    pub open spec fn wf(&self) -> bool {
        is_public_key(self@.1) && self@.1.len() == 33
    }

    /// The key as it is before any tweak.
    pub fn as_untweaked(&self) -> (r: &PublicKey)
        ensures
            r@ == self@.1,
    {
        match self {
            LegacyPeginKey::Functionary(pk) => pk,
            LegacyPeginKey::NonFunctionary(pk) => pk,
        }
    }

    /// Whether the key is tweaked by the contract.
    pub fn is_functionary(&self) -> (r: bool)
        ensures
            r == self@.0,
    {
        match self {
            LegacyPeginKey::Functionary(_) => true,
            LegacyPeginKey::NonFunctionary(_) => false,
        }
    }

    /// A copy of the key.
    pub fn duplicate(&self) -> (r: LegacyPeginKey)
        ensures
            r@ == self@,
    {
        match self {
            LegacyPeginKey::Functionary(pk) => LegacyPeginKey::Functionary(pk.duplicate()),
            LegacyPeginKey::NonFunctionary(pk) => LegacyPeginKey::NonFunctionary(pk.duplicate()),
        }
    }

    /// Parses `f` or `u` followed by the 66 hexadecimal characters of a
    /// compressed key. Any other length or tag is rejected as a bad
    /// descriptor; a well-shaped text whose key does not parse, as a bad key.
    pub fn from_str(s: &str) -> (r: Result<LegacyPeginKey, Error>)
        ensures
            match r {
                Ok(k) => parsed_legacy_key(s@) == Some(k@) && k.wf(),
                Err(e) => {
                    &&& parsed_legacy_key(s@) is None
                    &&& s@.len() == 0 ==> (e matches Error::BadDescriptor(m) && m@
                        == "Empty Legacy pegin"@)
                    &&& s@.len() != 0 && !(s@.len() == 67 && (s@[0] == 'f' || s@[0] == 'u')) ==> (
                    e matches Error::BadDescriptor(m) && m@ == "Invalid Legacy Pegin descriptor"@)
                    &&& s@.len() == 67 && (s@[0] == 'f' || s@[0] == 'u') ==> e is BadPubkey
                },
            },
    {
        let n: usize = s.unicode_len();
        if n == 0 {
            return Err(Error::BadDescriptor(String::from_str("Empty Legacy pegin")));
        }
        let tag: char = s.get_char(0);
        if n == 67 && (tag == 'f' || tag == 'u') {
            let rest = s.substring_char(1, 67);
            match PublicKey::from_str(rest) {
                Ok(pk) => {
                    if tag == 'f' {
                        Ok(LegacyPeginKey::Functionary(pk))
                    } else {
                        Ok(LegacyPeginKey::NonFunctionary(pk))
                    }
                },
                Err(e) => Err(e),
            }
        } else {
            Err(Error::BadDescriptor(String::from_str("Invalid Legacy Pegin descriptor")))
        }
    }

    /// The text of the key: its tag, then the key in hexadecimal.
    pub fn to_string(&self) -> (r: String)
        ensures
            r@ == legacy_key_text(self@),
    {
        let mut out: Vec<char> = Vec::new();
        out.push(if self.is_functionary() { 'f' } else { 'u' });
        let bytes = self.as_untweaked().to_bytes();
        push_hex(&mut out, &bytes);
        string_of(&out)
    }

    /// Federation keys are always compressed.
    pub fn is_uncompressed(&self) -> (r: bool)
        ensures
            !r,
    {
        false
    }

    /// Federation keys always serialize to 33 bytes.
    pub fn serialized_len(&self) -> (r: usize)
        ensures
            r == 33,
            self.wf() ==> r == self@.1.len(),
    {
        33
    }

    /// The hash that identifies the key: the 160-bit hash of its
    /// serialization, whatever the tag.
    pub fn to_pubkeyhash(&self) -> (r: Vec<u8>)
        ensures
            r@ == hash160(self@.1),
            r@.len() == 20,
    {
        let bytes = self.as_untweaked().to_bytes();
        hash160_of(&bytes)
    }
}

/// What a key of a descriptor can do, whatever its form: say whether it is
/// of the uncompressed kind and how long it is when serialized, hash to the
/// identifier of its public key, and resolve to the public key itself.
pub trait MiniscriptKey: Sized {
    /// The serialized public key that this key resolves to.
    spec fn key_bytes(&self) -> Seq<u8>;

    /// Whether the key counts as an uncompressed key.
    spec fn uncompressed(&self) -> bool;

    /// Whether the key counts as an uncompressed key, which costs more to
    /// spend.
    fn is_uncompressed(&self) -> (r: bool)
        ensures
            r == self.uncompressed(),
    ;

    /// The length of the key in a script: 65 bytes for an uncompressed key,
    /// 33 otherwise.
    fn serialized_len(&self) -> (r: usize)
        ensures
            r == serialized_key_len(self.uncompressed()),
    ;

    /// The 160-bit hash of the public key.
    fn to_pubkeyhash(&self) -> (r: Vec<u8>)
        ensures
            r@ == hash160(self.key_bytes()),
            r@.len() == 20,
    ;

    /// The public key that this key resolves to.
    fn to_public_key(&self) -> (r: PublicKey)
        ensures
            r@ == self.key_bytes(),
    ;
}

/// The length of a serialized key of either kind.
pub open spec fn serialized_key_len(uncompressed: bool) -> nat {
    if uncompressed {
        65
    } else {
        33
    }
}

impl MiniscriptKey for PublicKey {
    open spec fn key_bytes(&self) -> Seq<u8> {
        self@
    }

    open spec fn uncompressed(&self) -> bool {
        self@.len() != 33
    }

    fn is_uncompressed(&self) -> (r: bool) {
        PublicKey::is_uncompressed(self)
    }

    fn serialized_len(&self) -> (r: usize) {
        PublicKey::serialized_len(self)
    }

    fn to_pubkeyhash(&self) -> (r: Vec<u8>) {
        let bytes = self.to_bytes();
        hash160_of(&bytes)
    }

    fn to_public_key(&self) -> (r: PublicKey) {
        self.duplicate()
    }
}

impl MiniscriptKey for LegacyPeginKey {
    open spec fn key_bytes(&self) -> Seq<u8> {
        self@.1
    }

    open spec fn uncompressed(&self) -> bool {
        false
    }

    fn is_uncompressed(&self) -> (r: bool) {
        LegacyPeginKey::is_uncompressed(self)
    }

    fn serialized_len(&self) -> (r: usize) {
        LegacyPeginKey::serialized_len(self)
    }

    fn to_pubkeyhash(&self) -> (r: Vec<u8>) {
        LegacyPeginKey::to_pubkeyhash(self)
    }

    fn to_public_key(&self) -> (r: PublicKey) {
        self.as_untweaked().duplicate()
    }
}

/// Parsing the text of a well-formed federation key gives the key back, for
/// both tags.
pub proof fn lemma_legacy_key_round_trip(k: LegacyPeginKey)
    requires
        k.wf(),
    ensures
        parsed_legacy_key(legacy_key_text(k@)) == Some(k@),
{
    let s = legacy_key_text(k@);
    assert(hex_lower(k@.1).len() == 66);
    assert(s.len() == 67);
    assert(s.subrange(1, 67) =~= hex_lower(k@.1));
}

/// A text whose length is not 67, or whose first character is neither `f`
/// nor `u`, is no federation key.
pub proof fn lemma_legacy_key_bad_shape(s: Seq<char>)
    requires
        s.len() != 67 || (s[0] != 'f' && s[0] != 'u'),
    ensures
        parsed_legacy_key(s) is None,
{
}


/// Parsing the text of a valid compressed key with its tag gives the tag
/// and the key back.
pub proof fn lemma_legacy_key_text_round_trip(k: (bool, Seq<u8>))
    requires
        is_public_key(k.1),
        k.1.len() == 33,
    ensures
        legacy_key_text(k).len() == 67,
        parsed_legacy_key(legacy_key_text(k)) == Some(k),
{
    let s = legacy_key_text(k);
    assert(hex_lower(k.1).len() == 66);
    assert(s.subrange(1, 67) =~= hex_lower(k.1));
}

} // verus!
