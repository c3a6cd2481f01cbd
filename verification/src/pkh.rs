//! The pay-to-pubkey-hash descriptor.

use vstd::prelude::*;
use crate::error::Error;
use crate::checksum::{
    desc_checksum, lemma_hex_plain, lemma_plain_concat, lemma_plain_round_trip, plain,
    verified_body, verify_checksum, with_checksum,
};
use crate::key::{
    hash160, is_public_key, parsed_public_key, serialized_key_len, MiniscriptKey, PublicKey,
};
use crate::text::{
    append_chars, append_str, chars_of, hex_lower, push_hex, slice_chars, starts_with, string_of,
};
use crate::script::{
    append_bytes, data_push, p2pkh_script, push_slice_bytes, OP_CHECKSIG, OP_DUP, OP_EQUALVERIFY,
    OP_HASH160,
};

verus! {

/// A signature as a signer hands it out: its DER encoding and the number of
/// its signature-hash type.
#[derive(Debug, PartialEq, Eq)]
pub struct BitcoinSig {
    pub der: Vec<u8>,
    pub sighash: u32,
}

impl BitcoinSig {
    /// The signature as it stands in a witness or a script: the DER bytes,
    /// then the low byte of the signature-hash type.
    pub open spec fn encoded(&self) -> Seq<u8> {
        self.der@.push((self.sighash % 256) as u8)
    }

    /// Serializes the signature for a witness or a script.
    pub fn encode(&self) -> (r: Vec<u8>)
        ensures
            r@ == self.encoded(),
    {
        let mut out: Vec<u8> = Vec::new();
        append_bytes(&mut out, &self.der);
        out.push((self.sighash % 256) as u8);
        proof {
            assert(out@ =~= self.encoded());
        }
        out
    }
}

/// A pay-to-pubkey-hash descriptor: one key, spent by one signature.
#[derive(Debug, Clone, PartialEq, Eq, PartialOrd, Ord)]
pub struct Pkh<Pk: MiniscriptKey> {
    pk: Pk,
}

/// The script-sig that spends a pay-to-pubkey-hash output: the push of the
/// encoded signature, then the push of the key.
pub open spec fn pkh_script_sig(sig: Seq<u8>, key: Seq<u8>) -> Seq<u8> {
    data_push(sig) + data_push(key)
}

impl<Pk: MiniscriptKey> Pkh<Pk> {
    /// The key of the descriptor.
    pub closed spec fn inner(&self) -> Pk {
        self.pk
    }

    /// The serialized public key that the key of the descriptor resolves to.
    pub open spec fn key(&self) -> Seq<u8> {
        self.inner().key_bytes()
    }

    /// Wraps a key.
    pub fn new(pk: Pk) -> (r: Pkh<Pk>)
        ensures
            r.inner() == pk,
    {
        Pkh { pk }
    }

    /// The key inside.
    pub fn as_inner(&self) -> (r: &Pk)
        ensures
            *r == self.inner(),
    {
        &self.pk
    }

    /// A pay-to-pubkey-hash descriptor has no fragment that could be
    /// malformed.
    pub fn sanity_check(&self) -> (r: Result<(), Error>)
        ensures
            r is Ok,
    {
        Ok(())
    }

    /// The output script: the pay-to-pubkey-hash template over the hash of
    /// the key.
    pub fn script_pubkey(&self) -> (r: Vec<u8>)
        ensures
            r@ == p2pkh_script(hash160(self.key())),
            r@.len() == 25,
    {
        let hash = self.pk.to_pubkeyhash();
        let push = push_slice_bytes(&hash);
        let mut out: Vec<u8> = Vec::new();
        out.push(OP_DUP);
        out.push(OP_HASH160);
        append_bytes(&mut out, &push);
        out.push(OP_EQUALVERIFY);
        out.push(OP_CHECKSIG);
        proof {
            assert(out@ =~= p2pkh_script(hash160(self.key())));
        }
        out
    }

    /// The script-sig before any signature is known: empty.
    pub fn unsigned_script_sig(&self) -> (r: Vec<u8>)
        ensures
            r@.len() == 0,
    {
        Vec::new()
    }

    /// The script that a signature commits to: the output script.
    pub fn witness_script(&self) -> (r: Vec<u8>)
        ensures
            r@ == p2pkh_script(hash160(self.key())),
    {
        self.script_pubkey()
    }

    /// The script code: the output script.
    pub fn script_code(&self) -> (r: Vec<u8>)
        ensures
            r@ == p2pkh_script(hash160(self.key())),
    {
        self.script_pubkey()
    }

    /// Spends the output with the signer's answer for the key. With a
    /// signature the witness is empty and the script-sig pushes the encoded
    /// signature and the key; without one the key is reported as missing its
    /// signature.
    pub fn get_satisfaction(&self, answer: Option<BitcoinSig>) -> (r: Result<
        (Vec<Vec<u8>>, Vec<u8>),
        Error,
    >)
        requires
            answer matches Some(sig) ==> sig.der@.len() < 0xffff_ffff,
        ensures
            match r {
                Ok((witness, script_sig)) => {
                    &&& answer matches Some(sig)
                    &&& witness@.len() == 0
                    &&& script_sig@ == pkh_script_sig(sig.encoded(), self.key())
                },
                Err(e) => answer is None && (e matches Error::MissingSig(k) && k@ == self.key()),
            },
    {
        match answer {
            Some(sig) => {
                let sig_vec = sig.encode();
                let mut script_sig = push_slice_bytes(&sig_vec);
                let key_push = push_slice_bytes(&self.pk.to_public_key().to_bytes());
                append_bytes(&mut script_sig, &key_push);
                let witness: Vec<Vec<u8>> = Vec::new();
                Ok((witness, script_sig))
            },
            None => Err(Error::MissingSig(self.pk.to_public_key().to_bytes())),
        }
    }

    /// The spending cost for fee estimation, in weight units: four times a
    /// push opcode, a signature of at most 73 bytes and the key at its
    /// serialized length.
    pub fn max_satisfaction_weight(&self) -> (r: Option<usize>)
        ensures
            r == Some((4 * (1 + 73 + serialized_key_len(self.inner().uncompressed()))) as usize),
    {
        Some(4 * (1 + 73 + self.pk.serialized_len()))
    }

    /// The descriptor over the key that `translate` maps this one's key to;
    /// the error of `translate` where it fails.
    pub fn translate_pk<Q: MiniscriptKey, E, F: FnOnce(&Pk) -> Result<Q, E>>(
        &self,
        translate: F,
    ) -> (r: Result<Pkh<Q>, E>)
        requires
            translate.requires((&self.inner(),)),
        ensures
            match r {
                Ok(p) => translate.ensures((&self.inner(),), Ok(p.inner())),
                Err(e) => translate.ensures((&self.inner(),), Err(e)),
            },
    {
        match translate(&self.pk) {
            Ok(q) => Ok(Pkh::new(q)),
            Err(e) => Err(e),
        }
    }
}

/// The body of the text of a pay-to-pubkey-hash descriptor: `pkh(KEY)`.
pub open spec fn pkh_body(key: Seq<u8>) -> Seq<char> {
    "pkh("@ + hex_lower(key) + ")"@
}

/// The key that a descriptor body of the form `pkh(KEY)` names, or `None`
/// for a body of another form or with a key that does not parse.
pub open spec fn parsed_pkh_body(body: Seq<char>) -> Option<Seq<u8>> {
    if body.len() >= 5 && body.subrange(0, 4) == "pkh("@ && body.last() == ')' {
        parsed_public_key(body.subrange(4, body.len() - 1))
    } else {
        None
    }
}

/// The key that the text of a pay-to-pubkey-hash descriptor names.
pub open spec fn parsed_pkh(s: Seq<char>) -> Option<Seq<u8>> {
    match verified_body(s) {
        Some(body) => parsed_pkh_body(body),
        None => None,
    }
}

/// The body `pkh(KEY)` is plain text.
pub proof fn lemma_pkh_body_plain(key: Seq<u8>)
    ensures
        plain(pkh_body(key)),
        pkh_body(key).len() == 5 + 2 * key.len(),
{
    reveal_strlit("pkh(");
    reveal_strlit(")");
    lemma_hex_plain(key);
    assert(plain("pkh("@));
    assert(plain(")"@));
    lemma_plain_concat("pkh("@, hex_lower(key));
    lemma_plain_concat("pkh("@ + hex_lower(key), ")"@);
}

/// Reading the body `pkh(KEY)` of a valid key gives the key back.
pub proof fn lemma_pkh_body_round_trip(key: Seq<u8>)
    requires
        is_public_key(key),
    ensures
        crate::text::has_prefix(pkh_body(key), "pkh("@),
        parsed_pkh_body(pkh_body(key)) == Some(key),
{
    reveal_strlit("pkh(");
    reveal_strlit(")");
    let body = pkh_body(key);
    assert(body.subrange(0, 4) =~= "pkh("@);
    assert(body.subrange(4, body.len() - 1) =~= hex_lower(key));
}

/// Parsing the text of a pay-to-pubkey-hash descriptor over a valid key
/// gives the key back.
pub proof fn lemma_pkh_round_trip(key: Seq<u8>)
    requires
        is_public_key(key),
    ensures
        with_checksum(pkh_body(key)) is Some,
        parsed_pkh(with_checksum(pkh_body(key)).unwrap()) == Some(key),
{
    reveal_strlit("pkh(");
    reveal_strlit(")");
    lemma_pkh_body_plain(key);
    lemma_plain_round_trip(pkh_body(key));
    let body = pkh_body(key);
    assert(body.subrange(0, 4) =~= "pkh("@);
    assert(body.subrange(4, body.len() - 1) =~= hex_lower(key));
}

impl Pkh<PublicKey> {
    /// Appends the body `pkh(KEY)` to `out`.
    pub fn push_body(&self, out: &mut Vec<char>)
        ensures
            final(out)@ == old(out)@ + pkh_body(self.key()),
    {
        let ghost before = out@;
        append_str(out, "pkh(");
        let bytes = self.pk.to_bytes();
        push_hex(out, &bytes);
        append_str(out, ")");
        proof {
            assert(out@ =~= before + pkh_body(self.key()));
        }
    }

    /// The text of the descriptor: `pkh(KEY)#CHECKSUM`. The text verifies to
    /// its body, and over a valid key it reads as the key.
    pub fn to_string(&self) -> (r: String)
        ensures
            Some(r@) == with_checksum(pkh_body(self.key())),
            verified_body(r@) == Some(pkh_body(self.key())),
            is_public_key(self.key()) ==> parsed_pkh(r@) == Some(self.key()),
    {
        let mut out: Vec<char> = Vec::new();
        self.push_body(&mut out);
        proof {
            lemma_pkh_body_plain(self.key());
            lemma_plain_round_trip(pkh_body(self.key()));
            assert(out@ =~= pkh_body(self.key()));
            if is_public_key(self.key()) {
                lemma_pkh_body_round_trip(self.key());
            }
        }
        let ghost body = out@;
        match desc_checksum(&out) {
            Ok(sum) => {
                out.push('#');
                append_chars(&mut out, &sum);
                proof {
                    assert(out@ =~= body + seq!['#'] + sum@);
                }
            },
            Err(_) => {},
        }
        string_of(&out)
    }

    /// Reads the descriptor from a body of the form `pkh(KEY)`. A body of
    /// another form is unexpected; a key that does not parse is a bad key.
    pub fn from_body(body: &Vec<char>) -> (r: Result<Pkh<PublicKey>, Error>)
        ensures
            match r {
                Ok(p) => parsed_pkh_body(body@) == Some(p.key()) && is_public_key(p.key()),
                Err(e) => {
                    &&& parsed_pkh_body(body@) is None
                    &&& (body@.len() >= 5 && body@.subrange(0, 4) == "pkh("@ && body@.last()
                        == ')') ==> e is BadPubkey
                    &&& !(body@.len() >= 5 && body@.subrange(0, 4) == "pkh("@ && body@.last()
                        == ')') ==> e is Unexpected
                },
            },
    {
        proof {
            reveal_strlit("pkh(");
        }
        if body.len() >= 5 && starts_with(body, "pkh(") && body[body.len() - 1] == ')' {
            let key = slice_chars(body, 4, body.len() - 1);
            let key = string_of(&key);
            match PublicKey::from_str(key.as_str()) {
                Ok(pk) => Ok(Pkh::new(pk)),
                Err(e) => Err(e),
            }
        } else {
            let mut message: Vec<char> = Vec::new();
            append_chars(&mut message, body);
            append_str(&mut message, " while parsing pkh descriptor");
            Err(Error::Unexpected(string_of(&message)))
        }
    }

    /// Parses the text of the descriptor: `pkh(KEY)`, with or without
    /// `#CHECKSUM` behind it. A checksum that is there must match.
    pub fn from_str(s: &str) -> (r: Result<Pkh<PublicKey>, Error>)
        ensures
            match r {
                Ok(p) => parsed_pkh(s@) == Some(p.key()) && is_public_key(p.key()),
                Err(e) => parsed_pkh(s@) is None,
            },
    {
        let chars = chars_of(s);
        match verify_checksum(&chars) {
            Ok(body) => Pkh::from_body(&body),
            Err(e) => Err(e),
        }
    }
}

} // verus!
