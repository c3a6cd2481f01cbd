//! The legacy peg-in descriptor: a federation multisig with a timelocked
//! emergency fallback, bound to the descriptor that the pegged-in funds pay
//! out to.

use vstd::prelude::*;
use crate::descriptor::Descriptor;
use crate::engine::{
    segwit_encode, segwit_encoding, segwit_is_sane, segwit_max_satisfaction_size,
    segwit_max_witness_elements, segwit_sanity_check, segwit_satisfaction_size,
    segwit_witness_elements,
};
use crate::error::Error;
use crate::fragment::{
    emergency_text, keys_view, pegin_fragment, pegin_params, pegin_text,
    push_emergency_text, push_pegin_text, Fragment, FragmentView, PeginParams,
};
use crate::key::{hash160, hash160_of, tweak_public_key, tweaked_key, LegacyPeginKey, PublicKey};
use crate::pkh::BitcoinSig;
use crate::satisfy::{preferred_witness, preferred_witness_of, stack_view};
use crate::script::{
    append_bytes, data_push, int_push, push_int_bytes, push_slice_bytes, sha256, sha256_of,
    v0_p2wsh, v0_p2wsh_script, varint_len, varint_len_of, OP_DEPTH, OP_DROP, OP_ELSE, OP_ENDIF,
    OP_EQUAL, OP_HASH160, OP_IF, OP_VERIFY,
};
use crate::checksum::{desc_checksum, with_checksum};
use crate::text::{append_chars, append_str, string_of};

verus! {

/// The size that the witness script of the production federation has on
/// chain. The cost estimate uses this measured value for every federation:
/// the script is patched by hand, so no fragment accounts for its size.
pub const WITNESS_SCRIPT_SIZE: usize = 628;

/// The key that signs for a federation key under a contract: a functionary
/// key tweaked by the contract, any other key as it is.
pub open spec fn signing_key(k: (bool, Seq<u8>), contract: Seq<u8>) -> Option<Seq<u8>> {
    if k.0 {
        tweaked_key(k.1, contract)
    } else {
        Some(k.1)
    }
}

/// The signing keys of a list of federation keys, or `None` where a tweak
/// fails.
pub open spec fn signing_keys(keys: Seq<(bool, Seq<u8>)>, contract: Seq<u8>) -> Option<
    Seq<Seq<u8>>,
>
    decreases keys.len(),
{
    if keys.len() == 0 {
        Some(Seq::empty())
    } else {
        match (signing_keys(keys.drop_last(), contract), signing_key(keys.last(), contract)) {
            (Some(front), Some(k)) => Some(front.push(k)),
            _ => None,
        }
    }
}

/// The keys of a list as they are, without their tags.
pub open spec fn untweaked_keys(keys: Seq<(bool, Seq<u8>)>) -> Seq<Seq<u8>> {
    keys.map_values(|k: (bool, Seq<u8>)| k.1)
}

/// The serializations of a list of keys.
pub open spec fn keys_bytes(keys: Seq<PublicKey>) -> Seq<Seq<u8>> {
    keys.map_values(|k: PublicKey| k@)
}

/// The pushes of a list of keys, one behind the other.
pub open spec fn key_pushes(keys: Seq<Seq<u8>>) -> Seq<u8>
    decreases keys.len(),
{
    if keys.len() == 0 {
        Seq::empty()
    } else {
        key_pushes(keys.drop_last()) + data_push(keys.last())
    }
}

/// The federation branch, written by hand: a probe of the stack depth for
/// one more than the number of keys, then the multisig without its closing
/// opcode, then the start of the other branch.
pub open spec fn federation_branch(fed_k: nat, keys: Seq<Seq<u8>>) -> Seq<u8> {
    seq![OP_DEPTH] + int_push(keys.len() as int + 1) + seq![OP_EQUAL, OP_IF] + int_push(fed_k as int)
        + key_pushes(keys) + int_push(keys.len() as int) + seq![OP_ELSE]
}

/// The emergency branch as the federation wrote it: the engine's encoding
/// with the opcode at index 4 replaced by a drop.
pub open spec fn patched_emergency_branch(encoding: Seq<u8>) -> Seq<u8> {
    encoding.update(4, OP_DROP)
}

/// The witness script: both branches, with the end of the conditional put in
/// before the last byte.
pub open spec fn witness_script_of(fed_k: nat, keys: Seq<Seq<u8>>, encoding: Seq<u8>) -> Seq<u8> {
    let body = federation_branch(fed_k, keys) + patched_emergency_branch(encoding);
    body.insert(body.len() - 1, OP_ENDIF)
}

/// Where the pieces of the witness script stand. The federation branch
/// comes first as it is. Behind it stands the emergency branch, its last
/// byte moved one place back by the end of the conditional: up to that byte
/// every byte but the one at index 4 is the engine's, and where the
/// engine's encoding has more than five bytes, index 4 holds the drop.
pub proof fn lemma_witness_script_layout(fed_k: nat, keys: Seq<Seq<u8>>, encoding: Seq<u8>)
    requires
        encoding.len() > 4,
    ensures
        ({
            let left = federation_branch(fed_k, keys);
            let script = witness_script_of(fed_k, keys, encoding);
            let start = left.len() as int;
            let last = encoding.len() - 1;
            &&& script.len() == left.len() + encoding.len() + 1
            &&& script.subrange(0, start) == left
            &&& forall|i: int| 0 <= i < last && i != 4 ==> script[start + i] == encoding[i]
            &&& encoding.len() > 5 ==> script[start + 4] == OP_DROP
            &&& script[start + last] == OP_ENDIF
            &&& script[start + last + 1] == (if last == 4 {
                OP_DROP
            } else {
                encoding[last]
            })
        }),
{
    let left = federation_branch(fed_k, keys);
    let script = witness_script_of(fed_k, keys, encoding);
    assert(script.subrange(0, left.len() as int) =~= left);
}

/// The pay-to-script-hash output script of a redeem script.
pub open spec fn p2sh_script(redeem: Seq<u8>) -> Seq<u8> {
    seq![OP_HASH160] + data_push(hash160(redeem)) + seq![OP_EQUAL]
}

/// Assembles the witness script from the signing keys of the federation and
/// the engine's encoding of the emergency branch. The encoding must hold the
/// verify opcode at index 4, which is replaced.
pub fn assemble_witness_script(fed_k: usize, keys: &Vec<PublicKey>, encoding: Vec<u8>) -> (r: Vec<
    u8,
>)
    requires
        encoding@.len() > 4,
        encoding@[4] == OP_VERIFY,
        fed_k <= i64::MAX,
        keys@.len() < i64::MAX,
    ensures
        r@ == witness_script_of(fed_k as nat, keys_bytes(keys@), encoding@),
        r@.len() == federation_branch(fed_k as nat, keys_bytes(keys@)).len() + encoding@.len() + 1,
        r@[r@.len() - 2] == OP_ENDIF,
        r@[0] == OP_DEPTH,
{
    let mut script: Vec<u8> = Vec::new();
    script.push(OP_DEPTH);
    let depth = push_int_bytes(keys.len() as i64 + 1);
    append_bytes(&mut script, &depth);
    script.push(OP_EQUAL);
    script.push(OP_IF);
    let threshold = push_int_bytes(fed_k as i64);
    append_bytes(&mut script, &threshold);
    let ghost head = script@;
    let mut i: usize = 0;
    while i < keys.len()
        invariant
            i <= keys.len(),
            script@ == head + key_pushes(keys_bytes(keys@.subrange(0, i as int))),
        decreases keys.len() - i,
    {
        let bytes = keys[i].to_bytes();
        let push = push_slice_bytes(&bytes);
        proof {
            let next = keys_bytes(keys@.subrange(0, i + 1));
            assert(next.drop_last() =~= keys_bytes(keys@.subrange(0, i as int)));
            assert(next.last() == keys@[i as int]@);
        }
        let ghost sofar = script@;
        append_bytes(&mut script, &push);
        proof {
            assert(script@ =~= head + key_pushes(keys_bytes(keys@.subrange(0, i + 1))));
        }
        i += 1;
    }
    proof {
        assert(keys@.subrange(0, i as int) =~= keys@);
    }
    let count = push_int_bytes(keys.len() as i64);
    append_bytes(&mut script, &count);
    script.push(OP_ELSE);
    proof {
        assert(script@ =~= federation_branch(fed_k as nat, keys_bytes(keys@)));
    }
    let mut right = encoding;
    right.set(4, OP_DROP);
    append_bytes(&mut script, &right);
    let insert_point: usize = script.len() - 1;
    script.insert(insert_point, OP_ENDIF);
    script
}

/// The cost estimate of a peg-in input, from the engine's bounds on the
/// number of witness elements and on the witness size.
pub open spec fn pegin_weight_of(elements: nat, size: nat) -> nat {
    4 * 36 + varint_len_of(WITNESS_SCRIPT_SIZE as nat) + WITNESS_SCRIPT_SIZE as nat + varint_len_of(
        elements,
    ) + size
}

/// The cost estimate of a peg-in input.
pub fn pegin_weight(elements: usize, size: usize) -> (r: usize)
    requires
        pegin_weight_of(elements as nat, size as nat) <= usize::MAX,
    ensures
        r == pegin_weight_of(elements as nat, size as nat),
{
    4 * 36 + varint_len(WITNESS_SCRIPT_SIZE) + WITNESS_SCRIPT_SIZE + varint_len(elements) + size
}

/// The texts of the functionary keys of the production federation.
pub open spec fn production_federation_keys() -> Seq<Seq<char>> {
    seq![
        "020e0338c96a8870479f2396c373cc7696ba124e8635d41b0ea581112b67817261"@,
        "02675333a4e4b8fb51d9d4e22fa5a8eaced3fdac8a8cbf9be8c030f75712e6af99"@,
        "02896807d54bc55c24981f24a453c60ad3e8993d693732288068a23df3d9f50d48"@,
        "029e51a5ef5db3137051de8323b001749932f2ff0d34c82e96a2c2461de96ae56c"@,
        "02a4e1a9638d46923272c266631d94d36bdb03a64ee0e14c7518e49d2f29bc4010"@,
        "02f8a00b269f8c5e59c67d36db3cdc11b11b21f64b4bffb2815e9100d9aa8daf07"@,
        "03079e252e85abffd3c401a69b087e590a9b86f33f574f08129ccbd3521ecf516b"@,
        "03111cf405b627e22135b3b3733a4a34aa5723fb0f58379a16d32861bf576b0ec2"@,
        "0318f331b3e5d38156da6633b31929c5b220349859cc9ca3d33fb4e68aa0840174"@,
        "03230dae6b4ac93480aeab26d000841298e3b8f6157028e47b0897c1e025165de1"@,
        "035abff4281ff00660f99ab27bb53e6b33689c2cd8dcd364bc3c90ca5aea0d71a6"@,
        "03bd45cddfacf2083b14310ae4a84e25de61e451637346325222747b157446614c"@,
        "03cc297026b06c71cbfa52089149157b5ff23de027ac5ab781800a578192d17546"@,
        "03d3bde5d63bdb3a6379b461be64dad45eabff42f758543a9645afd42f6d424828"@,
        "03ed1e8d5109c9ed66f7941bc53cc71137baa76d50d274bda8d5e8ffbd6e61fe9a"@,
    ]
}

/// The texts of the emergency keys of the production federation.
pub open spec fn production_emergency_keys() -> Seq<Seq<char>> {
    seq![
        "03aab896d53a8e7d6433137bbba940f9c521e085dd07e60994579b64a6d992cf79"@,
        "0291b7d0b1b692f8f524516ed950872e5da10fb1b808b5a526dedc6fed1cf29807"@,
        "0386aa9372fbab374593466bc5451dc59954e90787f08060964d95c87ef34ca5bb"@,
    ]
}

/// The functionary keys that a list of key texts parses to, or `None` where
/// one of them does not parse.
pub open spec fn functionary_keys_of(texts: Seq<Seq<char>>) -> Option<Seq<(bool, Seq<u8>)>>
    decreases texts.len(),
{
    if texts.len() == 0 {
        Some(Seq::empty())
    } else {
        match (
            functionary_keys_of(texts.drop_last()),
            crate::key::parsed_public_key(texts.last()),
        ) {
            (Some(front), Some(k)) => Some(front.push((true, k))),
            _ => None,
        }
    }
}

/// The texts of a list of strings.
pub open spec fn texts_of(list: Seq<&str>) -> Seq<Seq<char>> {
    list.map_values(|t: &str| t@)
}

/// Parses a list of key texts into functionary keys.
pub fn parse_functionary_keys(texts: &Vec<&str>) -> (r: Option<Vec<LegacyPeginKey>>)
    ensures
        match r {
            Some(keys) => functionary_keys_of(texts_of(texts@)) == Some(keys_view(keys@))
                && keys@.len() == texts@.len(),
            None => functionary_keys_of(texts_of(texts@)) is None,
        },
{
    let mut out: Vec<LegacyPeginKey> = Vec::new();
    let mut failed: bool = false;
    let mut i: usize = 0;
    while i < texts.len()
        invariant
            i <= texts.len(),
            !failed ==> out@.len() == i && functionary_keys_of(
                texts_of(texts@.subrange(0, i as int)),
            ) == Some(keys_view(out@)),
            failed ==> functionary_keys_of(texts_of(texts@.subrange(0, i as int))) is None,
        decreases texts.len() - i,
    {
        proof {
            let next = texts_of(texts@.subrange(0, i + 1));
            assert(next.drop_last() =~= texts_of(texts@.subrange(0, i as int)));
            assert(next.last() == texts@[i as int]@);
        }
        let ghost before = keys_view(out@);
        match PublicKey::from_str(texts[i]) {
            Ok(pk) => {
                if !failed {
                    out.push(LegacyPeginKey::Functionary(pk));
                    proof {
                        assert(keys_view(out@) =~= before.push((true, pk@)));
                    }
                }
            },
            Err(_) => {
                failed = true;
            },
        }
        i += 1;
    }
    proof {
        assert(texts@.subrange(0, i as int) =~= texts@);
    }
    if failed {
        None
    } else {
        Some(out)
    }
}

/// The body of the text of a peg-in descriptor.
pub open spec fn legacy_pegin_body(p: PeginParams, desc_body: Seq<char>) -> Seq<char> {
    "legacy_pegin("@ + pegin_text(p, true) + ","@ + desc_body + ")"@
}

/// The federation policy as a fragment, as a peg-in descriptor caches it.
/// Only the descriptor's own constructors make one.
#[derive(Debug, Clone, PartialEq, Eq, PartialOrd, Ord)]
pub struct CachedFragment {
    inner: Fragment,
}

impl View for CachedFragment {
    type V = FragmentView;

    closed spec fn view(&self) -> FragmentView {
        self.inner@
    }
}

/// A legacy peg-in descriptor.
#[derive(Debug, Clone, PartialEq, Eq, PartialOrd, Ord)]
pub struct LegacyPegin {
    /// The federation keys.
    pub fed_pks: Vec<LegacyPeginKey>,
    /// The federation threshold.
    pub fed_k: usize,
    /// The emergency keys.
    pub emer_pks: Vec<LegacyPeginKey>,
    /// The emergency threshold.
    pub emer_k: usize,
    /// The relative timelock of the emergency path, in blocks.
    pub timelock: u32,
    /// The descriptor that redeems the pegged-in funds.
    pub desc: Descriptor,
    /// The federation policy as a fragment, derived from the fields above.
    pub ms: CachedFragment,
}

impl LegacyPegin {
    /// The five values of the federation.
    pub open spec fn params(&self) -> PeginParams {
        PeginParams {
            fed_pks: keys_view(self.fed_pks@),
            fed_k: self.fed_k as nat,
            emer_pks: keys_view(self.emer_pks@),
            emer_k: self.emer_k as nat,
            timelock: self.timelock,
        }
    }

    /// The cached fragment.
    pub open spec fn fragment(&self) -> FragmentView {
        self.ms@
    }

    /// The descriptor that redeems the funds.
    pub open spec fn user_descriptor(&self) -> Descriptor {
        self.desc
    }

    /// Whether the cached fragment is the fragment of the fields.
    pub open spec fn consistent(&self) -> bool {
        self.fragment() == pegin_fragment(self.params())
    }

    /// Whether the thresholds and the timelock make a fragment that type
    /// checks: each threshold at least one and at most the number of its
    /// keys, the timelock not zero.
    pub open spec fn well_typed(p: PeginParams) -> bool {
        &&& 1 <= p.fed_k <= p.fed_pks.len()
        &&& 1 <= p.emer_k <= p.emer_pks.len()
        &&& p.timelock != 0
    }

    /// Whether the descriptor is consistent and well typed.
    pub open spec fn wf(&self) -> bool {
        self.consistent() && Self::well_typed(self.params())
    }

    /// Makes the descriptor of a federation, and caches its fragment.
    pub fn new(
        fed_pks: Vec<LegacyPeginKey>,
        fed_k: usize,
        emer_pks: Vec<LegacyPeginKey>,
        emer_k: usize,
        timelock: u32,
        desc: Descriptor,
    ) -> (r: LegacyPegin)
        requires
            1 <= fed_k <= fed_pks@.len(),
            1 <= emer_k <= emer_pks@.len(),
            timelock != 0,
        ensures
            r.wf(),
            r.params() == (PeginParams {
                fed_pks: keys_view(fed_pks@),
                fed_k: fed_k as nat,
                emer_pks: keys_view(emer_pks@),
                emer_k: emer_k as nat,
                timelock,
            }),
            r.user_descriptor() == desc,
    {
        let ms = CachedFragment {
            inner: Fragment::pegin(&fed_pks, fed_k, &emer_pks, emer_k, timelock),
        };
        LegacyPegin { fed_pks, fed_k, emer_pks, emer_k, timelock, desc, ms }
    }

    /// Recovers the descriptor from a fragment of the peg-in shape: the
    /// fields are read off the fragment, which is kept as the cache.
    pub fn from_ms_and_desc(desc: Descriptor, ms: Fragment) -> (r: LegacyPegin)
        requires
            pegin_params(ms@) is Some,
        ensures
            r.consistent(),
            Some(r.params()) == pegin_params(ms@),
            r.fragment() == ms@,
            r.user_descriptor() == desc,
    {
        let ghost model = ms@;
        let (fed_pks, fed_k, emer_pks, emer_k, timelock) = ms.into_pegin_params();
        let ms = CachedFragment {
            inner: Fragment::pegin(&fed_pks, fed_k, &emer_pks, emer_k, timelock),
        };
        proof {
            crate::fragment::lemma_fragment_of_params(model);
        }
        LegacyPegin { fed_pks, fed_k, emer_pks, emer_k, timelock, desc, ms }
    }

    /// The federation keys.
    pub fn federation_keys(&self) -> (r: &Vec<LegacyPeginKey>)
        ensures
            keys_view(r@) == self.params().fed_pks,
    {
        &self.fed_pks
    }

    /// The federation threshold.
    pub fn federation_threshold(&self) -> (r: usize)
        ensures
            r == self.params().fed_k,
    {
        self.fed_k
    }

    /// The emergency keys.
    pub fn emergency_keys(&self) -> (r: &Vec<LegacyPeginKey>)
        ensures
            keys_view(r@) == self.params().emer_pks,
    {
        &self.emer_pks
    }

    /// The emergency threshold.
    pub fn emergency_threshold(&self) -> (r: usize)
        ensures
            r == self.params().emer_k,
    {
        self.emer_k
    }

    /// The relative timelock of the emergency path.
    pub fn relative_timelock(&self) -> (r: u32)
        ensures
            r == self.params().timelock,
    {
        self.timelock
    }

    /// The descriptor that redeems the funds.
    pub fn as_user_descriptor(&self) -> (r: &Descriptor)
        ensures
            *r == self.user_descriptor(),
    {
        &self.desc
    }

    /// Gives up the descriptor that redeems the funds.
    pub fn into_user_descriptor(self) -> (r: Descriptor)
        ensures
            r == self.user_descriptor(),
    {
        self.desc
    }

    /// The contract that the federation keys are tweaked by: the SHA-256 of
    /// the redeeming descriptor's script.
    pub open spec fn contract(&self) -> Seq<u8> {
        sha256(self.user_descriptor().explicit_script_bytes())
    }

    /// The witness script, or `None` where the threshold or the number of
    /// keys does not fit a script number, a tweak fails, or the engine's
    /// encoding of the emergency branch does not hold the verify opcode at
    /// index 4.
    pub open spec fn witness_script(&self) -> Option<Seq<u8>> {
        let p = self.params();
        if p.fed_k > i64::MAX || p.fed_pks.len() >= i64::MAX {
            None
        } else {
            match (
                signing_keys(p.fed_pks, self.contract()),
                segwit_encoding(emergency_text(p, false)),
            ) {
                (Some(keys), Some(encoding)) => if encoding.len() > 4 && encoding[4]
                    == OP_VERIFY {
                    Some(witness_script_of(p.fed_k, keys, encoding))
                } else {
                    None
                },
                _ => None,
            }
        }
    }

    /// The keys that sign for the federation: each functionary key tweaked
    /// by the contract, at the length of the key that it was made of. `None`
    /// where a tweak fails.
    pub fn federation_signing_keys(&self) -> (r: Option<Vec<PublicKey>>)
        ensures
            match r {
                Some(keys) => {
                    &&& signing_keys(self.params().fed_pks, self.contract()) == Some(
                        keys_bytes(keys@),
                    )
                    &&& keys@.len() == self.params().fed_pks.len()
                    &&& forall|j: int|
                        0 <= j < keys@.len() ==> (#[trigger] keys@[j])@.len()
                            == self.params().fed_pks[j].1.len()
                },
                None => signing_keys(self.params().fed_pks, self.contract()) is None,
            },
    {
        let script = self.desc.explicit_script();
        let tweak = sha256_of(&script);
        let mut out: Vec<PublicKey> = Vec::new();
        let mut i: usize = 0;
        while i < self.fed_pks.len()
            invariant
                i <= self.fed_pks.len(),
                out@.len() == i,
                tweak@ == self.contract(),
                signing_keys(keys_view(self.fed_pks@.subrange(0, i as int)), tweak@) == Some(
                    keys_bytes(out@),
                ),
                forall|j: int|
                    0 <= j < i ==> (#[trigger] out@[j])@.len() == self.fed_pks@[j]@.1.len(),
            decreases self.fed_pks.len() - i,
        {
            let ghost prev = keys_view(self.fed_pks@.subrange(0, i as int));
            let ghost next = keys_view(self.fed_pks@.subrange(0, i + 1));
            proof {
                assert(next.drop_last() =~= prev);
                assert(next.last() == self.fed_pks@[i as int]@);
            }
            let key = &self.fed_pks[i];
            let signing = if key.is_functionary() {
                match tweak_public_key(key.as_untweaked(), &tweak) {
                    Some(k) => k,
                    None => {
                        proof {
                            lemma_signing_keys_prefix(
                                keys_view(self.fed_pks@),
                                tweak@,
                                i as int,
                            );
                            assert(keys_view(self.fed_pks@).subrange(0, i + 1) =~= next);
                        }
                        return None;
                    },
                }
            } else {
                key.as_untweaked().duplicate()
            };
            let ghost before = keys_bytes(out@);
            out.push(signing);
            proof {
                assert(keys_bytes(out@) =~= before.push(signing@));
            }
            i += 1;
        }
        proof {
            assert(self.fed_pks@.subrange(0, i as int) =~= self.fed_pks@);
        }
        Some(out)
    }

    /// The keys that sign on the emergency path: the emergency keys as they
    /// are.
    pub fn emergency_signing_keys(&self) -> (r: Vec<PublicKey>)
        ensures
            keys_bytes(r@) == untweaked_keys(self.params().emer_pks),
    {
        let mut out: Vec<PublicKey> = Vec::new();
        let mut i: usize = 0;
        while i < self.emer_pks.len()
            invariant
                i <= self.emer_pks.len(),
                out@.len() == i,
                forall|j: int| 0 <= j < i ==> out@[j]@ == self.emer_pks@[j]@.1,
            decreases self.emer_pks.len() - i,
        {
            out.push(self.emer_pks[i].as_untweaked().duplicate());
            i += 1;
        }
        proof {
            assert(keys_bytes(out@) =~= untweaked_keys(keys_view(self.emer_pks@)));
        }
        out
    }

    /// The witness script of the peg-in output; `None` where it cannot be
    /// built.
    pub fn bitcoin_witness_script(&self) -> (r: Option<Vec<u8>>)
        ensures
            match r {
                Some(script) => self.witness_script() == Some(script@),
                None => self.witness_script() is None,
            },
    {
        if self.fed_k as u64 > 0x7fff_ffff_ffff_ffff || self.fed_pks.len() as u64
            >= 0x7fff_ffff_ffff_ffff {
            return None;
        }
        let keys = match self.federation_signing_keys() {
            Some(keys) => keys,
            None => {
                return None;
            },
        };
        let mut text: Vec<char> = Vec::new();
        push_emergency_text(&mut text, self.timelock, self.emer_k, &self.emer_pks, false);
        proof {
            assert(text@ =~= emergency_text(self.params(), false));
        }
        let text = string_of(&text);
        match segwit_encode(text.as_str()) {
            Some(encoding) => {
                if encoding.len() > 4 && encoding[4] == OP_VERIFY {
                    Some(assemble_witness_script(self.fed_k, &keys, encoding))
                } else {
                    None
                }
            },
            None => None,
        }
    }

    /// The script code: the witness script.
    pub fn script_code(&self) -> (r: Option<Vec<u8>>)
        ensures
            match r {
                Some(script) => self.witness_script() == Some(script@),
                None => self.witness_script() is None,
            },
    {
        self.bitcoin_witness_script()
    }

    /// The script-sig of the peg-in input, which needs no signature: the
    /// push of the witness program of the witness script.
    pub fn bitcoin_unsigned_script_sig(&self) -> (r: Option<Vec<u8>>)
        ensures
            match r {
                Some(sig) => self.witness_script() matches Some(ws) && sig@ == data_push(
                    v0_p2wsh_script(ws),
                ),
                None => self.witness_script() is None,
            },
    {
        match self.bitcoin_witness_script() {
            Some(ws) => {
                let program = v0_p2wsh(&ws);
                Some(push_slice_bytes(&program))
            },
            None => None,
        }
    }

    /// The output script of the peg-in address: pay to the script hash of
    /// the witness program of the witness script.
    pub fn bitcoin_script_pubkey(&self) -> (r: Option<Vec<u8>>)
        ensures
            match r {
                Some(spk) => self.witness_script() matches Some(ws) && spk@ == p2sh_script(
                    v0_p2wsh_script(ws),
                ),
                None => self.witness_script() is None,
            },
    {
        match self.bitcoin_witness_script() {
            Some(ws) => {
                let program = v0_p2wsh(&ws);
                let hash = hash160_of(&program);
                let push = push_slice_bytes(&hash);
                let mut out: Vec<u8> = Vec::new();
                out.push(OP_HASH160);
                append_bytes(&mut out, &push);
                out.push(OP_EQUAL);
                proof {
                    assert(out@ =~= p2sh_script(v0_p2wsh_script(ws@)));
                }
                Some(out)
            },
            None => None,
        }
    }

    /// Spends the peg-in output with the signer's answers: one for each
    /// federation signing key and one for each emergency key, in the order
    /// of the keys. The federation path is taken wherever its threshold is
    /// reached; the emergency path only where it is not; where neither
    /// threshold is reached the spend fails and no witness is returned.
    /// `None` where the witness script cannot be built.
    pub fn get_bitcoin_satisfaction(
        &self,
        fed_answers: &Vec<Option<BitcoinSig>>,
        emer_answers: &Vec<Option<BitcoinSig>>,
    ) -> (r: Option<Result<(Vec<Vec<u8>>, Vec<u8>), Error>>)
        ensures
            r is None <==> self.witness_script() is None,
            r matches Some(Ok((witness, script_sig))) ==> {
                &&& preferred_witness(
                    fed_answers@,
                    self.params().fed_k,
                    emer_answers@,
                    self.params().emer_k,
                ) == Some(stack_view(witness@))
                &&& self.witness_script() matches Some(ws) && script_sig@ == data_push(
                    v0_p2wsh_script(ws),
                )
            },
            r matches Some(Err(e)) ==> e is CouldNotSatisfy && preferred_witness(
                fed_answers@,
                self.params().fed_k,
                emer_answers@,
                self.params().emer_k,
            ) is None,
    {
        let unsigned_script_sig = match self.bitcoin_unsigned_script_sig() {
            Some(sig) => sig,
            None => {
                return None;
            },
        };
        match preferred_witness_of(fed_answers, self.fed_k, emer_answers, self.emer_k) {
            Some(witness) => Some(Ok((witness, unsigned_script_sig))),
            None => Some(Err(Error::CouldNotSatisfy)),
        }
    }

    /// The spending cost for fee estimation: the input's fixed part, the
    /// witness script at its measured size with its length prefix, the
    /// length prefix of the number of witness elements, and the engine's
    /// bound on the witness size. Fails where the engine knows no
    /// satisfaction of the fragment; `None` where the sum does not fit.
    pub fn max_satisfaction_weight(&self) -> (r: Option<Result<usize, Error>>)
        ensures
            match (
                segwit_max_witness_elements(pegin_text(self.params(), false)),
                segwit_max_satisfaction_size(pegin_text(self.params(), false)),
            ) {
                (Some(elements), Some(size)) => if pegin_weight_of(elements, size) <= usize::MAX {
                    r matches Some(Ok(w)) && w == pegin_weight_of(elements, size)
                } else {
                    r is None
                },
                _ => r matches Some(Err(e)) && e is ImpossibleSatisfaction,
            },
    {
        let mut text: Vec<char> = Vec::new();
        push_pegin_text(
            &mut text,
            &self.fed_pks,
            self.fed_k,
            &self.emer_pks,
            self.emer_k,
            self.timelock,
            false,
        );
        proof {
            assert(text@ =~= pegin_text(self.params(), false));
        }
        let text = string_of(&text);
        let elements = match segwit_witness_elements(text.as_str()) {
            Some(n) => n,
            None => {
                return Some(Err(Error::ImpossibleSatisfaction));
            },
        };
        let size = match segwit_satisfaction_size(text.as_str()) {
            Some(n) => n,
            None => {
                return Some(Err(Error::ImpossibleSatisfaction));
            },
        };
        if size <= usize::MAX - 775 - varint_len(elements) {
            Some(Ok(pegin_weight(elements, size)))
        } else {
            None
        }
    }

    /// The descriptor of the production federation: eleven of fifteen
    /// functionary keys, or after 4032 blocks two of three emergency keys.
    /// `None` where the key parser rejects one of the built-in keys.
    pub fn new_legacy_fed(user_desc: Descriptor) -> (r: Option<LegacyPegin>)
        ensures
            match (
                functionary_keys_of(production_federation_keys()),
                functionary_keys_of(production_emergency_keys()),
            ) {
                (Some(fed_pks), Some(emer_pks)) => {
                    &&& r matches Some(d)
                    &&& d.wf()
                    &&& d.params() == (PeginParams {
                        fed_pks,
                        fed_k: 11,
                        emer_pks,
                        emer_k: 2,
                        timelock: 4032,
                    })
                    &&& d.params().fed_pks.len() == 15
                    &&& d.params().emer_pks.len() == 3
                    &&& d.user_descriptor() == user_desc
                },
                _ => r is None,
            },
    {
        let fed_texts: Vec<&str> = vec![
            "020e0338c96a8870479f2396c373cc7696ba124e8635d41b0ea581112b67817261",
            "02675333a4e4b8fb51d9d4e22fa5a8eaced3fdac8a8cbf9be8c030f75712e6af99",
            "02896807d54bc55c24981f24a453c60ad3e8993d693732288068a23df3d9f50d48",
            "029e51a5ef5db3137051de8323b001749932f2ff0d34c82e96a2c2461de96ae56c",
            "02a4e1a9638d46923272c266631d94d36bdb03a64ee0e14c7518e49d2f29bc4010",
            "02f8a00b269f8c5e59c67d36db3cdc11b11b21f64b4bffb2815e9100d9aa8daf07",
            "03079e252e85abffd3c401a69b087e590a9b86f33f574f08129ccbd3521ecf516b",
            "03111cf405b627e22135b3b3733a4a34aa5723fb0f58379a16d32861bf576b0ec2",
            "0318f331b3e5d38156da6633b31929c5b220349859cc9ca3d33fb4e68aa0840174",
            "03230dae6b4ac93480aeab26d000841298e3b8f6157028e47b0897c1e025165de1",
            "035abff4281ff00660f99ab27bb53e6b33689c2cd8dcd364bc3c90ca5aea0d71a6",
            "03bd45cddfacf2083b14310ae4a84e25de61e451637346325222747b157446614c",
            "03cc297026b06c71cbfa52089149157b5ff23de027ac5ab781800a578192d17546",
            "03d3bde5d63bdb3a6379b461be64dad45eabff42f758543a9645afd42f6d424828",
            "03ed1e8d5109c9ed66f7941bc53cc71137baa76d50d274bda8d5e8ffbd6e61fe9a",
        ];
        let emer_texts: Vec<&str> = vec![
            "03aab896d53a8e7d6433137bbba940f9c521e085dd07e60994579b64a6d992cf79",
            "0291b7d0b1b692f8f524516ed950872e5da10fb1b808b5a526dedc6fed1cf29807",
            "0386aa9372fbab374593466bc5451dc59954e90787f08060964d95c87ef34ca5bb",
        ];
        proof {
            assert(texts_of(fed_texts@) =~= production_federation_keys());
            assert(texts_of(emer_texts@) =~= production_emergency_keys());
        }
        let fed = parse_functionary_keys(&fed_texts);
        let emer = parse_functionary_keys(&emer_texts);
        match (fed, emer) {
            (Some(fed_pks), Some(emer_pks)) => Some(
                LegacyPegin::new(fed_pks, 11, emer_pks, 2, 4032, user_desc),
            ),
            _ => None,
        }
    }

    /// The body of the descriptor's text:
    /// `legacy_pegin(FRAGMENT,DESCRIPTOR)`, the fragment with tagged keys.
    pub open spec fn body(&self) -> Seq<char> {
        legacy_pegin_body(self.params(), self.user_descriptor().body())
    }

    /// The text of the descriptor: its body, `#`, and the checksum of the
    /// body. The text verifies to the body, and over valid keys and
    /// thresholds that fit in 32 bits the body reads as the federation and
    /// the text of the redeeming descriptor.
    pub fn to_string(&self) -> (r: String)
        ensures
            with_checksum(self.body()) == Some(r@),
            crate::checksum::verified_body(r@) == Some(self.body()),
            crate::checksum::plain(self.user_descriptor().body()),
            crate::pegin_text::readable(self.params()) ==> crate::pegin_text::parsed_pegin_body(
                self.body(),
            ) == Some((self.params(), self.user_descriptor().body())),
    {
        let mut out: Vec<char> = Vec::new();
        append_str(&mut out, "legacy_pegin(");
        push_pegin_text(
            &mut out,
            &self.fed_pks,
            self.fed_k,
            &self.emer_pks,
            self.emer_k,
            self.timelock,
            true,
        );
        append_str(&mut out, ",");
        self.desc.push_body(&mut out);
        append_str(&mut out, ")");
        proof {
            assert(out@ =~= self.body());
            crate::pegin_text::lemma_pegin_body_plain(self.params(), self.user_descriptor().body());
            crate::checksum::lemma_plain_round_trip(self.body());
        }
        let ghost body = out@;
        match desc_checksum(&out) {
            Ok(sum) => {
                out.push('#');
                append_chars(&mut out, &sum);
                proof {
                    assert(out@ =~= body + seq!['#'] + sum@);
                }
            },
            Err(_) => {},
        }
        let text = string_of(&out);
        proof {
            crate::pegin_text::lemma_readable(self.params(), self.user_descriptor().body());
        }
        text
    }

    /// Checks the federation fragment and the redeeming descriptor. Either
    /// failure is reported as a malformed federation script.
    pub fn sanity_check(&self) -> (r: Result<(), Error>)
        ensures
            r is Ok <==> segwit_is_sane(pegin_text(self.params(), false)) && (
            self.user_descriptor() matches Descriptor::Bare(b) ==> crate::engine::bare_is_sane(
                b.text(),
            )),
            r matches Err(e) ==> (e matches Error::Unexpected(m) && m@
                == "Federation script sanity check failed"@),
    {
        let mut text: Vec<char> = Vec::new();
        push_pegin_text(
            &mut text,
            &self.fed_pks,
            self.fed_k,
            &self.emer_pks,
            self.emer_k,
            self.timelock,
            false,
        );
        proof {
            assert(text@ =~= pegin_text(self.params(), false));
        }
        let text = string_of(&text);
        if !segwit_sanity_check(text.as_str()) {
            return Err(Error::Unexpected(String::from_str("Federation script sanity check failed")));
        }
        match self.desc.sanity_check() {
            Ok(()) => Ok(()),
            Err(_) => Err(
                Error::Unexpected(String::from_str("Federation script sanity check failed")),
            ),
        }
    }
}

/// Where the signing key of one key fails, the signing keys of the whole
/// list fail.
proof fn lemma_signing_keys_prefix(keys: Seq<(bool, Seq<u8>)>, contract: Seq<u8>, i: int)
    requires
        0 <= i < keys.len(),
        signing_key(keys[i], contract) is None,
    ensures
        signing_keys(keys, contract) is None,
    decreases keys.len(),
{
    if i < keys.len() - 1 {
        lemma_signing_keys_prefix(keys.drop_last(), contract, i);
    }
}

} // verus!
