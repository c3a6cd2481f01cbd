//! The descriptors that a peg-in can pay out to.

use vstd::prelude::*;
use crate::bare::{bare_of_text, is_bare_failure, is_bare_text, Bare};
use crate::checksum::{
    desc_checksum, lemma_plain_round_trip, plain, verified_body, verify_checksum, with_checksum,
};
use crate::engine::{bare_encoding, bare_is_sane};
use crate::error::Error;
use crate::key::{hash160, is_public_key, PublicKey};
use crate::pkh::{parsed_pkh_body, pkh_body, Pkh};
use crate::script::p2pkh_script;
use crate::text::{append_chars, chars_of, has_prefix, starts_with, string_of};

verus! {

/// A descriptor of an output script.
#[derive(Debug, Clone, PartialEq, Eq, PartialOrd, Ord)]
pub enum Descriptor {
    /// A fragment that stands in the output itself.
    Bare(Bare),
    /// Pay to the hash of one key.
    Pkh(Pkh<PublicKey>),
}

impl Descriptor {
    /// The script that the descriptor stands for, written out in full.
    pub open spec fn explicit_script_bytes(&self) -> Seq<u8> {
        match *self {
            Descriptor::Bare(b) => bare_encoding(b.text()).unwrap(),
            Descriptor::Pkh(p) => p2pkh_script(hash160(p.key())),
        }
    }

    /// The body of the descriptor's text, without a checksum.
    pub open spec fn body(&self) -> Seq<char> {
        match *self {
            Descriptor::Bare(b) => b.text(),
            Descriptor::Pkh(p) => pkh_body(p.key()),
        }
    }

    /// The script that the descriptor stands for, written out in full.
    pub fn explicit_script(&self) -> (r: Vec<u8>)
        ensures
            r@ == self.explicit_script_bytes(),
    {
        match self {
            Descriptor::Bare(b) => b.script_pubkey(),
            Descriptor::Pkh(p) => p.script_pubkey(),
        }
    }

    /// Checks the fragment inside, if there is one.
    pub fn sanity_check(&self) -> (r: Result<(), Error>)
        ensures
            r is Ok <==> (self matches Descriptor::Bare(b) ==> bare_is_sane(b.text())),
    {
        match self {
            Descriptor::Bare(b) => b.sanity_check(),
            Descriptor::Pkh(p) => p.sanity_check(),
        }
    }

    /// Appends the body of the descriptor's text, which is plain, to `out`.
    pub fn push_body(&self, out: &mut Vec<char>)
        ensures
            final(out)@ == old(out)@ + self.body(),
            plain(self.body()),
            self matches Descriptor::Bare(b) ==> is_bare_text(b.text()),
    {
        match self {
            Descriptor::Bare(b) => b.push_body(out),
            Descriptor::Pkh(p) => {
                proof {
                    crate::pkh::lemma_pkh_body_plain(p.key());
                }
                p.push_body(out)
            },
        }
    }

    /// The text of the descriptor: its body, `#`, and the checksum of the
    /// body. The text verifies to the body.
    pub fn to_string(&self) -> (r: String)
        ensures
            with_checksum(self.body()) == Some(r@),
            verified_body(r@) == Some(self.body()),
    {
        let mut out: Vec<char> = Vec::new();
        self.push_body(&mut out);
        proof {
            assert(out@ =~= self.body());
            lemma_plain_round_trip(self.body());
        }
        let ghost body = out@;
        match desc_checksum(&out) {
            Ok(sum) => {
                out.push('#');
                append_chars(&mut out, &sum);
                proof {
                    assert(out@ =~= body + seq!['#'] + sum@);
                }
            },
            Err(_) => {},
        }
        string_of(&out)
    }

    /// Whether a body is the text of a descriptor: behind `pkh(` a key that
    /// parses, else a fragment that the bare context accepts at top level.
    pub open spec fn has_descriptor(body: Seq<char>) -> bool {
        if has_prefix(body, "pkh("@) {
            parsed_pkh_body(body) is Some
        } else {
            bare_of_text(body) is Some
        }
    }

    /// Whether this is the descriptor that a body is the text of.
    pub open spec fn describes(&self, body: Seq<char>) -> bool {
        match *self {
            Descriptor::Pkh(p) => has_prefix(body, "pkh("@) && parsed_pkh_body(body) == Some(
                p.key(),
            ) && is_public_key(p.key()),
            Descriptor::Bare(b) => !has_prefix(body, "pkh("@) && bare_of_text(body) == Some(
                b.text(),
            ) && is_bare_text(b.text()),
        }
    }

    /// Whether `e` is the error that a body which is no descriptor's text is
    /// refused with. Behind `pkh(`: a bad key where the body closes with a
    /// bracket, else an unexpected form. Otherwise: a non-standard bare
    /// script where the engine reads a fragment, else a bad descriptor.
    pub open spec fn is_failure(body: Seq<char>, e: Error) -> bool {
        if has_prefix(body, "pkh("@) {
            if body.len() >= 5 && body.last() == ')' {
                e is BadPubkey
            } else {
                e is Unexpected
            }
        } else {
            is_bare_failure(body, e)
        }
    }

    /// Reads a descriptor from the body of its text: a body that begins
    /// with `pkh(` is a pay-to-pubkey-hash descriptor, any other a bare
    /// fragment. A body that is neither is refused with the error of the
    /// form that it was read as.
    pub fn from_body(body: &Vec<char>) -> (r: Result<Descriptor, Error>)
        ensures
            match r {
                Ok(d) => d.describes(body@) && Self::has_descriptor(body@),
                Err(e) => !Self::has_descriptor(body@) && Self::is_failure(body@, e),
            },
    {
        proof {
            reveal_strlit("pkh(");
        }
        if starts_with(body, "pkh(") {
            match Pkh::from_body(body) {
                Ok(p) => Ok(Descriptor::Pkh(p)),
                Err(e) => Err(e),
            }
        } else {
            let text = string_of(body);
            match Bare::new(text.as_str()) {
                Ok(b) => Ok(Descriptor::Bare(b)),
                Err(e) => Err(e),
            }
        }
    }

    /// Parses the text of a descriptor, with or without `#CHECKSUM` behind
    /// it. A checksum that is there must match.
    pub fn from_str(s: &str) -> (r: Result<Descriptor, Error>)
        ensures
            match r {
                Ok(d) => verified_body(s@) matches Some(body) && d.describes(body),
                Err(e) => match verified_body(s@) {
                    Some(body) => !Self::has_descriptor(body) && Self::is_failure(body, e),
                    None => e is Unprintable || e is BadDescriptor,
                },
            },
    {
        let chars = chars_of(s);
        match verify_checksum(&chars) {
            Ok(body) => Descriptor::from_body(&body),
            Err(e) => Err(e),
        }
    }
}

} // verus!
