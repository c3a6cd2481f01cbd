//! The bare descriptor: a script fragment that stands in the output itself.

use vstd::prelude::*;
use crate::checksum::{
    checksum_of, desc_checksum, is_plain, lemma_plain_round_trip, lemma_wrong_checksum_rejected,
    plain, verified_body, verify_checksum, with_checksum,
};
use crate::engine::{
    bare_canonical, bare_canonical_text, bare_encode, bare_encoding, bare_is_sane,
    bare_max_satisfaction_size, bare_sanity_check, bare_satisfaction_size, bare_top_level_checks,
    bare_top_level_verdict,
};
use crate::error::Error;
use crate::script::{
    append_bytes, data_push, int_push, push_int_bytes, push_slice_bytes, read_script_int,
    script_int, varint_len, varint_len_of,
};
use crate::text::{append_chars, append_str, chars_of, same_chars, string_of};

verus! {

/// Whether a text is the text of a bare descriptor: the engine writes the
/// fragment that it reads as in this very text, the fragment passes the
/// top-level check of the bare context, and the text is plain.
pub open spec fn is_bare_text(text: Seq<char>) -> bool {
    &&& bare_canonical_text(text) == Some(text)
    &&& bare_top_level_verdict(text) == Some(true)
    &&& plain(text)
}

/// The text of the bare descriptor that a text reads as: the engine's own
/// text of the fragment, where that is the text of a bare descriptor.
pub open spec fn bare_of_text(text: Seq<char>) -> Option<Seq<char>> {
    match bare_canonical_text(text) {
        Some(c) => if is_bare_text(c) {
            Some(c)
        } else {
            None
        },
        None => None,
    }
}

/// Whether `e` is the error that a text which reads as no bare descriptor
/// is refused with: a non-standard bare script where the engine reads a
/// fragment that fails the top-level check, else a bad descriptor.
pub open spec fn is_bare_failure(text: Seq<char>, e: Error) -> bool {
    match bare_canonical_text(text) {
        Some(c) => if bare_top_level_verdict(c) == Some(false) {
            e is NonStandardBareScript
        } else {
            e is BadDescriptor
        },
        None => e is BadDescriptor,
    }
}

/// The text of a bare descriptor has a checksum, verifies to itself with
/// the checksum behind it, and reads as the descriptor again.
pub proof fn lemma_bare_round_trip(text: Seq<char>)
    requires
        is_bare_text(text),
    ensures
        with_checksum(text) is Some,
        verified_body(with_checksum(text).unwrap()) == Some(text),
        bare_of_text(text) == Some(text),
{
    lemma_plain_round_trip(text);
}

/// The text of a bare descriptor with anything but its checksum behind the
/// `#` is refused.
pub proof fn lemma_bare_wrong_checksum(text: Seq<char>, suffix: Seq<char>)
    requires
        is_bare_text(text),
        checksum_of(text) != Some(suffix),
    ensures
        verified_body(text + seq!['#'] + suffix) is None,
{
    lemma_wrong_checksum_rejected(text, suffix);
}

/// A bare descriptor. It holds the text in which the engine writes a
/// fragment that it accepts at the top level of the bare context; no other
/// value of the type exists.
#[derive(Debug, PartialEq, Eq, PartialOrd, Ord)]
pub struct Bare {
    ms: String,
}

/// The push of one stack element in a script-sig: as a number where the
/// element reads as one, as data otherwise.
pub open spec fn element_push(element: Seq<u8>) -> Seq<u8> {
    match script_int(element) {
        Some(n) => int_push(n),
        None => data_push(element),
    }
}

/// The script-sig that pushes the elements of a stack, in order.
pub open spec fn script_sig_of(stack: Seq<Seq<u8>>) -> Seq<u8>
    decreases stack.len(),
{
    if stack.len() == 0 {
        Seq::empty()
    } else {
        script_sig_of(stack.drop_last()) + element_push(stack.last())
    }
}

/// The cost of a script-sig of at most `size` bytes, in weight units: four
/// times the script-sig and its length prefix.
pub open spec fn bare_weight_of(size: nat) -> nat {
    4 * (varint_len_of(size) + size)
}

/// Writes a satisfying stack as a script-sig.
pub fn witness_to_scriptsig(stack: &Vec<Vec<u8>>) -> (r: Vec<u8>)
    requires
        forall|i: int| 0 <= i < stack@.len() ==> (#[trigger] stack@[i])@.len() < 0x1_0000_0000,
    ensures
        r@ == script_sig_of(crate::satisfy::stack_view(stack@)),
{
    let mut out: Vec<u8> = Vec::new();
    let mut i: usize = 0;
    while i < stack.len()
        invariant
            i <= stack.len(),
            forall|i: int| 0 <= i < stack@.len() ==> (#[trigger] stack@[i])@.len() < 0x1_0000_0000,
            out@ == script_sig_of(crate::satisfy::stack_view(stack@.subrange(0, i as int))),
        decreases stack.len() - i,
    {
        proof {
            let next = crate::satisfy::stack_view(stack@.subrange(0, i + 1));
            assert(next.drop_last() =~= crate::satisfy::stack_view(stack@.subrange(0, i as int)));
            assert(next.last() == stack@[i as int]@);
        }
        let push = match read_script_int(&stack[i]) {
            Some(n) => push_int_bytes(n),
            None => push_slice_bytes(&stack[i]),
        };
        append_bytes(&mut out, &push);
        i += 1;
    }
    proof {
        assert(stack@.subrange(0, i as int) =~= stack@);
    }
    out
}

impl Clone for Bare {
    fn clone(&self) -> (r: Bare)
        ensures
            r.text() == self.text(),
    {
        proof {
            use_type_invariant(self);
        }
        Bare { ms: self.ms.clone() }
    }
}

impl Bare {
    #[verifier::type_invariant]
    spec fn legal(self) -> bool {
        is_bare_text(self.ms@)
    }

    /// The text of the fragment.
    pub closed spec fn text(&self) -> Seq<char> {
        self.ms@
    }

    /// Makes a bare descriptor of a fragment, given by its text; the
    /// descriptor holds the fragment in the engine's own text. A fragment
    /// that fails the top-level check of the bare context is refused here,
    /// as a non-standard bare script; a text that is no fragment of the
    /// base type, or whose fragment the engine does not write as a plain
    /// text that it reads back, as a bad descriptor.
    pub fn new(ms: &str) -> (r: Result<Bare, Error>)
        ensures
            match r {
                Ok(b) => bare_of_text(ms@) == Some(b.text()) && is_bare_text(b.text()),
                Err(e) => bare_of_text(ms@) is None && is_bare_failure(ms@, e),
            },
    {
        let canonical = match bare_canonical(ms) {
            Some(c) => c,
            None => {
                return Err(Error::BadDescriptor(String::from_str("Invalid bare fragment")));
            },
        };
        match bare_top_level_checks(canonical.as_str()) {
            Some(true) => {
                let chars = chars_of(canonical.as_str());
                let stable = match bare_canonical(canonical.as_str()) {
                    Some(again) => same_chars(&chars_of(again.as_str()), &chars),
                    None => false,
                };
                if stable && is_plain(&chars) {
                    Ok(Bare { ms: canonical })
                } else {
                    Err(Error::BadDescriptor(String::from_str("Invalid bare fragment")))
                }
            },
            Some(false) => Err(Error::NonStandardBareScript),
            None => Err(Error::BadDescriptor(String::from_str("Invalid bare fragment"))),
        }
    }

    /// The text of the fragment inside, which is the text of a bare
    /// descriptor.
    pub fn as_inner(&self) -> (r: &str)
        ensures
            r@ == self.text(),
            is_bare_text(r@),
    {
        proof {
            use_type_invariant(self);
        }
        self.ms.as_str()
    }

    /// Appends the text of the fragment to `out`.
    pub fn push_body(&self, out: &mut Vec<char>)
        ensures
            final(out)@ == old(out)@ + self.text(),
            is_bare_text(self.text()),
    {
        proof {
            use_type_invariant(self);
        }
        append_str(out, self.ms.as_str());
    }

    /// The engine's sanity check of the fragment.
    pub fn sanity_check(&self) -> (r: Result<(), Error>)
        ensures
            r is Ok <==> bare_is_sane(self.text()),
            r matches Err(e) ==> e is AnalysisError,
    {
        if bare_sanity_check(self.ms.as_str()) {
            Ok(())
        } else {
            Err(Error::AnalysisError)
        }
    }

    /// A bare script has no address.
    pub fn address(&self) -> (r: Option<String>)
        ensures
            r is None,
    {
        None
    }

    /// A bare script has no blinded address.
    pub fn blind_addr(&self) -> (r: Option<String>)
        ensures
            r is None,
    {
        None
    }

    /// The output script: the engine's encoding of the fragment.
    pub fn script_pubkey(&self) -> (r: Vec<u8>)
        ensures
            bare_encoding(self.text()) == Some(r@),
    {
        proof {
            use_type_invariant(self);
        }
        match bare_encode(self.ms.as_str()) {
            Some(script) => script,
            None => Vec::new(),
        }
    }

    /// The script-sig before any signature is known: empty.
    pub fn unsigned_script_sig(&self) -> (r: Vec<u8>)
        ensures
            r@.len() == 0,
    {
        Vec::new()
    }

    /// The script that a signature commits to: the output script.
    pub fn witness_script(&self) -> (r: Vec<u8>)
        ensures
            bare_encoding(self.text()) == Some(r@),
    {
        self.script_pubkey()
    }

    /// The script code: the output script.
    pub fn script_code(&self) -> (r: Vec<u8>)
        ensures
            bare_encoding(self.text()) == Some(r@),
    {
        self.script_pubkey()
    }

    /// Spends the output with the stack that the engine found to satisfy
    /// the fragment: the witness is empty, the script-sig pushes the stack.
    pub fn get_satisfaction(&self, stack: &Vec<Vec<u8>>) -> (r: (Vec<Vec<u8>>, Vec<u8>))
        requires
            forall|i: int| 0 <= i < stack@.len() ==> (#[trigger] stack@[i])@.len() < 0x1_0000_0000,
        ensures
            r.0@.len() == 0,
            r.1@ == script_sig_of(crate::satisfy::stack_view(stack@)),
    {
        let script_sig = witness_to_scriptsig(stack);
        let witness: Vec<Vec<u8>> = Vec::new();
        (witness, script_sig)
    }

    /// The spending cost for fee estimation, in weight units: four times
    /// the largest script-sig and its length prefix. `None` where the engine
    /// knows no satisfaction, or the product does not fit.
    pub fn max_satisfaction_weight(&self) -> (r: Option<usize>)
        ensures
            match bare_max_satisfaction_size(self.text()) {
                Some(size) => if bare_weight_of(size) <= usize::MAX {
                    r == Some(bare_weight_of(size) as usize)
                } else {
                    r is None
                },
                None => r is None,
            },
    {
        match bare_satisfaction_size(self.ms.as_str()) {
            Some(size) => {
                let prefix = varint_len(size);
                if size <= usize::MAX / 4 - prefix {
                    Some(4 * (prefix + size))
                } else {
                    None
                }
            },
            None => None,
        }
    }

    /// The text of the descriptor: the fragment, `#`, and the checksum of
    /// the fragment's text. The text verifies to the fragment's text.
    pub fn to_string(&self) -> (r: String)
        ensures
            with_checksum(self.text()) == Some(r@),
            verified_body(r@) == Some(self.text()),
            is_bare_text(self.text()),
    {
        proof {
            use_type_invariant(self);
            lemma_plain_round_trip(self.text());
        }
        let mut out = chars_of(self.ms.as_str());
        let ghost body = out@;
        match desc_checksum(&out) {
            Ok(sum) => {
                out.push('#');
                append_chars(&mut out, &sum);
                proof {
                    assert(out@ =~= body + seq!['#'] + sum@);
                }
            },
            Err(_) => {},
        }
        string_of(&out)
    }

    /// Parses the text of a bare descriptor: a fragment, with or without
    /// `#CHECKSUM` behind it. A checksum that is there must match, and the
    /// fragment must pass the top-level check.
    pub fn from_str(s: &str) -> (r: Result<Bare, Error>)
        ensures
            match r {
                Ok(b) => verified_body(s@) matches Some(body) && bare_of_text(body) == Some(
                    b.text(),
                ) && is_bare_text(b.text()),
                Err(e) => match verified_body(s@) {
                    Some(body) => bare_of_text(body) is None && is_bare_failure(body, e),
                    None => e is Unprintable || e is BadDescriptor,
                },
            },
    {
        let chars = chars_of(s);
        match verify_checksum(&chars) {
            Ok(body) => {
                let body = string_of(&body);
                Bare::new(body.as_str())
            },
            Err(e) => Err(e),
        }
    }
}

} // verus!
