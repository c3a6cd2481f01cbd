//! The federation policy as a script fragment: "k of the federation keys, or,
//! after a relative timelock, m of the emergency keys".

use vstd::prelude::*;
use vstd::pervasive::unreached;
use crate::key::{legacy_key_text, LegacyPeginKey};
use crate::text::{append_str, decimal, hex_lower, push_decimal, push_hex};

verus! {

/// A node of a script fragment over federation keys.
#[derive(Debug, PartialEq, Eq, PartialOrd, Ord)]
pub enum Fragment {
    /// `k` of the keys sign.
    Multi(usize, Vec<LegacyPeginKey>),
    /// The input is at least this many blocks older than the output it spends.
    Older(u32),
    /// The inner fragment, which must hold.
    Verify(Box<Fragment>),
    /// Both fragments, the first of which leaves nothing on the stack.
    AndV(Box<Fragment>, Box<Fragment>),
    /// The first fragment, or else the second.
    OrD(Box<Fragment>, Box<Fragment>),
}

/// A fragment as a mathematical value.
pub enum FragmentView {
    Multi(nat, Seq<(bool, Seq<u8>)>),
    Older(u32),
    Verify(Box<FragmentView>),
    AndV(Box<FragmentView>, Box<FragmentView>),
    OrD(Box<FragmentView>, Box<FragmentView>),
}

/// The five values that a peg-in federation is made of.
pub struct PeginParams {
    pub fed_pks: Seq<(bool, Seq<u8>)>,
    pub fed_k: nat,
    pub emer_pks: Seq<(bool, Seq<u8>)>,
    pub emer_k: nat,
    pub timelock: u32,
}

/// The views of a sequence of keys, in order.
pub open spec fn keys_view(keys: Seq<LegacyPeginKey>) -> Seq<(bool, Seq<u8>)> {
    keys.map_values(|k: LegacyPeginKey| k@)
}

impl Fragment {
    /// The fragment as a mathematical value.
    pub open spec fn model(&self) -> FragmentView
        decreases self,
    {
        match self {
            Fragment::Multi(k, pks) => FragmentView::Multi(*k as nat, keys_view(pks@)),
            Fragment::Older(t) => FragmentView::Older(*t),
            Fragment::Verify(a) => FragmentView::Verify(Box::new(a.model())),
            Fragment::AndV(a, b) => FragmentView::AndV(Box::new(a.model()), Box::new(b.model())),
            Fragment::OrD(a, b) => FragmentView::OrD(Box::new(a.model()), Box::new(b.model())),
        }
    }
}

impl Clone for Fragment {
    fn clone(&self) -> (r: Fragment)
        ensures
            r@ == self@,
    {
        self.duplicate()
    }
}

impl View for Fragment {
    type V = FragmentView;

    open spec fn view(&self) -> FragmentView {
        self.model()
    }
}

/// The fragment of a federation: the federation multisig, or else the
/// verified timelock and the emergency multisig.
pub open spec fn pegin_fragment(p: PeginParams) -> FragmentView {
    FragmentView::OrD(
        Box::new(FragmentView::Multi(p.fed_k, p.fed_pks)),
        Box::new(
            FragmentView::AndV(
                Box::new(FragmentView::Verify(Box::new(FragmentView::Older(p.timelock)))),
                Box::new(FragmentView::Multi(p.emer_k, p.emer_pks)),
            ),
        ),
    )
}

/// The federation that a fragment of the peg-in shape was made of, or `None`
/// for a fragment of any other shape.
pub open spec fn pegin_params(m: FragmentView) -> Option<PeginParams> {
    match m {
        FragmentView::OrD(a, b) => match (*a, *b) {
            (FragmentView::Multi(fed_k, fed_pks), FragmentView::AndV(l, r)) => match (*l, *r) {
                (FragmentView::Verify(csv), FragmentView::Multi(emer_k, emer_pks)) => match *csv {
                    FragmentView::Older(timelock) => Some(
                        PeginParams { fed_pks, fed_k, emer_pks, emer_k, timelock },
                    ),
                    _ => None,
                },
                _ => None,
            },
            _ => None,
        },
        _ => None,
    }
}

/// Taking a federation's fragment apart gives the federation back.
pub proof fn lemma_params_of_fragment(p: PeginParams)
    ensures
        pegin_params(pegin_fragment(p)) == Some(p),
{
}

/// A fragment of the peg-in shape is the fragment of the federation that it
/// is taken apart into.
pub proof fn lemma_fragment_of_params(m: FragmentView)
    requires
        pegin_params(m) is Some,
    ensures
        pegin_fragment(pegin_params(m).unwrap()) == m,
{
}

/// A copy of a list of keys.
pub fn clone_keys(keys: &Vec<LegacyPeginKey>) -> (r: Vec<LegacyPeginKey>)
    ensures
        keys_view(r@) == keys_view(keys@),
{
    let mut out: Vec<LegacyPeginKey> = Vec::new();
    let mut i: usize = 0;
    while i < keys.len()
        invariant
            i <= keys.len(),
            out@.len() == i,
            forall|j: int| 0 <= j < i ==> out@[j]@ == keys@[j]@,
        decreases keys.len() - i,
    {
        out.push(keys[i].duplicate());
        i += 1;
    }
    proof {
        assert(keys_view(out@) =~= keys_view(keys@));
    }
    out
}

impl Fragment {
    /// A copy of the fragment.
    pub fn duplicate(&self) -> (r: Fragment)
        ensures
            r@ == self@,
        decreases self,
    {
        match self {
            Fragment::Multi(k, pks) => Fragment::Multi(*k, clone_keys(pks)),
            Fragment::Older(t) => Fragment::Older(*t),
            Fragment::Verify(a) => Fragment::Verify(Box::new(a.duplicate())),
            Fragment::AndV(a, b) => Fragment::AndV(
                Box::new(a.duplicate()),
                Box::new(b.duplicate()),
            ),
            Fragment::OrD(a, b) => Fragment::OrD(Box::new(a.duplicate()), Box::new(b.duplicate())),
        }
    }

    /// Builds the fragment of a federation.
    pub fn pegin(
        fed_pks: &Vec<LegacyPeginKey>,
        fed_k: usize,
        emer_pks: &Vec<LegacyPeginKey>,
        emer_k: usize,
        timelock: u32,
    ) -> (r: Fragment)
        ensures
            r@ == pegin_fragment(
                PeginParams {
                    fed_pks: keys_view(fed_pks@),
                    fed_k: fed_k as nat,
                    emer_pks: keys_view(emer_pks@),
                    emer_k: emer_k as nat,
                    timelock,
                },
            ),
    {
        proof {
            reveal_with_fuel(Fragment::model, 4);
        }
        let fed_ms = Fragment::Multi(fed_k, clone_keys(fed_pks));
        let csv = Fragment::Verify(Box::new(Fragment::Older(timelock)));
        let emer_ms = Fragment::Multi(emer_k, clone_keys(emer_pks));
        let right = Fragment::AndV(Box::new(csv), Box::new(emer_ms));
        Fragment::OrD(Box::new(fed_ms), Box::new(right))
    }

    /// Takes a fragment of the peg-in shape apart into the federation keys
    /// and threshold, the emergency keys and threshold, and the timelock.
    pub fn into_pegin_params(self) -> (r: (Vec<LegacyPeginKey>, usize, Vec<LegacyPeginKey>, usize, u32))
        requires
            pegin_params(self@) is Some,
        ensures
            pegin_params(self@) == Some(
                PeginParams {
                    fed_pks: keys_view(r.0@),
                    fed_k: r.1 as nat,
                    emer_pks: keys_view(r.2@),
                    emer_k: r.3 as nat,
                    timelock: r.4,
                },
            ),
    {
        proof {
            reveal_with_fuel(Fragment::model, 4);
        }
        match self {
            Fragment::OrD(a, b) => match (*a, *b) {
                (Fragment::Multi(fed_k, fed_pks), Fragment::AndV(l, r)) => match (*l, *r) {
                    (Fragment::Verify(csv), Fragment::Multi(emer_k, emer_pks)) => match *csv {
                        Fragment::Older(timelock) => (fed_pks, fed_k, emer_pks, emer_k, timelock),
                        _ => unreached(),
                    },
                    _ => unreached(),
                },
                _ => unreached(),
            },
            _ => unreached(),
        }
    }
}

/// The text of one key in a fragment: with its tag, or as the bare key.
pub open spec fn key_text(k: (bool, Seq<u8>), tagged: bool) -> Seq<char> {
    if tagged {
        legacy_key_text(k)
    } else {
        hex_lower(k.1)
    }
}

/// The keys of a multisig as they stand in its text, each after a comma.
pub open spec fn keys_text(keys: Seq<(bool, Seq<u8>)>, tagged: bool) -> Seq<char>
    decreases keys.len(),
{
    if keys.len() == 0 {
        Seq::empty()
    } else {
        keys_text(keys.drop_last(), tagged) + seq![','] + key_text(keys.last(), tagged)
    }
}

/// The text of a multisig: `multi(k,KEY,...)`.
pub open spec fn multi_text(k: nat, keys: Seq<(bool, Seq<u8>)>, tagged: bool) -> Seq<char> {
    "multi("@ + decimal(k) + keys_text(keys, tagged) + ")"@
}

/// The text of the emergency branch: `and_v(v:older(T),multi(m,KEY,...))`.
pub open spec fn emergency_text(p: PeginParams, tagged: bool) -> Seq<char> {
    "and_v(v:older("@ + decimal(p.timelock as nat) + "),"@ + multi_text(
        p.emer_k,
        p.emer_pks,
        tagged,
    ) + ")"@
}

/// The text of a federation's fragment:
/// `or_d(multi(k,KEY,...),and_v(v:older(T),multi(m,KEY,...)))`.
pub open spec fn pegin_text(p: PeginParams, tagged: bool) -> Seq<char> {
    "or_d("@ + multi_text(p.fed_k, p.fed_pks, tagged) + ","@ + emergency_text(p, tagged) + ")"@
}

/// Appends the text of a multisig to `out`.
pub fn push_multi_text(out: &mut Vec<char>, k: usize, keys: &Vec<LegacyPeginKey>, tagged: bool)
    ensures
        final(out)@ == old(out)@ + multi_text(k as nat, keys_view(keys@), tagged),
{
    let ghost before = out@;
    append_str(out, "multi(");
    push_decimal(out, k as u64);
    let ghost head = out@;
    let mut i: usize = 0;
    while i < keys.len()
        invariant
            i <= keys.len(),
            out@ == head + keys_text(keys_view(keys@.subrange(0, i as int)), tagged),
        decreases keys.len() - i,
    {
        let ghost sofar = out@;
        out.push(',');
        if tagged {
            out.push(if keys[i].is_functionary() { 'f' } else { 'u' });
        }
        let bytes = keys[i].as_untweaked().to_bytes();
        push_hex(out, &bytes);
        proof {
            let next = keys_view(keys@.subrange(0, i + 1));
            assert(next.drop_last() =~= keys_view(keys@.subrange(0, i as int)));
            assert(next.last() == keys@[i as int]@);
            assert(out@ =~= sofar + seq![','] + key_text(keys@[i as int]@, tagged));
        }
        i += 1;
    }
    append_str(out, ")");
    proof {
        assert(keys@.subrange(0, i as int) =~= keys@);
        assert(out@ =~= before + multi_text(k as nat, keys_view(keys@), tagged));
    }
}

/// Appends the text of the emergency branch to `out`.
pub fn push_emergency_text(
    out: &mut Vec<char>,
    timelock: u32,
    emer_k: usize,
    emer_pks: &Vec<LegacyPeginKey>,
    tagged: bool,
)
    ensures
        final(out)@ == old(out)@ + "and_v(v:older("@ + decimal(timelock as nat) + "),"@
            + multi_text(emer_k as nat, keys_view(emer_pks@), tagged) + ")"@,
{
    let ghost before = out@;
    append_str(out, "and_v(v:older(");
    push_decimal(out, timelock as u64);
    append_str(out, "),");
    push_multi_text(out, emer_k, emer_pks, tagged);
    append_str(out, ")");
    proof {
        assert(out@ =~= before + "and_v(v:older("@ + decimal(timelock as nat) + "),"@
            + multi_text(emer_k as nat, keys_view(emer_pks@), tagged) + ")"@);
    }
}

/// Appends the text of a federation's fragment to `out`.
pub fn push_pegin_text(
    out: &mut Vec<char>,
    fed_pks: &Vec<LegacyPeginKey>,
    fed_k: usize,
    emer_pks: &Vec<LegacyPeginKey>,
    emer_k: usize,
    timelock: u32,
    tagged: bool,
)
    ensures
        final(out)@ == old(out)@ + pegin_text(
            PeginParams {
                fed_pks: keys_view(fed_pks@),
                fed_k: fed_k as nat,
                emer_pks: keys_view(emer_pks@),
                emer_k: emer_k as nat,
                timelock,
            },
            tagged,
        ),
{
    let ghost before = out@;
    let ghost p = PeginParams {
        fed_pks: keys_view(fed_pks@),
        fed_k: fed_k as nat,
        emer_pks: keys_view(emer_pks@),
        emer_k: emer_k as nat,
        timelock,
    };
    append_str(out, "or_d(");
    push_multi_text(out, fed_k, fed_pks, tagged);
    append_str(out, ",");
    let ghost mid = out@;
    push_emergency_text(out, timelock, emer_k, emer_pks, tagged);
    proof {
        assert(out@ =~= mid + emergency_text(p, tagged));
    }
    append_str(out, ")");
    proof {
        assert(out@ =~= before + pegin_text(p, tagged));
    }
}

} // verus!
