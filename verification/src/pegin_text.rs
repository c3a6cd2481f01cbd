//! Reading the text of a peg-in descriptor.

use vstd::prelude::*;
use crate::checksum::{
    checksum_of, lemma_decimal_plain, lemma_hex_plain, lemma_plain_concat,
    lemma_plain_round_trip, lemma_wrong_checksum_rejected, plain, verified_body,
    verify_checksum, with_checksum,
};
use crate::descriptor::Descriptor;
use crate::error::Error;
use crate::fragment::{emergency_text, keys_text, keys_view, multi_text, pegin_text, PeginParams};
use crate::key::{
    is_public_key, legacy_key_text, lemma_legacy_key_text_round_trip, parsed_legacy_key,
    LegacyPeginKey,
};
use crate::pegin::{legacy_pegin_body, LegacyPegin};
use crate::text::{append_chars, append_str, chars_of, decimal, slice_chars, string_of};

verus! {

/// Whether a character is a decimal digit.
pub open spec fn is_digit(c: char) -> bool {
    48 <= c as u32 <= 57
}

/// The end of the run of digits that begins at `pos`.
pub open spec fn digits_end(s: Seq<char>, pos: int) -> int
    decreases s.len() - pos,
{
    if 0 <= pos < s.len() && is_digit(s[pos]) {
        digits_end(s, pos + 1)
    } else {
        pos
    }
}

/// The number that the digits from `pos` up to `end` write.
pub open spec fn number_value(s: Seq<char>, pos: int, end: int) -> nat
    decreases end - pos,
{
    if end <= pos {
        0
    } else {
        number_value(s, pos, end - 1) * 10 + (s[end - 1] as u32 - 48) as nat
    }
}

/// The number written at `pos` and the place behind it, where digits stand
/// there and the number fits in 32 bits.
pub open spec fn number_at(s: Seq<char>, pos: int) -> Option<(nat, int)> {
    let end = digits_end(s, pos);
    if end > pos && number_value(s, pos, end) <= u32::MAX {
        Some((number_value(s, pos, end), end))
    } else {
        None
    }
}

/// The end of the run of keys that begins at `pos`: each a comma and 67
/// characters.
pub open spec fn keys_end(s: Seq<char>, pos: int) -> int
    decreases s.len() - pos,
{
    if 0 <= pos && pos + 68 <= s.len() && s[pos] == ',' {
        keys_end(s, pos + 68)
    } else {
        pos
    }
}

/// The keys that the run from `pos` up to `end` writes, or `None` where one
/// of them does not parse.
pub open spec fn keys_between(s: Seq<char>, pos: int, end: int) -> Option<Seq<(bool, Seq<u8>)>>
    decreases end - pos,
{
    if pos < 0 || end < pos + 68 {
        Some(Seq::empty())
    } else {
        match (keys_between(s, pos, end - 68), parsed_legacy_key(s.subrange(end - 67, end))) {
            (Some(front), Some(k)) => Some(front.push(k)),
            _ => None,
        }
    }
}

/// Whether the text `lit` stands at `pos`.
pub open spec fn matches_at(s: Seq<char>, pos: int, lit: Seq<char>) -> bool {
    0 <= pos && pos + lit.len() <= s.len() && s.subrange(pos, pos + lit.len()) == lit
}

/// A threshold, its keys and the place behind them, as written at `pos`.
pub open spec fn multi_at(s: Seq<char>, pos: int) -> Option<(nat, Seq<(bool, Seq<u8>)>, int)> {
    match number_at(s, pos) {
        Some((k, p)) => match keys_between(s, p, keys_end(s, p)) {
            Some(keys) => Some((k, keys, keys_end(s, p))),
            None => None,
        },
        None => None,
    }
}

/// The federation and the text of the redeeming descriptor that the body of
/// a peg-in descriptor writes:
/// `legacy_pegin(or_d(multi(k,KEY,...),and_v(v:older(T),multi(m,KEY,...))),DESCRIPTOR)`.
pub open spec fn parsed_pegin_body(s: Seq<char>) -> Option<(PeginParams, Seq<char>)> {
    let open = "legacy_pegin(or_d(multi("@;
    let older = "),and_v(v:older("@;
    let multi = "),multi("@;
    let close = "))),"@;
    if !matches_at(s, 0, open) {
        None
    } else {
        match multi_at(s, open.len() as int) {
            None => None,
            Some((fed_k, fed_pks, fed_end)) => if !matches_at(s, fed_end, older) {
                None
            } else {
                match number_at(s, fed_end + older.len()) {
                    None => None,
                    Some((timelock, lock_end)) => if !matches_at(s, lock_end, multi) {
                        None
                    } else {
                        match multi_at(s, lock_end + multi.len()) {
                            None => None,
                            Some((emer_k, emer_pks, emer_end)) => if matches_at(s, emer_end, close) && emer_end
                                + close.len() < s.len() && s.last() == ')' {
                                Some(
                                    (
                                        PeginParams {
                                            fed_pks,
                                            fed_k,
                                            emer_pks,
                                            emer_k,
                                            timelock: timelock as u32,
                                        },
                                        s.subrange(emer_end + close.len(), s.len() - 1),
                                    ),
                                )
                            } else {
                                None
                            },
                        }
                    },
                }
            },
        }
    }
}

/// Whether the characters of `lit` stand at `pos`.
pub fn literal_at(s: &Vec<char>, pos: usize, lit: &str) -> (r: bool)
    requires
        pos <= s@.len(),
    ensures
        r == matches_at(s@, pos as int, lit@),
{
    let l = chars_of(lit);
    if s.len() - pos < l.len() {
        return false;
    }
    let mut i: usize = 0;
    while i < l.len()
        invariant
            i <= l.len(),
            pos + l.len() <= s.len(),
            l@ == lit@,
            forall|j: int| 0 <= j < i ==> s@[pos + j] == l@[j],
        decreases l.len() - i,
    {
        if s[pos + i] != l[i] {
            proof {
                assert(s@.subrange(pos as int, pos + l@.len())[i as int] != l@[i as int]);
            }
            return false;
        }
        i += 1;
    }
    proof {
        assert(s@.subrange(pos as int, pos + l@.len()) =~= l@);
    }
    true
}

/// Reads the number written at `pos`.
pub fn scan_number(s: &Vec<char>, pos: usize) -> (r: Option<(u32, usize)>)
    requires
        pos <= s@.len(),
    ensures
        match r {
            Some((n, end)) => number_at(s@, pos as int) == Some((n as nat, end as int)) && pos
                < end <= s@.len(),
            None => number_at(s@, pos as int) is None,
        },
{
    let mut i: usize = pos;
    let mut acc: u64 = 0;
    let mut too_big: bool = false;
    while i < s.len() && 48 <= s[i] as u32 && s[i] as u32 <= 57
        invariant
            pos <= i <= s.len(),
            digits_end(s@, i as int) == digits_end(s@, pos as int),
            !too_big ==> acc == number_value(s@, pos as int, i as int) && acc <= u32::MAX,
            too_big ==> number_value(s@, pos as int, i as int) > u32::MAX,
        decreases s.len() - i,
    {
        let d: u64 = (s[i] as u32 - 48) as u64;
        if !too_big {
            acc = acc * 10 + d;
            if acc > 0xffff_ffff {
                too_big = true;
            }
        }
        i += 1;
    }
    if i > pos && !too_big {
        Some((acc as u32, i))
    } else {
        None
    }
}

/// Reads the keys written at `pos`: the place behind them, and the keys
/// where each of them parses.
pub fn scan_keys(s: &Vec<char>, pos: usize) -> (r: (Option<Vec<LegacyPeginKey>>, usize))
    requires
        pos <= s@.len(),
    ensures
        r.1 == keys_end(s@, pos as int),
        pos <= r.1 <= s@.len(),
        match r.0 {
            Some(keys) => keys_between(s@, pos as int, r.1 as int) == Some(keys_view(keys@)),
            None => keys_between(s@, pos as int, r.1 as int) is None,
        },
{
    let mut i: usize = pos;
    let mut out: Vec<LegacyPeginKey> = Vec::new();
    let mut failed: bool = false;
    while s.len() - i >= 68 && s[i] == ','
        invariant
            pos <= i <= s.len(),
            keys_end(s@, i as int) == keys_end(s@, pos as int),
            !failed ==> keys_between(s@, pos as int, i as int) == Some(keys_view(out@)),
            failed ==> keys_between(s@, pos as int, i as int) is None,
        decreases s.len() - i,
    {
        let text = slice_chars(s, i + 1, i + 68);
        let text = string_of(&text);
        let ghost before = keys_view(out@);
        match LegacyPeginKey::from_str(text.as_str()) {
            Ok(key) => {
                if !failed {
                    out.push(key);
                    proof {
                        assert(keys_view(out@) =~= before.push(key@));
                    }
                }
            },
            Err(_) => {
                failed = true;
            },
        }
        i += 68;
    }
    if failed {
        (None, i)
    } else {
        (Some(out), i)
    }
}

/// Reads a threshold and its keys at `pos`.
pub fn scan_multi(s: &Vec<char>, pos: usize) -> (r: Option<(u32, Vec<LegacyPeginKey>, usize)>)
    requires
        pos <= s@.len(),
    ensures
        match r {
            Some((k, keys, end)) => multi_at(s@, pos as int) == Some(
                (k as nat, keys_view(keys@), end as int),
            ) && end <= s@.len(),
            None => multi_at(s@, pos as int) is None,
        },
{
    match scan_number(s, pos) {
        Some((k, p)) => match scan_keys(s, p) {
            (Some(keys), end) => Some((k, keys, end)),
            (None, _) => None,
        },
        None => None,
    }
}

/// The parts of the body of a peg-in descriptor: the federation keys and
/// threshold, the emergency keys and threshold, the timelock, and the text
/// of the redeeming descriptor.
pub fn scan_pegin_body(body: &Vec<char>) -> (r: Option<
    (Vec<LegacyPeginKey>, u32, Vec<LegacyPeginKey>, u32, u32, Vec<char>),
>)
    ensures
        match r {
            Some((fed_pks, fed_k, emer_pks, emer_k, timelock, desc)) => parsed_pegin_body(body@)
                == Some(
                (
                    PeginParams {
                        fed_pks: keys_view(fed_pks@),
                        fed_k: fed_k as nat,
                        emer_pks: keys_view(emer_pks@),
                        emer_k: emer_k as nat,
                        timelock,
                    },
                    desc@,
                ),
            ),
            None => parsed_pegin_body(body@) is None,
        },
{
    proof {
        reveal_strlit("legacy_pegin(or_d(multi(");
        reveal_strlit("),and_v(v:older(");
        reveal_strlit("),multi(");
        reveal_strlit("))),");
    }
    let len: usize = body.len();
    if !literal_at(body, 0, "legacy_pegin(or_d(multi(") {
        return None;
    }
    let (fed_k, fed_pks, fed_end) = match scan_multi(body, 24) {
        Some(found) => found,
        None => {
            return None;
        },
    };
    if !literal_at(body, fed_end, "),and_v(v:older(") {
        return None;
    }
    let (timelock, lock_end) = match scan_number(body, fed_end + 16) {
        Some(found) => found,
        None => {
            return None;
        },
    };
    if !literal_at(body, lock_end, "),multi(") {
        return None;
    }
    let (emer_k, emer_pks, emer_end) = match scan_multi(body, lock_end + 8) {
        Some(found) => found,
        None => {
            return None;
        },
    };
    if literal_at(body, emer_end, "))),") && emer_end + 4 < len && body[len - 1] == ')' {
        let desc = slice_chars(body, emer_end + 4, len - 1);
        Some((fed_pks, fed_k, emer_pks, emer_k, timelock, desc))
    } else {
        None
    }
}

impl LegacyPegin {
    /// Reads the descriptor from the body of its text. A body that has not
    /// the peg-in form is unexpected. Where the text behind the fragment is
    /// no descriptor, the error of reading that text is handed on as it is.
    /// Thresholds or a timelock that make no fragment that type checks are
    /// unexpected.
    pub fn from_body(body: &Vec<char>) -> (r: Result<LegacyPegin, Error>)
        ensures
            match r {
                Ok(d) => {
                    &&& parsed_pegin_body(body@) matches Some((p, desc))
                    &&& d.params() == p
                    &&& d.wf()
                    &&& d.user_descriptor().describes(desc)
                },
                Err(e) => match parsed_pegin_body(body@) {
                    None => e is Unexpected,
                    Some((p, desc)) => if Descriptor::has_descriptor(desc) {
                        !Self::well_typed(p) && e is Unexpected
                    } else {
                        Descriptor::is_failure(desc, e)
                    },
                },
            },
    {
        let (fed_pks, fed_k, emer_pks, emer_k, timelock, desc) = match scan_pegin_body(body) {
            Some(parts) => parts,
            None => {
                let mut message: Vec<char> = Vec::new();
                append_chars(&mut message, body);
                append_str(&mut message, " while parsing legacy_pegin descriptor");
                return Err(Error::Unexpected(string_of(&message)));
            },
        };
        let user_desc = match Descriptor::from_body(&desc) {
            Ok(user_desc) => user_desc,
            Err(e) => {
                return Err(e);
            },
        };
        let fed_k: usize = fed_k as usize;
        let emer_k: usize = emer_k as usize;
        if 1 <= fed_k && fed_k <= fed_pks.len() && 1 <= emer_k && emer_k <= emer_pks.len()
            && timelock != 0 {
            Ok(LegacyPegin::new(fed_pks, fed_k, emer_pks, emer_k, timelock, user_desc))
        } else {
            Err(Error::Unexpected(String::from_str("Federation fragment does not type check")))
        }
    }

    /// Parses the text of a peg-in descriptor, with or without `#CHECKSUM`
    /// behind it. A checksum that is there must match.
    pub fn from_str(s: &str) -> (r: Result<LegacyPegin, Error>)
        ensures
            match r {
                Ok(d) => {
                    &&& verified_body(s@) matches Some(body)
                    &&& parsed_pegin_body(body) matches Some((p, desc))
                    &&& d.params() == p
                    &&& d.wf()
                    &&& d.user_descriptor().describes(desc)
                },
                Err(e) => match verified_body(s@) {
                    None => e is Unprintable || e is BadDescriptor,
                    Some(body) => match parsed_pegin_body(body) {
                        None => e is Unexpected,
                        Some((p, desc)) => if Descriptor::has_descriptor(desc) {
                            !Self::well_typed(p) && e is Unexpected
                        } else {
                            Descriptor::is_failure(desc, e)
                        },
                    },
                },
            },
    {
        let chars = chars_of(s);
        match verify_checksum(&chars) {
            Ok(body) => LegacyPegin::from_body(&body),
            Err(e) => Err(e),
        }
    }
}

/// The body of a peg-in descriptor's text, piece by piece.
pub open spec fn flat_body(p: PeginParams, desc_body: Seq<char>) -> Seq<char> {
    "legacy_pegin(or_d(multi("@ + decimal(p.fed_k) + keys_text(p.fed_pks, true)
        + "),and_v(v:older("@ + decimal(p.timelock as nat) + "),multi("@ + decimal(p.emer_k)
        + keys_text(p.emer_pks, true) + "))),"@ + desc_body + ")"@
}

/// The literals of the reader are the literals of the writer, one behind
/// the other.
proof fn lemma_literals()
    ensures
        "legacy_pegin("@ + "or_d("@ + "multi("@ == "legacy_pegin(or_d(multi("@,
        ")"@ + ","@ + "and_v(v:older("@ == "),and_v(v:older("@,
        "),"@ + "multi("@ == "),multi("@,
        ")"@ + ")"@ + ")"@ + ","@ == "))),"@,
{
    assert("legacy_pegin("@ + "or_d("@ + "multi("@ =~= "legacy_pegin(or_d(multi("@) by {
        reveal_strlit("legacy_pegin(or_d(multi(");
        reveal_strlit("legacy_pegin(");
        reveal_strlit("or_d(");
        reveal_strlit("multi(");
    }
    assert(")"@ + ","@ + "and_v(v:older("@ =~= "),and_v(v:older("@) by {
        reveal_strlit("),and_v(v:older(");
        reveal_strlit("and_v(v:older(");
        reveal_strlit(")");
        reveal_strlit(",");
    }
    assert("),"@ + "multi("@ =~= "),multi("@) by {
        reveal_strlit("),multi(");
        reveal_strlit("),");
        reveal_strlit("multi(");
    }
    assert(")"@ + ")"@ + ")"@ + ","@ =~= "))),"@) by {
        reveal_strlit("))),");
        reveal_strlit(")");
        reveal_strlit(",");
    }
}

/// Texts that stand one within the other, as the writer puts them, are the
/// same text as their pieces one behind the other, as the reader takes
/// them.
proof fn lemma_regroup(
    x1: Seq<char>,
    x2: Seq<char>,
    x3: Seq<char>,
    k: Seq<char>,
    y: Seq<char>,
    z: Seq<char>,
    x4: Seq<char>,
    t: Seq<char>,
    x5: Seq<char>,
    m: Seq<char>,
    d: Seq<char>,
)
    ensures
        x1 + (x2 + (x3 + k + y) + z + (x4 + t + x5 + (x3 + m + y) + y) + y) + z + d + y == (x1 + x2
            + x3) + k + (y + z + x4) + t + (x5 + x3) + m + (y + y + y + z) + d + y,
{
    let e = x4 + t + x5 + (x3 + m + y) + y;
    let e1 = x4 + t + (x5 + x3) + m + (y + y);
    assert(e =~= e1);
    let pt = x2 + (x3 + k + y) + z + e + y;
    let head = (x2 + x3) + k + (y + z);
    assert(x2 + (x3 + k + y) + z =~= head);
    let pt1 = head + e1 + y;
    assert(pt == pt1);
    let pt2 = (x2 + x3) + k + (y + z + x4) + t + (x5 + x3) + m + (y + y + y);
    assert(head + e1 =~= (x2 + x3) + k + (y + z + x4) + t + (x5 + x3) + m + (y + y));
    assert(pt1 =~= pt2);
    let front = (x1 + x2 + x3) + k + (y + z + x4) + t + (x5 + x3) + m + (y + y + y);
    assert(x1 + pt2 =~= front);
    assert(front + z =~= (x1 + x2 + x3) + k + (y + z + x4) + t + (x5 + x3) + m + (y + y + y + z));
}

/// The body of a peg-in descriptor's text is its pieces, one behind the
/// other.
proof fn lemma_flat_body(p: PeginParams, desc_body: Seq<char>)
    ensures
        legacy_pegin_body(p, desc_body) == flat_body(p, desc_body),
{
    lemma_literals();
    let k = decimal(p.fed_k) + keys_text(p.fed_pks, true);
    let m = decimal(p.emer_k) + keys_text(p.emer_pks, true);
    let t = decimal(p.timelock as nat);
    assert(multi_text(p.fed_k, p.fed_pks, true) =~= "multi("@ + k + ")"@);
    assert(multi_text(p.emer_k, p.emer_pks, true) =~= "multi("@ + m + ")"@);
    lemma_regroup(
        "legacy_pegin("@,
        "or_d("@,
        "multi("@,
        k,
        ")"@,
        ","@,
        "and_v(v:older("@,
        t,
        "),"@,
        m,
        desc_body,
    );
    let l0 = "legacy_pegin(or_d(multi("@;
    let l1 = "),and_v(v:older("@;
    let l2 = "),multi("@;
    let l3 = "))),"@;
    assert(l0 + k =~= l0 + decimal(p.fed_k) + keys_text(p.fed_pks, true));
    assert(l0 + k + l1 + t + l2 + m =~= l0 + decimal(p.fed_k) + keys_text(p.fed_pks, true) + l1 + t
        + l2 + decimal(p.emer_k) + keys_text(p.emer_pks, true));
}

/// Whether every key of a list is a valid compressed key.
pub open spec fn valid_keys(keys: Seq<(bool, Seq<u8>)>) -> bool {
    forall|i: int| 0 <= i < keys.len() ==> is_public_key((#[trigger] keys[i]).1) && keys[i].1.len()
        == 33
}

/// A run of digits ends where the first character that is no digit stands.
proof fn lemma_digits_run(s: Seq<char>, pos: int, end: int)
    requires
        0 <= pos <= end <= s.len(),
        forall|j: int| pos <= j < end ==> is_digit(#[trigger] s[j]),
        end == s.len() || !is_digit(s[end]),
    ensures
        digits_end(s, pos) == end,
    decreases end - pos,
{
    if pos < end {
        lemma_digits_run(s, pos + 1, end);
    }
}

/// A number in decimal is a run of digits that writes the number.
proof fn lemma_decimal_value(s: Seq<char>, pos: int, n: nat)
    requires
        0 <= pos,
        pos + decimal(n).len() <= s.len(),
        s.subrange(pos, pos + decimal(n).len()) == decimal(n),
    ensures
        decimal(n).len() >= 1,
        forall|j: int| pos <= j < pos + decimal(n).len() ==> is_digit(#[trigger] s[j]),
        number_value(s, pos, pos + decimal(n).len()) == n,
    decreases n,
{
    let d = decimal(n);
    let e = pos + d.len();
    assert forall|j: int| pos <= j < e implies s[j] == d[j - pos] by {
        assert(s.subrange(pos, e)[j - pos] == s[j]);
    }
    if n < 10 {
        assert(number_value(s, pos, pos) == 0);
        assert(s[pos] == d[0]);
    } else {
        let front = decimal(n / 10);
        assert(d == front.push(crate::text::decimal_digit(n % 10)));
        assert(s.subrange(pos, pos + front.len()) =~= front);
        lemma_decimal_value(s, pos, n / 10);
        assert(s[e - 1] == d[d.len() - 1]);
        assert forall|j: int| pos <= j < e implies is_digit(#[trigger] s[j]) by {
            if j == e - 1 {
            }
        }
    }
}

/// Whether the block `j` of a run of keys at `pos` begins with a comma.
pub open spec fn comma_at(s: Seq<char>, pos: int, j: int) -> bool {
    s[pos + 68 * j] == ','
}

/// A run of keys ends where the first block that does not begin with a
/// comma stands.
proof fn lemma_keys_run(s: Seq<char>, pos: int, n: nat)
    requires
        0 <= pos,
        pos + 68 * n <= s.len(),
        forall|j: int| 0 <= j < n ==> #[trigger] comma_at(s, pos, j),
        pos + 68 * n + 68 > s.len() || s[pos + 68 * n] != ',',
    ensures
        keys_end(s, pos) == pos + 68 * n,
    decreases n,
{
    if n > 0 {
        assert(comma_at(s, pos, 0));
        assert forall|j: int| 0 <= j < n - 1 implies #[trigger] comma_at(s, pos + 68, j) by {
            assert(comma_at(s, pos, j + 1));
        }
        lemma_keys_run(s, pos + 68, (n - 1) as nat);
    }
}

/// The text of a list of valid keys is a run of keys that writes the list.
proof fn lemma_keys_text(s: Seq<char>, pos: int, keys: Seq<(bool, Seq<u8>)>)
    requires
        0 <= pos,
        valid_keys(keys),
        pos + keys_text(keys, true).len() <= s.len(),
        s.subrange(pos, pos + keys_text(keys, true).len()) == keys_text(keys, true),
    ensures
        keys_text(keys, true).len() == 68 * keys.len(),
        forall|j: int| 0 <= j < keys.len() ==> #[trigger] comma_at(s, pos, j),
        keys_between(s, pos, pos + 68 * keys.len()) == Some(keys),
    decreases keys.len(),
{
    let t = keys_text(keys, true);
    let n = keys.len() as int;
    if n == 0 {
        assert(keys =~= Seq::empty());
    } else {
        let front = keys.drop_last();
        let last = keys.last();
        let ft = keys_text(front, true);
        lemma_legacy_key_text_round_trip(last);
        assert(valid_keys(front)) by {
            assert forall|i: int| 0 <= i < front.len() implies is_public_key(
                (#[trigger] front[i]).1,
            ) && front[i].1.len() == 33 by {
                assert(front[i] == keys[i]);
            }
        }
        assert(t == ft + seq![','] + legacy_key_text(last));
        lemma_keys_text_len(front);
        assert(s.subrange(pos, pos + ft.len()) =~= ft) by {
            assert forall|i: int| 0 <= i < ft.len() implies s[pos + i] == ft[i] by {
                assert(s.subrange(pos, pos + t.len())[i] == t[i]);
            }
        }
        lemma_keys_text(s, pos, front);
        let end = pos + 68 * n;
        assert(s[end - 68] == ',') by {
            assert(s.subrange(pos, pos + t.len())[68 * (n - 1)] == t[68 * (n - 1)]);
        }
        assert(s.subrange(end - 67, end) =~= legacy_key_text(last)) by {
            assert forall|i: int| 0 <= i < 67 implies s[end - 67 + i] == legacy_key_text(last)[i] by {
                assert(s.subrange(pos, pos + t.len())[68 * (n - 1) + 1 + i] == t[68 * (n - 1) + 1
                    + i]);
            }
        }
        assert(keys =~= front.push(last));
        assert forall|j: int| 0 <= j < keys.len() implies #[trigger] comma_at(s, pos, j) by {
            if j == n - 1 {
            }
        }
    }
}

/// The text of a list of valid keys has 68 characters for each key.
proof fn lemma_keys_text_len(keys: Seq<(bool, Seq<u8>)>)
    requires
        valid_keys(keys),
    ensures
        keys_text(keys, true).len() == 68 * keys.len(),
    decreases keys.len(),
{
    if keys.len() > 0 {
        let front = keys.drop_last();
        assert forall|i: int| 0 <= i < front.len() implies is_public_key((#[trigger] front[i]).1)
            && front[i].1.len() == 33 by {
            assert(front[i] == keys[i]);
        }
        lemma_keys_text_len(front);
        lemma_legacy_key_text_round_trip(keys.last());
    }
}

/// Each of eleven texts stands at its place in the text that they make, one
/// behind the other.
proof fn lemma_layout(x: Seq<Seq<char>>)
    requires
        x.len() == 11,
    ensures
        ({
            let s = x[0] + x[1] + x[2] + x[3] + x[4] + x[5] + x[6] + x[7] + x[8] + x[9] + x[10];
            let a1 = x[0].len();
            let a2 = a1 + x[1].len();
            let a3 = a2 + x[2].len();
            let a4 = a3 + x[3].len();
            let a5 = a4 + x[4].len();
            let a6 = a5 + x[5].len();
            let a7 = a6 + x[6].len();
            let a8 = a7 + x[7].len();
            let a9 = a8 + x[8].len();
            let a10 = a9 + x[9].len();
            &&& s.len() == a10 + x[10].len()
            &&& s.subrange(0, a1 as int) == x[0]
            &&& s.subrange(a1 as int, a2 as int) == x[1]
            &&& s.subrange(a2 as int, a3 as int) == x[2]
            &&& s.subrange(a3 as int, a4 as int) == x[3]
            &&& s.subrange(a4 as int, a5 as int) == x[4]
            &&& s.subrange(a5 as int, a6 as int) == x[5]
            &&& s.subrange(a6 as int, a7 as int) == x[6]
            &&& s.subrange(a7 as int, a8 as int) == x[7]
            &&& s.subrange(a8 as int, a9 as int) == x[8]
            &&& s.subrange(a9 as int, a10 as int) == x[9]
            &&& s.subrange(a10 as int, s.len() as int) == x[10]
        }),
{
    let s = x[0] + x[1] + x[2] + x[3] + x[4] + x[5] + x[6] + x[7] + x[8] + x[9] + x[10];
    let a1 = x[0].len();
    let a2 = a1 + x[1].len();
    let a3 = a2 + x[2].len();
    let a4 = a3 + x[3].len();
    let a5 = a4 + x[4].len();
    let a6 = a5 + x[5].len();
    let a7 = a6 + x[6].len();
    let a8 = a7 + x[7].len();
    let a9 = a8 + x[8].len();
    let a10 = a9 + x[9].len();
    assert(s.subrange(0, a1 as int) =~= x[0]);
    assert(s.subrange(a1 as int, a2 as int) =~= x[1]);
    assert(s.subrange(a2 as int, a3 as int) =~= x[2]);
    assert(s.subrange(a3 as int, a4 as int) =~= x[3]);
    assert(s.subrange(a4 as int, a5 as int) =~= x[4]);
    assert(s.subrange(a5 as int, a6 as int) =~= x[5]);
    assert(s.subrange(a6 as int, a7 as int) =~= x[6]);
    assert(s.subrange(a7 as int, a8 as int) =~= x[7]);
    assert(s.subrange(a8 as int, a9 as int) =~= x[8]);
    assert(s.subrange(a9 as int, a10 as int) =~= x[9]);
    assert(s.subrange(a10 as int, s.len() as int) =~= x[10]);
}

/// A threshold in decimal and the text of its valid keys, followed by a
/// closing bracket, read as the threshold and the keys.
proof fn lemma_multi_at(s: Seq<char>, pos: int, k: nat, keys: Seq<(bool, Seq<u8>)>)
    requires
        0 <= pos,
        valid_keys(keys),
        k <= u32::MAX,
        pos + decimal(k).len() + 68 * keys.len() < s.len(),
        s.subrange(pos, pos + decimal(k).len()) == decimal(k),
        s.subrange(pos + decimal(k).len(), pos + decimal(k).len() + 68 * keys.len()) == keys_text(
            keys,
            true,
        ),
        s[pos + decimal(k).len() + 68 * keys.len()] == ')',
    ensures
        multi_at(s, pos) == Some((k, keys, pos + decimal(k).len() + 68 * keys.len())),
{
    let a1 = pos + decimal(k).len();
    lemma_keys_text_len(keys);
    lemma_decimal_value(s, pos, k);
    lemma_keys_text(s, a1, keys);
    if keys.len() > 0 {
        assert(comma_at(s, a1, 0));
    }
    lemma_digits_run(s, pos, a1);
    lemma_keys_run(s, a1, keys.len());
}

/// A number in decimal, followed by a closing bracket, reads as the number.
proof fn lemma_number_at(s: Seq<char>, pos: int, n: nat)
    requires
        0 <= pos,
        n <= u32::MAX,
        pos + decimal(n).len() < s.len(),
        s.subrange(pos, pos + decimal(n).len()) == decimal(n),
        s[pos + decimal(n).len()] == ')',
    ensures
        number_at(s, pos) == Some((n, pos + decimal(n).len())),
{
    lemma_decimal_value(s, pos, n);
    lemma_digits_run(s, pos, pos + decimal(n).len());
}

/// The places in the body of a peg-in descriptor's text where its pieces
/// begin: the federation threshold, the federation keys, the timelock
/// literal, the timelock, the emergency literal, the emergency threshold,
/// the emergency keys, the closing literal, the redeeming descriptor.
pub open spec fn piece_starts(p: PeginParams) -> Seq<int> {
    let a0 = 24int;
    let a1 = a0 + decimal(p.fed_k).len();
    let a2 = a1 + 68 * p.fed_pks.len();
    let a3 = a2 + 16;
    let a4 = a3 + decimal(p.timelock as nat).len();
    let a5 = a4 + 8;
    let a6 = a5 + decimal(p.emer_k).len();
    let a7 = a6 + 68 * p.emer_pks.len();
    let a8 = a7 + 4;
    seq![a0, a1, a2, a3, a4, a5, a6, a7, a8]
}

/// Whether a text holds the pieces of the body of a peg-in descriptor's
/// text, each at its place.
pub open spec fn laid_out(s: Seq<char>, p: PeginParams, desc_body: Seq<char>) -> bool {
    let a = piece_starts(p);
    &&& s.len() == a[8] + desc_body.len() + 1
    &&& matches_at(s, 0, "legacy_pegin(or_d(multi("@)
    &&& s.subrange(a[0], a[1]) == decimal(p.fed_k)
    &&& s.subrange(a[1], a[2]) == keys_text(p.fed_pks, true)
    &&& matches_at(s, a[2], "),and_v(v:older("@)
    &&& s[a[2]] == ')'
    &&& s.subrange(a[3], a[4]) == decimal(p.timelock as nat)
    &&& matches_at(s, a[4], "),multi("@)
    &&& s[a[4]] == ')'
    &&& s.subrange(a[5], a[6]) == decimal(p.emer_k)
    &&& s.subrange(a[6], a[7]) == keys_text(p.emer_pks, true)
    &&& matches_at(s, a[7], "))),"@)
    &&& s[a[7]] == ')'
    &&& s.subrange(a[8], s.len() - 1) == desc_body
    &&& s.last() == ')'
}

/// The lengths and the first characters of the literals of the reader.
proof fn lemma_literal_lengths()
    ensures
        "legacy_pegin(or_d(multi("@.len() == 24,
        "),and_v(v:older("@.len() == 16,
        "),multi("@.len() == 8,
        "))),"@.len() == 4,
        ")"@.len() == 1,
        "),and_v(v:older("@[0] == ')',
        "),multi("@[0] == ')',
        "))),"@[0] == ')',
        ")"@[0] == ')',
{
    reveal_strlit("legacy_pegin(or_d(multi(");
    reveal_strlit("),and_v(v:older(");
    reveal_strlit("),multi(");
    reveal_strlit("))),");
    reveal_strlit(")");
}

/// The pieces of a peg-in body, one behind the other, are laid out.
proof fn lemma_laid_out(p: PeginParams, desc_body: Seq<char>)
    requires
        valid_keys(p.fed_pks),
        valid_keys(p.emer_pks),
    ensures
        laid_out(flat_body(p, desc_body), p, desc_body),
{
    let l0 = "legacy_pegin(or_d(multi("@;
    let l1 = "),and_v(v:older("@;
    let l2 = "),multi("@;
    let l3 = "))),"@;
    let l4 = ")"@;
    let dk = decimal(p.fed_k);
    let kf = keys_text(p.fed_pks, true);
    let dt = decimal(p.timelock as nat);
    let dm = decimal(p.emer_k);
    let ke = keys_text(p.emer_pks, true);
    let x = seq![l0, dk, kf, l1, dt, l2, dm, ke, l3, desc_body, l4];
    lemma_layout(x);
    let s = l0 + dk + kf + l1 + dt + l2 + dm + ke + l3 + desc_body + l4;
    assert(s == flat_body(p, desc_body));
    lemma_keys_text_len(p.fed_pks);
    lemma_keys_text_len(p.emer_pks);
    lemma_literal_lengths();
    let a = piece_starts(p);
    assert(s[a[2]] == ')') by {
        assert(s.subrange(a[2], a[3])[0] == s[a[2]]);
    }
    assert(s[a[4]] == ')') by {
        assert(s.subrange(a[4], a[5])[0] == s[a[4]]);
    }
    assert(s[a[7]] == ')') by {
        assert(s.subrange(a[7], a[8])[0] == s[a[7]]);
    }
    assert(s.last() == ')') by {
        assert(s.subrange(s.len() - 1, s.len() as int)[0] == s[s.len() - 1]);
    }
}

/// A text that holds the pieces of a peg-in body at their places reads as
/// the federation and the text of the redeeming descriptor.
proof fn lemma_laid_out_reads(s: Seq<char>, p: PeginParams, desc_body: Seq<char>)
    requires
        laid_out(s, p, desc_body),
        valid_keys(p.fed_pks),
        valid_keys(p.emer_pks),
        p.fed_k <= u32::MAX,
        p.emer_k <= u32::MAX,
    ensures
        parsed_pegin_body(s) == Some((p, desc_body)),
{
    lemma_literal_lengths();
    lemma_keys_text_len(p.fed_pks);
    lemma_keys_text_len(p.emer_pks);
    let a = piece_starts(p);
    lemma_multi_at(s, a[0], p.fed_k, p.fed_pks);
    lemma_number_at(s, a[3], p.timelock as nat);
    lemma_multi_at(s, a[5], p.emer_k, p.emer_pks);
}

/// Reading the body of a peg-in descriptor's text gives the federation and
/// the text of the redeeming descriptor back, for valid keys and thresholds
/// that fit in 32 bits.
pub proof fn lemma_pegin_body_round_trip(p: PeginParams, desc_body: Seq<char>)
    requires
        valid_keys(p.fed_pks),
        valid_keys(p.emer_pks),
        p.fed_k <= u32::MAX,
        p.emer_k <= u32::MAX,
    ensures
        parsed_pegin_body(legacy_pegin_body(p, desc_body)) == Some((p, desc_body)),
{
    lemma_flat_body(p, desc_body);
    lemma_laid_out(p, desc_body);
    lemma_laid_out_reads(flat_body(p, desc_body), p, desc_body);
}

/// Whether a federation can be read back from its text: its keys are valid
/// compressed keys, and its thresholds fit in 32 bits.
pub open spec fn readable(p: PeginParams) -> bool {
    valid_keys(p.fed_pks) && valid_keys(p.emer_pks) && p.fed_k <= u32::MAX && p.emer_k <= u32::MAX
}

/// The body of the text of a federation that can be read back reads as the
/// federation and the text of the redeeming descriptor.
pub proof fn lemma_readable(p: PeginParams, desc_body: Seq<char>)
    ensures
        readable(p) ==> parsed_pegin_body(legacy_pegin_body(p, desc_body)) == Some((p, desc_body)),
{
    if readable(p) {
        lemma_pegin_body_round_trip(p, desc_body);
    }
}

/// The text of a list of keys is plain.
proof fn lemma_keys_text_plain(keys: Seq<(bool, Seq<u8>)>)
    ensures
        plain(keys_text(keys, true)),
    decreases keys.len(),
{
    if keys.len() > 0 {
        lemma_keys_text_plain(keys.drop_last());
        let k = keys.last();
        lemma_hex_plain(k.1);
        let tag = seq![if k.0 { 'f' } else { 'u' }];
        assert(plain(tag));
        assert(plain(seq![',']));
        lemma_plain_concat(tag, crate::text::hex_lower(k.1));
        lemma_plain_concat(keys_text(keys.drop_last(), true), seq![',']);
        lemma_plain_concat(keys_text(keys.drop_last(), true) + seq![','], legacy_key_text(k));
    }
}

/// The body of a peg-in descriptor's text is plain where the text of the
/// redeeming descriptor is.
pub proof fn lemma_pegin_body_plain(p: PeginParams, desc_body: Seq<char>)
    requires
        plain(desc_body),
    ensures
        plain(legacy_pegin_body(p, desc_body)),
{
    lemma_flat_body(p, desc_body);
    let l0 = "legacy_pegin(or_d(multi("@;
    let l1 = "),and_v(v:older("@;
    let l2 = "),multi("@;
    let l3 = "))),"@;
    let l4 = ")"@;
    assert(plain(l0)) by {
        reveal_strlit("legacy_pegin(or_d(multi(");
    }
    assert(plain(l1)) by {
        reveal_strlit("),and_v(v:older(");
    }
    assert(plain(l2)) by {
        reveal_strlit("),multi(");
    }
    assert(plain(l3)) by {
        reveal_strlit("))),");
    }
    assert(plain(l4)) by {
        reveal_strlit(")");
    }
    lemma_decimal_plain(p.fed_k);
    lemma_decimal_plain(p.timelock as nat);
    lemma_decimal_plain(p.emer_k);
    lemma_keys_text_plain(p.fed_pks);
    lemma_keys_text_plain(p.emer_pks);
    let s1 = l0 + decimal(p.fed_k);
    lemma_plain_concat(l0, decimal(p.fed_k));
    let s2 = s1 + keys_text(p.fed_pks, true);
    lemma_plain_concat(s1, keys_text(p.fed_pks, true));
    let s3 = s2 + l1;
    lemma_plain_concat(s2, l1);
    let s4 = s3 + decimal(p.timelock as nat);
    lemma_plain_concat(s3, decimal(p.timelock as nat));
    let s5 = s4 + l2;
    lemma_plain_concat(s4, l2);
    let s6 = s5 + decimal(p.emer_k);
    lemma_plain_concat(s5, decimal(p.emer_k));
    let s7 = s6 + keys_text(p.emer_pks, true);
    lemma_plain_concat(s6, keys_text(p.emer_pks, true));
    let s8 = s7 + l3;
    lemma_plain_concat(s7, l3);
    let s9 = s8 + desc_body;
    lemma_plain_concat(s8, desc_body);
    lemma_plain_concat(s9, l4);
}

/// Parsing the text of a peg-in descriptor gives the descriptor back: the
/// text has a checksum, verifies to its body, and the body reads as the
/// federation and a redeeming descriptor that is the one written. This holds
/// for valid keys, thresholds that fit in 32 bits, and a redeeming
/// descriptor that is a pay-to-pubkey-hash descriptor over a valid key, or a
/// bare descriptor whose text does not begin with `pkh(`.
pub proof fn lemma_legacy_pegin_round_trip(d: LegacyPegin)
    requires
        d.wf(),
        readable(d.params()),
        match d.user_descriptor() {
            Descriptor::Pkh(p) => is_public_key(p.key()),
            Descriptor::Bare(b) => crate::bare::is_bare_text(b.text()) && !crate::text::has_prefix(
                b.text(),
                "pkh("@,
            ),
        },
    ensures
        with_checksum(d.body()) is Some,
        verified_body(with_checksum(d.body()).unwrap()) == Some(d.body()),
        parsed_pegin_body(d.body()) == Some((d.params(), d.user_descriptor().body())),
        LegacyPegin::well_typed(d.params()),
        Descriptor::has_descriptor(d.user_descriptor().body()),
        d.user_descriptor().describes(d.user_descriptor().body()),
{
    let desc_body = d.user_descriptor().body();
    match d.user_descriptor() {
        Descriptor::Pkh(p) => {
            crate::pkh::lemma_pkh_body_plain(p.key());
            crate::pkh::lemma_pkh_body_round_trip(p.key());
        },
        Descriptor::Bare(b) => {},
    }
    lemma_pegin_body_plain(d.params(), desc_body);
    lemma_plain_round_trip(d.body());
    lemma_pegin_body_round_trip(d.params(), desc_body);
}

/// The text of a peg-in descriptor with anything but its checksum behind
/// the `#` is refused.
pub proof fn lemma_legacy_pegin_wrong_checksum(d: LegacyPegin, suffix: Seq<char>)
    requires
        d.user_descriptor() matches Descriptor::Bare(b) ==> crate::bare::is_bare_text(b.text()),
        checksum_of(d.body()) != Some(suffix),
    ensures
        verified_body(d.body() + seq!['#'] + suffix) is None,
{
    match d.user_descriptor() {
        Descriptor::Pkh(p) => {
            crate::pkh::lemma_pkh_body_plain(p.key());
        },
        Descriptor::Bare(b) => {},
    }
    lemma_pegin_body_plain(d.params(), d.user_descriptor().body());
    lemma_wrong_checksum_rejected(d.body(), suffix);
}

} // verus!
