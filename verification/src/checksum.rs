//! The checksum that closes the text of a descriptor.

use vstd::prelude::*;
use crate::error::Error;
use crate::text::{
    append_chars, append_str, decimal, decimal_digit, hex_digit, hex_lower, same_chars, string_of,
};

verus! {

/// The place of a character in the checksum's input alphabet, or `None` for
/// a character outside it. The alphabet is
/// ``0123456789()[],'/*abcdefgh@:$%{}IJKLMNOPQRSTUVWXYZ&+-.;<=>?!^_|~ijklmnopqrstuvwxyzABCDEFGH`#"\ ``,
/// counted from zero.
pub open spec fn input_position(ch: char) -> Option<u64> {
    let code = ch as u32;
    if 48 <= code <= 57 {
        Some((code - 48) as u64)
    } else if 97 <= code <= 104 {
        Some((code - 97 + 18) as u64)
    } else if 73 <= code <= 90 {
        Some((code - 73 + 32) as u64)
    } else if 105 <= code <= 122 {
        Some((code - 105 + 64) as u64)
    } else if 65 <= code <= 72 {
        Some((code - 65 + 82) as u64)
    } else if code == 40 { Some(10) } else if code == 41 { Some(11) }
    else if code == 91 { Some(12) } else if code == 93 { Some(13) }
    else if code == 44 { Some(14) } else if code == 39 { Some(15) }
    else if code == 47 { Some(16) } else if code == 42 { Some(17) }
    else if code == 64 { Some(26) } else if code == 58 { Some(27) }
    else if code == 36 { Some(28) } else if code == 37 { Some(29) }
    else if code == 123 { Some(30) } else if code == 125 { Some(31) }
    else if code == 38 { Some(50) } else if code == 43 { Some(51) }
    else if code == 45 { Some(52) } else if code == 46 { Some(53) }
    else if code == 59 { Some(54) } else if code == 60 { Some(55) }
    else if code == 61 { Some(56) } else if code == 62 { Some(57) }
    else if code == 63 { Some(58) } else if code == 33 { Some(59) }
    else if code == 94 { Some(60) } else if code == 95 { Some(61) }
    else if code == 124 { Some(62) } else if code == 126 { Some(63) }
    else if code == 96 { Some(90) } else if code == 35 { Some(91) }
    else if code == 34 { Some(92) } else if code == 92 { Some(93) }
    else if code == 32 { Some(94) } else {
        None
    }
}

/// The character of a five-bit value in the checksum's output alphabet,
/// `qpzry9x8gf2tvdw0s3jn54khce6mua7l`.
pub open spec fn checksum_char(v: u64) -> char {
    if v == 0 { 'q' } else if v == 1 { 'p' } else if v == 2 { 'z' } else if v == 3 { 'r' }
    else if v == 4 { 'y' } else if v == 5 { '9' } else if v == 6 { 'x' } else if v == 7 { '8' }
    else if v == 8 { 'g' } else if v == 9 { 'f' } else if v == 10 { '2' } else if v == 11 { 't' }
    else if v == 12 { 'v' } else if v == 13 { 'd' } else if v == 14 { 'w' } else if v == 15 { '0' }
    else if v == 16 { 's' } else if v == 17 { '3' } else if v == 18 { 'j' } else if v == 19 { 'n' }
    else if v == 20 { '5' } else if v == 21 { '4' } else if v == 22 { 'k' } else if v == 23 { 'h' }
    else if v == 24 { 'c' } else if v == 25 { 'e' } else if v == 26 { '6' } else if v == 27 { 'm' }
    else if v == 28 { 'u' } else if v == 29 { 'a' } else if v == 30 { '7' } else { 'l' }
}

/// One step of the checksum's polynomial: the state shifted by five bits,
/// the value added, and the generator folded in for each bit shifted out.
pub open spec fn poly_mod(c: u64, val: u64) -> u64 {
    let c0 = c >> 35;
    let c1 = ((c & 0x7ffffffff) << 5) ^ val;
    let c2 = if c0 & 1 > 0 { c1 ^ 0xf5dee51989 } else { c1 };
    let c3 = if c0 & 2 > 0 { c2 ^ 0xa9fdca3312 } else { c2 };
    let c4 = if c0 & 4 > 0 { c3 ^ 0x1bab10e32d } else { c3 };
    let c5 = if c0 & 8 > 0 { c4 ^ 0x3706b1677a } else { c4 };
    if c0 & 16 > 0 { c5 ^ 0x644d626ffd } else { c5 }
}

/// The state of a checksum under way: the polynomial, and the class digits
/// of up to two characters that wait to be fed as one value.
pub struct ChecksumState {
    pub c: u64,
    pub cls: u64,
    pub clscount: u64,
}

/// The state after one more character, given by its place in the alphabet.
pub open spec fn feed(st: ChecksumState, pos: u64) -> ChecksumState {
    let c = poly_mod(st.c, pos & 31);
    let cls = (st.cls * 3 + (pos >> 5)) as u64;
    if st.clscount + 1 == 3 {
        ChecksumState { c: poly_mod(c, cls), cls: 0, clscount: 0 }
    } else {
        ChecksumState { c, cls, clscount: (st.clscount + 1) as u64 }
    }
}

/// The state after a text, or `None` where a character is outside the
/// alphabet.
pub open spec fn fed(desc: Seq<char>) -> Option<ChecksumState>
    decreases desc.len(),
{
    if desc.len() == 0 {
        Some(ChecksumState { c: 1, cls: 0, clscount: 0 })
    } else {
        match (fed(desc.drop_last()), input_position(desc.last())) {
            (Some(st), Some(pos)) => Some(feed(st, pos)),
            _ => None,
        }
    }
}

/// The checksum value of a final state: the waiting class digits fed, eight
/// zeros fed, the lowest bit flipped.
pub open spec fn finished(st: ChecksumState) -> u64 {
    let c = if st.clscount > 0 { poly_mod(st.c, st.cls) } else { st.c };
    let c8 = poly_mod(
        poly_mod(
            poly_mod(poly_mod(poly_mod(poly_mod(poly_mod(poly_mod(c, 0), 0), 0), 0), 0), 0),
            0,
        ),
        0,
    );
    c8 ^ 1
}

/// The eight characters of a checksum value, highest five bits first.
pub open spec fn checksum_text(c: u64) -> Seq<char> {
    Seq::new(8, |j: int| checksum_char((c >> ((5 * (7 - j)) as u64)) & 31))
}

/// The checksum of a descriptor body: eight characters, or `None` where the
/// body holds a character outside the input alphabet.
pub open spec fn checksum_of(desc: Seq<char>) -> Option<Seq<char>> {
    match fed(desc) {
        Some(st) => Some(checksum_text(finished(st))),
        None => None,
    }
}

fn input_position_of(ch: char) -> (r: Option<u64>)
    ensures
        r == input_position(ch),
        r matches Some(pos) ==> pos < 95,
{
    let code: u32 = ch as u32;
    if 48 <= code && code <= 57 {
        Some((code - 48) as u64)
    } else if 97 <= code && code <= 104 {
        Some((code - 97 + 18) as u64)
    } else if 73 <= code && code <= 90 {
        Some((code - 73 + 32) as u64)
    } else if 105 <= code && code <= 122 {
        Some((code - 105 + 64) as u64)
    } else if 65 <= code && code <= 72 {
        Some((code - 65 + 82) as u64)
    } else if code == 40 { Some(10) } else if code == 41 { Some(11) }
    else if code == 91 { Some(12) } else if code == 93 { Some(13) }
    else if code == 44 { Some(14) } else if code == 39 { Some(15) }
    else if code == 47 { Some(16) } else if code == 42 { Some(17) }
    else if code == 64 { Some(26) } else if code == 58 { Some(27) }
    else if code == 36 { Some(28) } else if code == 37 { Some(29) }
    else if code == 123 { Some(30) } else if code == 125 { Some(31) }
    else if code == 38 { Some(50) } else if code == 43 { Some(51) }
    else if code == 45 { Some(52) } else if code == 46 { Some(53) }
    else if code == 59 { Some(54) } else if code == 60 { Some(55) }
    else if code == 61 { Some(56) } else if code == 62 { Some(57) }
    else if code == 63 { Some(58) } else if code == 33 { Some(59) }
    else if code == 94 { Some(60) } else if code == 95 { Some(61) }
    else if code == 124 { Some(62) } else if code == 126 { Some(63) }
    else if code == 96 { Some(90) } else if code == 35 { Some(91) }
    else if code == 34 { Some(92) } else if code == 92 { Some(93) }
    else if code == 32 { Some(94) } else {
        None
    }
}

fn checksum_char_of(v: u64) -> (c: char)
    ensures
        c == checksum_char(v),
{
    if v == 0 { 'q' } else if v == 1 { 'p' } else if v == 2 { 'z' } else if v == 3 { 'r' }
    else if v == 4 { 'y' } else if v == 5 { '9' } else if v == 6 { 'x' } else if v == 7 { '8' }
    else if v == 8 { 'g' } else if v == 9 { 'f' } else if v == 10 { '2' } else if v == 11 { 't' }
    else if v == 12 { 'v' } else if v == 13 { 'd' } else if v == 14 { 'w' } else if v == 15 { '0' }
    else if v == 16 { 's' } else if v == 17 { '3' } else if v == 18 { 'j' } else if v == 19 { 'n' }
    else if v == 20 { '5' } else if v == 21 { '4' } else if v == 22 { 'k' } else if v == 23 { 'h' }
    else if v == 24 { 'c' } else if v == 25 { 'e' } else if v == 26 { '6' } else if v == 27 { 'm' }
    else if v == 28 { 'u' } else if v == 29 { 'a' } else if v == 30 { '7' } else { 'l' }
}

fn poly_mod_of(c: u64, val: u64) -> (r: u64)
    ensures
        r == poly_mod(c, val),
{
    let c0: u64 = c >> 35;
    let mut r: u64 = ((c & 0x7ffffffff) << 5) ^ val;
    if c0 & 1 > 0 {
        r = r ^ 0xf5dee51989;
    }
    if c0 & 2 > 0 {
        r = r ^ 0xa9fdca3312;
    }
    if c0 & 4 > 0 {
        r = r ^ 0x1bab10e32d;
    }
    if c0 & 8 > 0 {
        r = r ^ 0x3706b1677a;
    }
    if c0 & 16 > 0 {
        r = r ^ 0x644d626ffd;
    }
    r
}

/// Computes the checksum of a descriptor body. A character outside the
/// input alphabet is a bad descriptor.
pub fn desc_checksum(desc: &Vec<char>) -> (r: Result<Vec<char>, Error>)
    ensures
        match r {
            Ok(sum) => checksum_of(desc@) == Some(sum@) && sum@.len() == 8,
            Err(e) => checksum_of(desc@) is None && e is BadDescriptor,
        },
{
    let mut c: u64 = 1;
    let mut cls: u64 = 0;
    let mut clscount: u64 = 0;
    let mut i: usize = 0;
    while i < desc.len()
        invariant
            i <= desc.len(),
            clscount < 3,
            cls < 9,
            clscount == 0 ==> cls == 0,
            clscount == 1 ==> cls < 3,
            fed(desc@.subrange(0, i as int)) == Some(ChecksumState { c, cls, clscount }),
        decreases desc.len() - i,
    {
        proof {
            assert(desc@.subrange(0, i + 1).drop_last() =~= desc@.subrange(0, i as int));
            assert(desc@.subrange(0, i + 1).last() == desc@[i as int]);
        }
        let pos = match input_position_of(desc[i]) {
            Some(pos) => pos,
            None => {
                proof {
                    lemma_fed_prefix(desc@, i as int);
                }
                let mut message: Vec<char> = Vec::new();
                append_str(&mut message, "Invalid character in checksum: '");
                message.push(desc[i]);
                append_str(&mut message, "'");
                return Err(Error::BadDescriptor(string_of(&message)));
            },
        };
        assert(pos >> 5 <= 2) by (bit_vector)
            requires
                pos < 95,
        ;
        c = poly_mod_of(c, pos & 31);
        cls = cls * 3 + (pos >> 5);
        clscount += 1;
        if clscount == 3 {
            c = poly_mod_of(c, cls);
            cls = 0;
            clscount = 0;
        }
        i += 1;
    }
    proof {
        assert(desc@.subrange(0, i as int) =~= desc@);
    }
    if clscount > 0 {
        c = poly_mod_of(c, cls);
    }
    c = poly_mod_of(c, 0);
    c = poly_mod_of(c, 0);
    c = poly_mod_of(c, 0);
    c = poly_mod_of(c, 0);
    c = poly_mod_of(c, 0);
    c = poly_mod_of(c, 0);
    c = poly_mod_of(c, 0);
    c = poly_mod_of(c, 0);
    c = c ^ 1;
    let mut sum: Vec<char> = Vec::new();
    let mut j: u64 = 0;
    while j < 8
        invariant
            j <= 8,
            sum@.len() == j,
            forall|k: int| 0 <= k < j ==> sum@[k] == checksum_text(c)[k],
        decreases 8 - j,
    {
        sum.push(checksum_char_of((c >> (5 * (7 - j))) & 31));
        j += 1;
    }
    proof {
        assert(sum@ =~= checksum_text(c));
    }
    Ok(sum)
}

/// Where a character is outside the alphabet, the text has no checksum.
proof fn lemma_fed_prefix(desc: Seq<char>, i: int)
    requires
        0 <= i < desc.len(),
        input_position(desc[i]) is None,
    ensures
        fed(desc) is None,
    decreases desc.len(),
{
    if i < desc.len() - 1 {
        lemma_fed_prefix(desc.drop_last(), i);
    }
}

/// Whether a character is in the range that descriptor text may hold.
pub open spec fn printable(ch: char) -> bool {
    20 <= ch as u32 <= 127
}

/// Whether every character of a text is printable.
pub open spec fn all_printable(s: Seq<char>) -> bool {
    forall|i: int| 0 <= i < s.len() ==> printable(#[trigger] s[i])
}

/// Whether a text holds no `#`.
pub open spec fn has_no_hash(s: Seq<char>) -> bool {
    forall|i: int| 0 <= i < s.len() ==> #[trigger] s[i] != '#'
}

/// Whether `i` is the place of the first `#` of a text.
pub open spec fn is_first_hash(s: Seq<char>, i: int) -> bool {
    0 <= i < s.len() && s[i] == '#' && has_no_hash(s.subrange(0, i))
}

/// The place of the first `#` of a text that holds one.
pub open spec fn first_hash(s: Seq<char>) -> int {
    choose|i: int| is_first_hash(s, i)
}

/// The body of a descriptor text: the whole text where it holds no `#`, the
/// part before the first `#` where what follows is the checksum of that part.
/// `None` where a character is not printable or the checksum does not match.
pub open spec fn verified_body(s: Seq<char>) -> Option<Seq<char>> {
    if !all_printable(s) {
        None
    } else if has_no_hash(s) {
        Some(s)
    } else {
        let i = first_hash(s);
        let body = s.subrange(0, i);
        if checksum_of(body) == Some(s.subrange(i + 1, s.len() as int)) {
            Some(body)
        } else {
            None
        }
    }
}

/// A text has one first `#` at most.
pub proof fn lemma_first_hash_unique(s: Seq<char>, i: int)
    requires
        is_first_hash(s, i),
    ensures
        first_hash(s) == i,
        !has_no_hash(s),
{
    let j = first_hash(s);
    assert(is_first_hash(s, j));
    if j < i {
        assert(s.subrange(0, i)[j] == s[j]);
    }
    if i < j {
        assert(s.subrange(0, j)[i] == s[i]);
    }
}

/// The first byte of a character in UTF-8.
pub open spec fn first_byte_of(ch: char) -> u8 {
    let code = ch as u32;
    if code < 0x80 {
        code as u8
    } else if code < 0x800 {
        (0xc0 + (code >> 6) % 0x20) as u8
    } else if code < 0x10000 {
        (0xe0 + (code >> 12) % 0x10) as u8
    } else {
        (0xf0 + (code >> 18) % 0x08) as u8
    }
}

/// The first character of a text that is not printable.
pub open spec fn is_first_unprintable(s: Seq<char>, i: int) -> bool {
    0 <= i < s.len() && !printable(s[i]) && all_printable(s.subrange(0, i))
}

/// The first byte of a character in UTF-8.
fn first_byte(ch: char) -> (b: u8)
    ensures
        b == first_byte_of(ch),
{
    let code: u32 = ch as u32;
    if code < 0x80 {
        code as u8
    } else if code < 0x800 {
        (0xc0 + (code >> 6) % 0x20) as u8
    } else if code < 0x10000 {
        (0xe0 + (code >> 12) % 0x10) as u8
    } else {
        (0xf0 + (code >> 18) % 0x08) as u8
    }
}

/// Checks a descriptor text and gives its body. A character outside the
/// printable range is reported as such; a checksum that is there must be
/// the checksum of the body, else the descriptor is bad.
pub fn verify_checksum(s: &Vec<char>) -> (r: Result<Vec<char>, Error>)
    ensures
        match r {
            Ok(body) => verified_body(s@) == Some(body@),
            Err(e) => {
                &&& verified_body(s@) is None
                &&& !all_printable(s@) ==> (e matches Error::Unprintable(b) && exists|i: int|
                    is_first_unprintable(s@, i) && b == first_byte_of(s@[i]))
                &&& all_printable(s@) ==> e is BadDescriptor
            },
        },
{
    let mut i: usize = 0;
    while i < s.len()
        invariant
            i <= s.len(),
            all_printable(s@.subrange(0, i as int)),
        decreases s.len() - i,
    {
        let code: u32 = s[i] as u32;
        if code < 20 || code > 127 {
            proof {
                assert(is_first_unprintable(s@, i as int));
            }
            return Err(Error::Unprintable(first_byte(s[i])));
        }
        proof {
            assert forall|j: int| 0 <= j < i + 1 implies printable(
                #[trigger] s@.subrange(0, i + 1)[j],
            ) by {
                if j < i {
                    assert(s@.subrange(0, i as int)[j] == s@[j]);
                }
            }
        }
        i += 1;
    }
    proof {
        assert(s@.subrange(0, i as int) =~= s@);
    }
    let mut h: usize = 0;
    while h < s.len() && s[h] != '#'
        invariant
            h <= s.len(),
            has_no_hash(s@.subrange(0, h as int)),
        decreases s.len() - h,
    {
        proof {
            assert forall|j: int| 0 <= j < h + 1 implies #[trigger] s@.subrange(0, h + 1)[j]
                != '#' by {
                if j < h {
                    assert(s@.subrange(0, h as int)[j] == s@[j]);
                }
            }
        }
        h += 1;
    }
    let mut body: Vec<char> = Vec::new();
    let mut k: usize = 0;
    while k < h
        invariant
            k <= h <= s.len(),
            body@ == s@.subrange(0, k as int),
        decreases h - k,
    {
        body.push(s[k]);
        proof {
            assert(body@ =~= s@.subrange(0, k + 1));
        }
        k += 1;
    }
    if h == s.len() {
        proof {
            assert(s@.subrange(0, h as int) =~= s@);
        }
        return Ok(body);
    }
    proof {
        lemma_first_hash_unique(s@, h as int);
    }
    let mut given: Vec<char> = Vec::new();
    let mut k: usize = h + 1;
    while k < s.len()
        invariant
            h + 1 <= k <= s.len(),
            given@ == s@.subrange(h + 1, k as int),
        decreases s.len() - k,
    {
        given.push(s[k]);
        proof {
            assert(given@ =~= s@.subrange(h + 1, k + 1));
        }
        k += 1;
    }
    let expected = match desc_checksum(&body) {
        Ok(sum) => sum,
        Err(e) => {
            return Err(e);
        },
    };
    if same_chars(&given, &expected) {
        Ok(body)
    } else {
        let mut message: Vec<char> = Vec::new();
        append_str(&mut message, "Invalid checksum '");
        append_chars(&mut message, &given);
        append_str(&mut message, "', expected '");
        append_chars(&mut message, &expected);
        append_str(&mut message, "'");
        Err(Error::BadDescriptor(string_of(&message)))
    }
}

/// Puts the checksum behind a descriptor body: the body, `#`, and the eight
/// characters.
pub open spec fn with_checksum(body: Seq<char>) -> Option<Seq<char>> {
    match checksum_of(body) {
        Some(sum) => Some(body + seq!['#'] + sum),
        None => None,
    }
}

/// A text all of whose characters are in the input alphabet has a checksum.
pub proof fn lemma_checksum_defined(s: Seq<char>)
    requires
        forall|i: int| 0 <= i < s.len() ==> input_position(#[trigger] s[i]) is Some,
    ensures
        fed(s) is Some,
        checksum_of(s) is Some,
        checksum_of(s).unwrap().len() == 8,
    decreases s.len(),
{
    if s.len() > 0 {
        assert forall|i: int| 0 <= i < s.drop_last().len() implies input_position(
            #[trigger] s.drop_last()[i],
        ) is Some by {
            assert(s.drop_last()[i] == s[i]);
        }
        lemma_checksum_defined(s.drop_last());
        assert(input_position(s.last()) is Some);
    }
}

/// A body without `#` whose characters are in the input alphabet, followed
/// by `#` and its checksum, is verified and gives the body back. Followed by
/// `#` and anything else, it is rejected.
pub proof fn lemma_checksum_round_trip(body: Seq<char>, suffix: Seq<char>)
    requires
        has_no_hash(body),
        forall|i: int| 0 <= i < body.len() ==> input_position(#[trigger] body[i]) is Some,
    ensures
        checksum_of(body) == Some(suffix) ==> verified_body(body + seq!['#'] + suffix) == Some(
            body,
        ),
        checksum_of(body) != Some(suffix) ==> verified_body(body + seq!['#'] + suffix) is None,
{
    let s = body + seq!['#'] + suffix;
    let n = body.len() as int;
    assert(s.subrange(0, n) =~= body);
    assert(s[n] == '#');
    lemma_first_hash_unique(s, n);
    assert(s.subrange(n + 1, s.len() as int) =~= suffix);
    lemma_checksum_defined(body);
    if checksum_of(body) == Some(suffix) {
        assert forall|i: int| 0 <= i < s.len() implies printable(#[trigger] s[i]) by {
            if i < n {
                assert(s[i] == body[i]);
                assert(input_position(body[i]) is Some);
            } else if i > n {
                assert(s[i] == suffix[i - n - 1]);
                let c = finished(fed(body).unwrap());
                assert(suffix[i - n - 1] == checksum_text(c)[i - n - 1]);
            }
        }
    }
}

/// Whether every character of a text is in the input alphabet and none is
/// `#`.
pub open spec fn plain(s: Seq<char>) -> bool {
    forall|i: int| 0 <= i < s.len() ==> input_position(#[trigger] s[i]) is Some && s[i] != '#'
}

/// Whether every character of a text is in the input alphabet and none is
/// `#`.
pub fn is_plain(s: &Vec<char>) -> (r: bool)
    ensures
        r == plain(s@),
{
    let mut i: usize = 0;
    while i < s.len()
        invariant
            i <= s.len(),
            forall|j: int| 0 <= j < i ==> input_position(#[trigger] s@[j]) is Some && s@[j] != '#',
        decreases s.len() - i,
    {
        if s[i] == '#' || input_position_of(s[i]).is_none() {
            return false;
        }
        i += 1;
    }
    true
}

/// Two plain texts, one behind the other, are a plain text.
pub proof fn lemma_plain_concat(a: Seq<char>, b: Seq<char>)
    requires
        plain(a),
        plain(b),
    ensures
        plain(a + b),
{
    assert forall|i: int| 0 <= i < (a + b).len() implies input_position(#[trigger] (a + b)[i])
        is Some && (a + b)[i] != '#' by {
        if i < a.len() {
            assert((a + b)[i] == a[i]);
        } else {
            assert((a + b)[i] == b[i - a.len()]);
        }
    }
}

/// Hexadecimal text is plain.
pub proof fn lemma_hex_plain(bytes: Seq<u8>)
    ensures
        plain(hex_lower(bytes)),
{
    assert forall|i: int| 0 <= i < hex_lower(bytes).len() implies input_position(
        #[trigger] hex_lower(bytes)[i],
    ) is Some && hex_lower(bytes)[i] != '#' by {
        let b = bytes[i / 2];
        assert(b / 16 < 16 && b % 16 < 16);
    }
}

/// Decimal text is plain.
pub proof fn lemma_decimal_plain(n: nat)
    ensures
        plain(decimal(n)),
    decreases n,
{
    if n >= 10 {
        lemma_decimal_plain(n / 10);
        assert(plain(seq![decimal_digit(n % 10)]));
        lemma_plain_concat(decimal(n / 10), seq![decimal_digit(n % 10)]);
        assert(decimal(n) =~= decimal(n / 10) + seq![decimal_digit(n % 10)]);
    }
}

/// A plain body has a checksum, and the body with `#` and its checksum
/// behind it is verified and gives the body back.
pub proof fn lemma_plain_round_trip(body: Seq<char>)
    requires
        plain(body),
    ensures
        with_checksum(body) is Some,
        verified_body(with_checksum(body).unwrap()) == Some(body),
{
    lemma_checksum_defined(body);
    lemma_checksum_round_trip(body, checksum_of(body).unwrap());
}

/// Changing anything in the checksum behind a plain body makes the text
/// fail verification.
pub proof fn lemma_wrong_checksum_rejected(body: Seq<char>, suffix: Seq<char>)
    requires
        plain(body),
        checksum_of(body) != Some(suffix),
    ensures
        verified_body(body + seq!['#'] + suffix) is None,
{
    lemma_checksum_round_trip(body, suffix);
}

} // verus!
