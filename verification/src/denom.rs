//! Denom name validation.
//!
//! A canonical denom is `factory/<creator>/<subdenom>`. The first validation
//! path assembles that candidate from its two parts and checks its bounds;
//! the second takes an already-assembled string, splits it on `/`, checks the
//! prefix case-insensitively, and confirms the remaining two parts through
//! the first path.

use vstd::prelude::*;
use vstd::string::*;

use crate::error::TokenFactoryError;

verus! {

/// The candidate denom string assembled from a creator and a subdenom.
pub open spec fn spec_candidate(creator: Seq<char>, subdenom: Seq<char>) -> Seq<char> {
    "factory/"@ + creator + "/"@ + subdenom
}

/// When a (creator, subdenom) pair is accepted: the assembled candidate is
/// between 3 and 128 bytes, the creator holds no `/` and is at most 75
/// bytes, and the subdenom is at most 44 bytes.
pub open spec fn spec_denom_parts_ok(creator: Seq<char>, subdenom: Seq<char>) -> bool {
    let candidate = vstd::utf8::encode_utf8(spec_candidate(creator, subdenom));
    &&& 3 <= candidate.len() <= 128
    &&& !creator.contains('/')
    &&& vstd::utf8::encode_utf8(subdenom).len() <= 44
    &&& vstd::utf8::encode_utf8(creator).len() <= 75
}

/// Message carried by the error of the first validation path.
pub open spec fn spec_bad_candidate_message() -> Seq<char> {
    "invalid full denom"@
}

/// Message for a pre-assembled denom that does not split into three parts.
pub open spec fn spec_parts_message(parts: nat) -> Seq<char> {
    "denom must have 3 parts separated by /, had "@ + spec_dec(parts)
}

/// Message for a pre-assembled denom whose first part is not `factory`.
pub open spec fn spec_prefix_message(prefix: Seq<char>) -> Seq<char> {
    "prefix must be 'factory', was "@ + prefix
}

/// How many times `c` occurs in `s`.
pub open spec fn spec_count_char(s: Seq<char>, c: char) -> int
    decreases s.len(),
{
    if s.len() == 0 {
        0
    } else {
        spec_count_char(s.drop_last(), c) + if s.last() == c {
            1int
        } else {
            0int
        }
    }
}

/// Index of the first occurrence of `c` in `s` at or after `from`;
/// `s.len()` when there is none.
pub open spec fn spec_find(s: Seq<char>, c: char, from: int) -> int
    decreases s.len() - from,
{
    if from < 0 || from >= s.len() {
        s.len() as int
    } else if s[from] == c {
        from
    } else {
        spec_find(s, c, from + 1)
    }
}

/// The first part of the case-insensitive prefix check: the prefix has the
/// seven characters of `factory`, each in either case.
pub open spec fn spec_is_factory_prefix(p: Seq<char>) -> bool {
    &&& p.len() == 7
    &&& (p[0] == 'f' || p[0] == 'F')
    &&& (p[1] == 'a' || p[1] == 'A')
    &&& (p[2] == 'c' || p[2] == 'C')
    &&& (p[3] == 't' || p[3] == 'T')
    &&& (p[4] == 'o' || p[4] == 'O')
    &&& (p[5] == 'r' || p[5] == 'R')
    &&& (p[6] == 'y' || p[6] == 'Y')
}

/// Decimal digits of `n`, most significant first.
pub open spec fn spec_dec(n: nat) -> Seq<char>
    decreases n,
{
    if n < 10 {
        seq![spec_digit_char(n)]
    } else {
        spec_dec(n / 10) + seq![spec_digit_char(n % 10)]
    }
}

/// The character of a single decimal digit.
pub open spec fn spec_digit_char(d: nat) -> char {
    if d == 0 {
        '0'
    } else if d == 1 {
        '1'
    } else if d == 2 {
        '2'
    } else if d == 3 {
        '3'
    } else if d == 4 {
        '4'
    } else if d == 5 {
        '5'
    } else if d == 6 {
        '6'
    } else if d == 7 {
        '7'
    } else if d == 8 {
        '8'
    } else {
        '9'
    }
}

proof fn lemma_count_char_zero(s: Seq<char>, c: char)
    ensures
        (spec_count_char(s, c) == 0) <==> (forall|m: int| 0 <= m < s.len() ==> s[m] != c),
        spec_count_char(s, c) >= 0,
    decreases s.len(),
{
    if s.len() > 0 {
        lemma_count_char_zero(s.drop_last(), c);
        assert(forall|m: int| 0 <= m < s.len() - 1 ==> s[m] == s.drop_last()[m]);
    }
}

proof fn lemma_count_char_split(s: Seq<char>, c: char, k: int)
    requires
        0 <= k <= s.len(),
    ensures
        spec_count_char(s, c) == spec_count_char(s.subrange(0, k), c) + spec_count_char(
            s.subrange(k, s.len() as int),
            c,
        ),
    decreases s.len(),
{
    if k == s.len() {
        assert(s.subrange(0, k) =~= s);
    } else {
        lemma_count_char_split(s.drop_last(), c, k);
        assert(s.drop_last().subrange(0, k) =~= s.subrange(0, k));
        assert(s.subrange(k, s.len() as int).drop_last() =~= s.drop_last().subrange(
            k,
            s.len() - 1,
        ));
    }
}

proof fn lemma_find_props(s: Seq<char>, c: char, from: int)
    requires
        0 <= from <= s.len(),
    ensures
        from <= spec_find(s, c, from) <= s.len(),
        spec_find(s, c, from) < s.len() ==> s[spec_find(s, c, from)] == c,
        forall|m: int| from <= m < spec_find(s, c, from) ==> s[m] != c,
    decreases s.len() - from,
{
    if from < s.len() && s[from] != c {
        lemma_find_props(s, c, from + 1);
    }
}

/// Counts the occurrences of `c` in `s`.
fn str_count_char(s: &str, c: char) -> (n: usize)
    ensures
        n == spec_count_char(s@, c),
        n <= s@.len(),
{
    let ulen = s.unicode_len();
    let mut n: usize = 0;
    let mut i: usize = 0;
    while i < ulen
        invariant
            i <= ulen,
            ulen == s@.len(),
            n <= i,
            n == spec_count_char(s@.subrange(0, i as int), c),
        decreases ulen - i,
    {
        proof {
            assert(s@.subrange(0, i + 1).drop_last() =~= s@.subrange(0, i as int));
        }
        if s.get_char(i) == c {
            n = n + 1;
        }
        i = i + 1;
    }
    proof {
        assert(s@.subrange(0, ulen as int) =~= s@);
    }
    n
}

/// Index of the first occurrence of `c` in `s` at or after `from`, as
/// `spec_find` describes it.
fn str_find_char(s: &str, c: char, from: usize) -> (idx: usize)
    requires
        from <= s@.len(),
    ensures
        idx == spec_find(s@, c, from as int),
        idx <= s@.len(),
{
    let ulen = s.unicode_len();
    let mut i: usize = from;
    while i < ulen
        invariant
            from <= i <= ulen,
            ulen == s@.len(),
            spec_find(s@, c, from as int) == spec_find(s@, c, i as int),
        decreases ulen - i,
    {
        if s.get_char(i) == c {
            return i;
        }
        i = i + 1;
    }
    ulen
}

/// True when `c` occurs in `s`.
fn str_contains_char(s: &str, c: char) -> (b: bool)
    ensures
        b == s@.contains(c),
{
    let ulen = s.unicode_len();
    let mut i: usize = 0;
    while i < ulen
        invariant
            i <= ulen,
            ulen == s@.len(),
            forall|m: int| 0 <= m < i ==> s@[m] != c,
        decreases ulen - i,
    {
        if s.get_char(i) == c {
            proof {
                assert(s@.contains(c)) by {
                    assert(s@[i as int] == c);
                }
            }
            return true;
        }
        i = i + 1;
    }
    false
}

fn digit_str(d: u128) -> (r: &'static str)
    requires
        d < 10,
    ensures
        r@ =~= seq![spec_digit_char(d as nat)],
{
    proof {
        reveal_strlit("0");
        reveal_strlit("1");
        reveal_strlit("2");
        reveal_strlit("3");
        reveal_strlit("4");
        reveal_strlit("5");
        reveal_strlit("6");
        reveal_strlit("7");
        reveal_strlit("8");
        reveal_strlit("9");
    }
    if d == 0 {
        "0"
    } else if d == 1 {
        "1"
    } else if d == 2 {
        "2"
    } else if d == 3 {
        "3"
    } else if d == 4 {
        "4"
    } else if d == 5 {
        "5"
    } else if d == 6 {
        "6"
    } else if d == 7 {
        "7"
    } else if d == 8 {
        "8"
    } else {
        "9"
    }
}

/// Renders `n` in decimal.
fn dec_string(n: u128) -> (s: String)
    ensures
        s@ == spec_dec(n as nat),
    decreases n,
{
    if n < 10 {
        digit_str(n).to_owned()
    } else {
        let mut s = dec_string(n / 10);
        s.append(digit_str(n % 10));
        proof {
            assert(s@ =~= spec_dec(n as nat));
        }
        s
    }
}

/// First validation path: assembles `factory/{creator}/{subdenom}` and
/// accepts it exactly when `spec_denom_parts_ok` holds of the parts; the
/// accepted candidate is returned verbatim.
pub fn full_denom(creator: &str, subdenom: &str) -> (r: Result<String, TokenFactoryError>)
    ensures
        (r matches Ok(d)) <==> spec_denom_parts_ok(creator@, subdenom@),
        (r matches Ok(d) ==> d@ == spec_candidate(creator@, subdenom@)),
        (r matches Err(e) ==> e matches TokenFactoryError::InvalidDenom { denom, message }
            && denom@ == spec_candidate(creator@, subdenom@)
            && message@ == spec_bad_candidate_message()),
{
    let mut denom = String::new();
    denom.append("factory/");
    denom.append(creator);
    denom.append("/");
    denom.append(subdenom);
    proof {
        assert(denom@ =~= spec_candidate(creator@, subdenom@));
    }
    let byte_len = denom.as_str().as_bytes().len();
    let ok = 3 <= byte_len && byte_len <= 128 && !str_contains_char(creator, '/')
        && subdenom.as_bytes().len() <= 44 && creator.as_bytes().len() <= 75;
    if ok {
        Ok(denom)
    } else {
        Err(TokenFactoryError::InvalidDenom {
            denom,
            message: "invalid full denom".to_owned(),
        })
    }
}

/// Second validation path, for a pre-assembled denom string: it must split
/// on `/` into exactly three parts, the first part must case-insensitively
/// equal `factory`, and the remaining two parts must be accepted by the
/// first path.
pub fn validate_denom(denom: &str) -> (r: Result<(), TokenFactoryError>)
    ensures
        (match r {
            Ok(()) => {
                let i = spec_find(denom@, '/', 0);
                let j = spec_find(denom@, '/', i + 1);
                &&& spec_count_char(denom@, '/') == 2
                &&& spec_is_factory_prefix(denom@.subrange(0, i))
                &&& spec_denom_parts_ok(
                    denom@.subrange(i + 1, j),
                    denom@.subrange(j + 1, denom@.len() as int),
                )
            },
            Err(e) => {
                let n = spec_count_char(denom@, '/');
                let i = spec_find(denom@, '/', 0);
                let j = spec_find(denom@, '/', i + 1);
                &&& e matches TokenFactoryError::InvalidDenom { denom: d, message }
                &&& d@ == denom@
                &&& (if n != 2 {
                    message@ == spec_parts_message((n + 1) as nat)
                } else if !spec_is_factory_prefix(denom@.subrange(0, i)) {
                    message@ == spec_prefix_message(denom@.subrange(0, i))
                } else {
                    &&& !spec_denom_parts_ok(
                        denom@.subrange(i + 1, j),
                        denom@.subrange(j + 1, denom@.len() as int),
                    )
                    &&& message@ == spec_bad_candidate_message()
                })
            },
        }),
{
    let ulen = denom.unicode_len();
    let n = str_count_char(denom, '/');
    proof {
        lemma_count_char_zero(denom@, '/');
    }
    if n != 2 {
        let mut message = "denom must have 3 parts separated by /, had ".to_owned();
        let parts = dec_string(n as u128 + 1);
        message.append(parts.as_str());
        proof {
            assert(message@ =~= spec_parts_message((n + 1) as nat));
        }
        return Err(TokenFactoryError::InvalidDenom { denom: denom.to_owned(), message });
    }
    let i = str_find_char(denom, '/', 0);
    proof {
        lemma_find_props(denom@, '/', 0);
        if i == ulen {
            assert(spec_count_char(denom@, '/') == 0);
        }
    }
    let j = str_find_char(denom, '/', i + 1);
    proof {
        lemma_find_props(denom@, '/', i as int + 1);
        if j == ulen {
            lemma_count_char_split(denom@, '/', i as int + 1);
            lemma_count_char_zero(denom@.subrange(0, i as int + 1), '/');
            lemma_count_char_zero(denom@.subrange(i as int + 1, denom@.len() as int), '/');
            assert(denom@.subrange(0, i as int + 1).drop_last() =~= denom@.subrange(0, i as int));
            lemma_count_char_zero(denom@.subrange(0, i as int), '/');
            assert(forall|m: int| 0 <= m < i ==> denom@.subrange(0, i as int)[m] == denom@[m]);
            assert(spec_count_char(denom@, '/') < 2);
        }
    }
    let prefix = denom.substring_char(0, i);
    if !is_factory_prefix(prefix) {
        let mut message = "prefix must be 'factory', was ".to_owned();
        message.append(prefix);
        proof {
            assert(message@ =~= spec_prefix_message(denom@.subrange(0, i as int)));
        }
        return Err(TokenFactoryError::InvalidDenom { denom: denom.to_owned(), message });
    }
    let creator = denom.substring_char(i + 1, j);
    let subdenom = denom.substring_char(j + 1, ulen);
    match full_denom(creator, subdenom) {
        Ok(_) => Ok(()),
        Err(TokenFactoryError::InvalidDenom { denom: _, message }) => Err(
            TokenFactoryError::InvalidDenom { denom: denom.to_owned(), message },
        ),
        Err(e) => Err(e),
    }
}

/// Case-insensitive check of the seven-character `factory` prefix.
fn is_factory_prefix(p: &str) -> (b: bool)
    ensures
        b == spec_is_factory_prefix(p@),
{
    if p.unicode_len() != 7 {
        return false;
    }
    let c0 = p.get_char(0);
    let c1 = p.get_char(1);
    let c2 = p.get_char(2);
    let c3 = p.get_char(3);
    let c4 = p.get_char(4);
    let c5 = p.get_char(5);
    let c6 = p.get_char(6);
    (c0 == 'f' || c0 == 'F') && (c1 == 'a' || c1 == 'A') && (c2 == 'c' || c2 == 'C') && (c3 == 't'
        || c3 == 'T') && (c4 == 'o' || c4 == 'O') && (c5 == 'r' || c5 == 'R') && (c6 == 'y' || c6
        == 'Y')
}

} // verus!
