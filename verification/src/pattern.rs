//! The pattern language over addresses: parsing a text token into one of
//! three matcher variants, evaluating a candidate address against it,
//! rendering it back to text, and projecting it to what the GPU backend
//! can enforce natively.

use vstd::prelude::*;
use vstd::string::{StringExecFns, StringSliceAdditionalSpecFns};
use crate::bytes::sub_bytes;
use crate::create3::Address;
use crate::hexcode::{
    hex_chars_of, hex_decodable, hex_decode_bytes, hex_decoded, hex_encode_bytes,
};

verus! {

/// A parsed pattern over addresses.
pub enum PatternType {
    /// Match addresses whose raw bytes begin with the given byte sequence.
    Prefix(Vec<u8>),
    /// Match addresses whose lowercase 40-digit hex text matches the
    /// regular expression held here as anchored source text.
    Regex(String),
    /// Match addresses that begin with one of the leading alternatives (if
    /// any are required) and end with one of the trailing alternatives (if
    /// any are required).
    Advanced { leading: Option<Vec<Vec<u8>>>, trailing: Option<Vec<Vec<u8>>> },
}

/// Whether the regular expression source `pattern` compiles. Left
/// uninterpreted; the trusted wrapper below ties it to the real
/// implementation.
pub uninterp spec fn regex_compiles(pattern: Seq<char>) -> bool;

/// Whether the regular expression source `pattern` matches somewhere in
/// `text`. Left uninterpreted, as `regex_compiles` is.
pub uninterp spec fn regex_accepts(pattern: Seq<char>, text: Seq<char>) -> bool;

/// Relies on `regex::Regex::new` and `regex::Regex::is_match`: whether a
/// pattern compiles, and whether it matches a text, are functions of the
/// pattern and text characters alone. The two calls are fused so that the
/// match result can be spoken of through the pattern's source text.
#[verifier::external_body]
pub(crate) fn regex_try_match(pattern: &str, text: &str) -> (r: Option<bool>)
    ensures
        r is Some <==> regex_compiles(pattern@),
        (r matches Some(b) ==> b == regex_accepts(pattern@, text@)),
{
    match regex::Regex::new(pattern) {
        Ok(re) => Some(re.is_match(text)),
        Err(_) => None,
    }
}

/// Is `p` a prefix of `a`?
pub open spec fn is_prefix_of(p: Seq<u8>, a: Seq<u8>) -> bool {
    p.len() <= a.len() && a.subrange(0, p.len() as int) == p
}

/// Is `p` a suffix of `a`?
pub open spec fn is_suffix_of(p: Seq<u8>, a: Seq<u8>) -> bool {
    p.len() <= a.len() && a.subrange(a.len() - p.len(), a.len() as int) == p
}

/// Does some alternative in `opts` begin `a`?
pub open spec fn some_prefix_matches(opts: Seq<Vec<u8>>, a: Seq<u8>) -> bool {
    exists|i: int| 0 <= i < opts.len() && is_prefix_of(#[trigger] opts[i]@, a)
}

/// Does some alternative in `opts` end `a`?
pub open spec fn some_suffix_matches(opts: Seq<Vec<u8>>, a: Seq<u8>) -> bool {
    exists|i: int| 0 <= i < opts.len() && is_suffix_of(#[trigger] opts[i]@, a)
}

/// What it means for the address bytes `addr` to match a pattern. For the
/// regular-expression variant the pattern matches when its source both
/// compiles and accepts the lowercase hex text of the address.
pub open spec fn spec_matches(p: PatternType, addr: Seq<u8>) -> bool {
    match p {
        PatternType::Prefix(pre) => is_prefix_of(pre@, addr),
        PatternType::Regex(src) => regex_compiles(src@) && regex_accepts(
            src@,
            hex_chars_of(addr),
        ),
        PatternType::Advanced { leading, trailing } => (match leading {
            Some(opts) => some_prefix_matches(opts@, addr),
            None => true,
        }) && (match trailing {
            Some(opts) => some_suffix_matches(opts@, addr),
            None => true,
        }),
    }
}

/// Does `a` begin with `p`?
fn bytes_start_with(a: &[u8], p: &[u8]) -> (r: bool)
    ensures
        r == is_prefix_of(p@, a@),
{
    let plen = p.len();
    if plen > a.len() {
        return false;
    }
    let mut i: usize = 0;
    while i < plen
        invariant
            i <= plen,
            plen == p@.len() <= a@.len(),
            forall|k: int| 0 <= k < i ==> a@[k] == p@[k],
        decreases plen - i,
    {
        if a[i] != p[i] {
            assert(a@.subrange(0, p@.len() as int)[i as int] != p@[i as int]);
            return false;
        }
        i += 1;
    }
    assert(a@.subrange(0, p@.len() as int) =~= p@);
    true
}

/// Does `a` end with `p`?
fn bytes_end_with(a: &[u8], p: &[u8]) -> (r: bool)
    ensures
        r == is_suffix_of(p@, a@),
{
    let plen = p.len();
    let alen = a.len();
    if plen > alen {
        return false;
    }
    let off = alen - plen;
    let mut i: usize = 0;
    while i < plen
        invariant
            i <= plen,
            plen == p@.len() <= a@.len(),
            alen == a@.len(),
            off == alen - plen,
            forall|k: int| 0 <= k < i ==> a@[off + k] == p@[k],
        decreases plen - i,
    {
        if a[off + i] != p[i] {
            assert(a@.subrange(a@.len() - p@.len(), a@.len() as int)[i as int] != p@[i as int]);
            return false;
        }
        i += 1;
    }
    assert(a@.subrange(a@.len() - p@.len(), a@.len() as int) =~= p@);
    true
}

/// Does some alternative begin `a`?
fn any_prefix_matches(opts: &Vec<Vec<u8>>, a: &[u8]) -> (r: bool)
    ensures
        r == some_prefix_matches(opts@, a@),
{
    let n = opts.len();
    let mut i: usize = 0;
    while i < n
        invariant
            i <= n,
            n == opts@.len(),
            forall|k: int| 0 <= k < i ==> !is_prefix_of(#[trigger] opts@[k]@, a@),
        decreases n - i,
    {
        if bytes_start_with(a, opts[i].as_slice()) {
            return true;
        }
        i += 1;
    }
    false
}

/// Does some alternative end `a`?
fn any_suffix_matches(opts: &Vec<Vec<u8>>, a: &[u8]) -> (r: bool)
    ensures
        r == some_suffix_matches(opts@, a@),
{
    let n = opts.len();
    let mut i: usize = 0;
    while i < n
        invariant
            i <= n,
            n == opts@.len(),
            forall|k: int| 0 <= k < i ==> !is_suffix_of(#[trigger] opts@[k]@, a@),
        decreases n - i,
    {
        if bytes_end_with(a, opts[i].as_slice()) {
            return true;
        }
        i += 1;
    }
    false
}

/// Evaluate a candidate address against a pattern.
pub fn address_matches_pattern(address: &Address, pattern: &PatternType) -> (r: bool)
    ensures
        r == spec_matches(*pattern, address@),
{
    match pattern {
        PatternType::Prefix(prefix) => bytes_start_with(
            address.bytes.as_slice(),
            prefix.as_slice(),
        ),
        PatternType::Regex(src) => {
            let hex_text = hex_encode_bytes(address.bytes.as_slice());
            match regex_try_match(src.as_str(), hex_text.as_str()) {
                Some(b) => b,
                None => false,
            }
        },
        PatternType::Advanced { leading, trailing } => {
            let lead_ok = match leading {
                Some(opts) => any_prefix_matches(opts, address.bytes.as_slice()),
                None => true,
            };
            let trail_ok = match trailing {
                Some(opts) => any_suffix_matches(opts, address.bytes.as_slice()),
                None => true,
            };
            lead_ok && trail_ok
        },
    }
}

/// Does `b` hold the byte `c` anywhere?
pub open spec fn contains_byte_spec(b: Seq<u8>, c: u8) -> bool {
    exists|i: int| 0 <= i < b.len() && b[i] == c
}

/// The first position at or after `from` where `b` holds the byte `c`.
pub open spec fn find_byte_from(b: Seq<u8>, c: u8, from: nat) -> Option<nat>
    decreases b.len() - from,
{
    if from >= b.len() {
        None
    } else if b[from as int] == c {
        Some(from)
    } else {
        find_byte_from(b, c, from + 1)
    }
}

/// The first position at or after `from` where three dots begin in `b`.
pub open spec fn find_dot3_from(b: Seq<u8>, from: nat) -> Option<nat>
    decreases b.len() + 3 - from,
{
    if from + 3 > b.len() {
        None
    } else if b[from as int] == 0x2eu8 && b[from + 1 as int] == 0x2eu8 && b[from + 2 as int] == 0x2eu8 {
        Some(from)
    } else {
        find_dot3_from(b, from + 1)
    }
}

/// A found byte lies at or after `from`, inside `b`, and is the byte
/// sought.
proof fn lemma_find_byte_bounds(b: Seq<u8>, c: u8, from: nat)
    ensures
        find_byte_from(b, c, from) matches Some(i) ==> from <= i < b.len() && b[i as int] == c,
    decreases b.len() - from,
{
    if from < b.len() && b[from as int] != c {
        lemma_find_byte_bounds(b, c, from + 1);
    }
}

/// The segments of `b[from..]` between `|` bytes, in order; `n + 1`
/// segments for `n` separators, empty segments kept.
pub open spec fn split_bar_from(b: Seq<u8>, from: nat) -> Seq<Seq<u8>>
    decreases b.len() - from,
    via split_bar_from_decreases
{
    match find_byte_from(b, 0x7cu8, from) {
        None => seq![b.subrange(from as int, b.len() as int)],
        Some(i) => seq![b.subrange(from as int, i as int)] + split_bar_from(b, i + 1),
    }
}

#[via_fn]
proof fn split_bar_from_decreases(b: Seq<u8>, from: nat) {
    lemma_find_byte_bounds(b, 0x7cu8, from);
}

/// The hex decodings of the segments from index `i` on, decode failures
/// dropped.
pub open spec fn decoded_alts_from(segs: Seq<Seq<u8>>, i: nat) -> Seq<Seq<u8>>
    decreases segs.len() - i,
{
    if i >= segs.len() {
        Seq::empty()
    } else {
        (if hex_decodable(segs[i as int]) {
            seq![hex_decoded(segs[i as int])]
        } else {
            Seq::<Seq<u8>>::empty()
        }) + decoded_alts_from(segs, i + 1)
    }
}

/// What one side of an advanced pattern parses to: for a parenthesised
/// group with `|`, each alternative hex-decoded with failures dropped;
/// otherwise the whole side as a single alternative, or no alternative at
/// all when it does not decode.
pub open spec fn spec_or_conditions(b: Seq<u8>) -> Seq<Seq<u8>> {
    if b.len() >= 2 && b[0] == 0x28u8 && b[b.len() - 1] == 0x29u8 && contains_byte_spec(b, 0x7cu8) {
        decoded_alts_from(split_bar_from(b.subrange(1, b.len() - 1), 0), 0)
    } else if hex_decodable(b) {
        seq![hex_decoded(b)]
    } else {
        Seq::empty()
    }
}

/// The pattern text anchored for a full match of the whole address text.
pub open spec fn anchored(p: Seq<char>) -> Seq<char> {
    "^"@ + p + "$"@
}

/// What hex decoding with the always-match fallback produces: the decoded
/// prefix, or the empty prefix when the text does not decode.
pub open spec fn is_default_decode(b: Seq<u8>, r: PatternType) -> bool {
    match r {
        PatternType::Prefix(p) => p@ == if hex_decodable(b) {
            hex_decoded(b)
        } else {
            Seq::<u8>::empty()
        },
        _ => false,
    }
}

/// What a pattern containing three dots parses to: the token is split
/// around the first dot triple, the text before it becoming the leading
/// side and all text after it the trailing side, an empty side meaning
/// no constraint.
pub open spec fn is_advanced_parse(b: Seq<u8>, r: PatternType) -> bool {
    match find_dot3_from(b, 0) {
        Some(i) => {
            let lead = b.subrange(0, i as int);
            let trail = b.subrange(i + 3 as int, b.len() as int);
            match r {
                PatternType::Advanced { leading, trailing } => {
                    &&& (leading is Some <==> lead.len() > 0)
                    &&& (leading matches Some(l) ==> l.deep_view() == spec_or_conditions(lead))
                    &&& (trailing is Some <==> trail.len() > 0)
                    &&& (trailing matches Some(t) ==> t.deep_view() == spec_or_conditions(trail))
                },
                _ => false,
            }
        },
        None => false,
    }
}

/// Finding a byte is stable over a stretch that does not hold it.
proof fn lemma_find_byte_skip(b: Seq<u8>, c: u8, from: nat, to: nat)
    requires
        from <= to <= b.len(),
        forall|k: int| from <= k < to ==> b[k] != c,
    ensures
        find_byte_from(b, c, from) == find_byte_from(b, c, to),
    decreases to - from,
{
    if from < to {
        lemma_find_byte_skip(b, c, from + 1, to);
    }
}

/// Finding a dot triple is stable over a stretch where none begins.
proof fn lemma_find_dot3_skip(b: Seq<u8>, from: nat, to: nat)
    requires
        from <= to,
        to + 3 <= b.len() + 3,
        forall|k: int|
            from <= k < to ==> !(k + 3 <= b.len() && #[trigger] b[k] == 0x2eu8 && b[k + 1] == 0x2eu8
                && b[k + 2] == 0x2eu8),
    ensures
        find_dot3_from(b, from) == find_dot3_from(b, to),
    decreases to - from,
{
    if from < to {
        lemma_find_dot3_skip(b, from + 1, to);
    }
}

/// Is the byte `c` anywhere in `b`?
fn contains_byte(b: &[u8], c: u8) -> (r: bool)
    ensures
        r == contains_byte_spec(b@, c),
{
    let n = b.len();
    let mut i: usize = 0;
    while i < n
        invariant
            i <= n,
            n == b@.len(),
            forall|k: int| 0 <= k < i ==> b@[k] != c,
        decreases n - i,
    {
        if b[i] == c {
            return true;
        }
        i += 1;
    }
    false
}

/// The first position where three dots begin in `b`.
fn find_dot3(b: &[u8]) -> (r: Option<usize>)
    ensures
        match r {
            Some(i) => find_dot3_from(b@, 0) == Some(i as nat) && i + 3 <= b@.len(),
            None => find_dot3_from(b@, 0) is None,
        },
{
    let n = b.len();
    let mut i: usize = 0;
    while n >= 3 && i <= n - 3
        invariant
            i <= n,
            n == b@.len(),
            forall|k: int|
                0 <= k < i ==> !(k + 3 <= b@.len() && #[trigger] b@[k] == 0x2eu8 && b@[k + 1]
                    == 0x2eu8 && b@[k + 2] == 0x2eu8),
        decreases n - i,
    {
        if b[i] == 0x2e && b[i + 1] == 0x2e && b[i + 2] == 0x2e {
            proof {
                lemma_find_dot3_skip(b@, 0, i as nat);
            }
            return Some(i);
        }
        i += 1;
    }
    proof {
        lemma_find_dot3_skip(b@, 0, i as nat);
    }
    None
}

/// Split `b` into its segments between `|` bytes.
fn split_bar(b: &[u8]) -> (r: Vec<Vec<u8>>)
    ensures
        r.deep_view() == split_bar_from(b@, 0),
{
    let n = b.len();
    let mut out: Vec<Vec<u8>> = Vec::new();
    let mut start: usize = 0;
    let mut j: usize = 0;
    while j < n
        invariant
            start <= j <= n,
            n == b@.len(),
            split_bar_from(b@, 0) == out.deep_view() + split_bar_from(b@, start as nat),
            forall|k: int| start <= k < j ==> b@[k] != 0x7cu8,
        decreases n - j,
    {
        if b[j] == 0x7c {
            proof {
                lemma_find_byte_skip(b@, 0x7cu8, start as nat, j as nat);
            }
            let seg = sub_bytes(b, start, j);
            proof {
                let pre = out.deep_view();
                let segv = b@.subrange(start as int, j as int);
                assert(split_bar_from(b@, start as nat) == seq![segv] + split_bar_from(
                    b@,
                    (j + 1) as nat,
                ));
                assert(pre + (seq![segv] + split_bar_from(b@, (j + 1) as nat)) =~= (pre
                    + seq![segv]) + split_bar_from(b@, (j + 1) as nat));
            }
            let ghost pre_view = out.deep_view();
            out.push(seg);
            proof {
                assert(out.deep_view() =~~= pre_view + seq![b@.subrange(start as int, j as int)]);
            }
            start = j + 1;
        }
        j += 1;
    }
    proof {
        lemma_find_byte_skip(b@, 0x7cu8, start as nat, n as nat);
        assert(split_bar_from(b@, start as nat) == seq![b@.subrange(start as int, n as int)]);
    }
    let seg = sub_bytes(b, start, n);
    let ghost pre_view = out.deep_view();
    out.push(seg);
    proof {
        assert(out.deep_view() =~~= pre_view + seq![b@.subrange(start as int, n as int)]);
        assert(out.deep_view() =~= split_bar_from(b@, 0));
    }
    out
}

/// Hex-decode each segment, dropping the ones that do not decode.
fn decode_segments(segs: &Vec<Vec<u8>>) -> (r: Vec<Vec<u8>>)
    ensures
        r.deep_view() == decoded_alts_from(segs.deep_view(), 0),
{
    let n = segs.len();
    let mut out: Vec<Vec<u8>> = Vec::new();
    let mut i: usize = 0;
    while i < n
        invariant
            i <= n,
            n == segs@.len(),
            segs.deep_view().len() == n,
            decoded_alts_from(segs.deep_view(), 0) == out.deep_view() + decoded_alts_from(
                segs.deep_view(),
                i as nat,
            ),
        decreases n - i,
    {
        assert(segs.deep_view()[i as int] == segs@[i as int]@);
        match hex_decode_bytes(segs[i].as_slice()) {
            Some(d) => {
                proof {
                    let sv = segs.deep_view();
                    assert(decoded_alts_from(sv, i as nat) == seq![hex_decoded(sv[i as int])]
                        + decoded_alts_from(sv, (i + 1) as nat));
                    assert(out.deep_view() + (seq![hex_decoded(sv[i as int])] + decoded_alts_from(
                        sv,
                        (i + 1) as nat,
                    )) =~= (out.deep_view() + seq![hex_decoded(sv[i as int])]) + decoded_alts_from(
                        sv,
                        (i + 1) as nat,
                    ));
                }
                let ghost pre_view = out.deep_view();
                let ghost dv = d@;
                out.push(d);
                proof {
                    assert(out.deep_view() =~~= pre_view + seq![dv]);
                }
            },
            None => {
                proof {
                    let sv = segs.deep_view();
                    assert(decoded_alts_from(sv, i as nat) == decoded_alts_from(sv, (i + 1) as nat));
                }
            },
        }
        i += 1;
    }
    out
}

/// Parse one side of an advanced pattern into its byte-sequence
/// alternatives.
fn or_conditions_bytes(b: &[u8]) -> (r: Vec<Vec<u8>>)
    ensures
        r.deep_view() == spec_or_conditions(b@),
{
    let n = b.len();
    if n >= 2 && b[0] == 0x28 && b[n - 1] == 0x29 && contains_byte(b, 0x7c) {
        let inner = sub_bytes(b, 1, n - 1);
        let segs = split_bar(inner.as_slice());
        let r = decode_segments(&segs);
        r
    } else {
        match hex_decode_bytes(b) {
            Some(bytes) => {
                let ghost bv = bytes@;
                let mut r: Vec<Vec<u8>> = Vec::new();
                r.push(bytes);
                proof {
                    assert(r.deep_view() =~~= seq![bv]);
                }
                r
            },
            None => {
                let r: Vec<Vec<u8>> = Vec::new();
                proof {
                    assert(r.deep_view() =~~= Seq::<Seq<u8>>::empty());
                }
                r
            },
        }
    }
}

/// Parse one side of an advanced pattern: a parenthesised `|` group
/// becomes one alternative per decodable member, anything else a single
/// alternative, or none at all when the hex does not decode.
pub fn parse_or_conditions(pattern: &str) -> (r: Vec<Vec<u8>>)
    ensures
        r.deep_view() == spec_or_conditions(pattern.spec_bytes()),
{
    or_conditions_bytes(pattern.as_bytes())
}

/// Hex decoding with the always-match fallback: an undecodable pattern
/// becomes the empty prefix.
fn decode_hex_or_default(b: &[u8]) -> (r: PatternType)
    ensures
        is_default_decode(b@, r),
{
    match hex_decode_bytes(b) {
        Some(bytes) => PatternType::Prefix(bytes),
        None => PatternType::Prefix(Vec::new()),
    }
}

/// The regular-expression source used for an `|`-pattern: the pattern text
/// itself, taken over verbatim.
pub fn hex_or_pattern_to_regex(pattern: &str) -> (r: String)
    ensures
        r@ == pattern@,
{
    String::from_str(pattern)
}

/// Parse a pattern token: three dots split the token around their first
/// occurrence into an advanced pattern's leading and trailing sides, an
/// `|` with a parenthesis makes an anchored regular expression (falling
/// back to hex decoding when it does not compile), and anything else
/// hex-decodes as a byte prefix, an undecodable token becoming the
/// empty, always-matching prefix.
pub fn parse_pattern(pattern_str: &str) -> (r: PatternType)
    ensures
        ({
            let b = pattern_str.spec_bytes();
            &&& (find_dot3_from(b, 0) is Some ==> is_advanced_parse(b, r))
            &&& (find_dot3_from(b, 0) is None && contains_byte_spec(b, 0x7cu8) && (
            contains_byte_spec(b, 0x28u8) || contains_byte_spec(b, 0x29u8)) ==> {
                &&& (regex_compiles(anchored(pattern_str@)) ==> (r matches PatternType::Regex(src)
                    && src@ == anchored(pattern_str@)))
                &&& (!regex_compiles(anchored(pattern_str@)) ==> is_default_decode(b, r))
            })
            &&& (find_dot3_from(b, 0) is None && !(contains_byte_spec(b, 0x7cu8) && (
            contains_byte_spec(b, 0x28u8) || contains_byte_spec(b, 0x29u8)))
                ==> is_default_decode(b, r))
        }),
{
    let b = pattern_str.as_bytes();
    let n = b.len();
    match find_dot3(b) {
        Some(i) => {
            let lead = sub_bytes(b, 0, i);
            let trail = sub_bytes(b, i + 3, n);
            let leading: Option<Vec<Vec<u8>>> = if lead.len() > 0 {
                Some(or_conditions_bytes(lead.as_slice()))
            } else {
                None
            };
            let trailing: Option<Vec<Vec<u8>>> = if trail.len() > 0 {
                Some(or_conditions_bytes(trail.as_slice()))
            } else {
                None
            };
            PatternType::Advanced { leading, trailing }
        },
        None => {
            if contains_byte(b, 0x7c) && (contains_byte(b, 0x28) || contains_byte(b, 0x29)) {
                let converted = hex_or_pattern_to_regex(pattern_str);
                let mut anchored_src = String::from_str("^");
                anchored_src.append(converted.as_str());
                anchored_src.append("$");
                assert(anchored_src@ == anchored(pattern_str@));
                match regex_try_match(anchored_src.as_str(), "") {
                    Some(_) => PatternType::Regex(anchored_src),
                    None => decode_hex_or_default(b),
                }
            } else {
                decode_hex_or_default(b)
            }
        },
    }
}

/// The `" or "`-joined rendering of the alternatives from index `i` on,
/// each as `0x` followed by its hex text.
pub open spec fn or_join(opts: Seq<Vec<u8>>, i: nat) -> Seq<char>
    decreases opts.len() - i,
{
    if i >= opts.len() {
        Seq::empty()
    } else {
        let piece = "0x"@ + hex_chars_of(opts[i as int]@);
        if i + 1 < opts.len() {
            piece + " or "@ + or_join(opts, i + 1)
        } else {
            piece
        }
    }
}

/// The operator-facing rendering of a pattern.
pub open spec fn spec_describe(p: PatternType) -> Seq<char> {
    match p {
        PatternType::Prefix(pre) => "addresses starting with: 0x"@ + hex_chars_of(pre@),
        PatternType::Regex(src) => "addresses matching regex: "@ + src@,
        PatternType::Advanced { leading, trailing } => "addresses with "@ + (match (
            leading,
            trailing,
        ) {
            (Some(l), Some(t)) => "leading: "@ + or_join(l@, 0) + " and "@ + "trailing: "@
                + or_join(t@, 0),
            (Some(l), None) => "leading: "@ + or_join(l@, 0),
            (None, Some(t)) => "trailing: "@ + or_join(t@, 0),
            (None, None) => Seq::empty(),
        }),
    }
}

/// Append the `" or "`-joined rendering of the alternatives to `out`.
fn append_or_join(out: &mut String, opts: &Vec<Vec<u8>>)
    ensures
        final(out)@ == old(out)@ + or_join(opts@, 0),
{
    let n = opts.len();
    let mut i: usize = 0;
    while i < n
        invariant
            i <= n,
            n == opts@.len(),
            out@ + or_join(opts@, i as nat) == old(out)@ + or_join(opts@, 0),
        decreases n - i,
    {
        let ghost pre = out@;
        out.append("0x");
        let h = hex_encode_bytes(opts[i].as_slice());
        out.append(h.as_str());
        if i + 1 < n {
            out.append(" or ");
            proof {
                assert(out@ + or_join(opts@, (i + 1) as nat) =~= pre + or_join(opts@, i as nat));
            }
        } else {
            proof {
                assert(out@ + or_join(opts@, (i + 1) as nat) =~= pre + or_join(opts@, i as nat));
            }
        }
        i += 1;
    }
    proof {
        assert(out@ + or_join(opts@, n as nat) =~= out@);
    }
}

/// Render a pattern for operator-facing reporting: an information
/// preserving inverse of parsing for the prefix and advanced variants; the
/// regular-expression variant renders its source text.
pub fn describe_pattern(pattern: &PatternType) -> (r: String)
    ensures
        r@ == spec_describe(*pattern),
{
    match pattern {
        PatternType::Prefix(prefix) => {
            let mut s = String::from_str("addresses starting with: 0x");
            let h = hex_encode_bytes(prefix.as_slice());
            s.append(h.as_str());
            s
        },
        PatternType::Regex(src) => {
            let mut s = String::from_str("addresses matching regex: ");
            s.append(src.as_str());
            s
        },
        PatternType::Advanced { leading, trailing } => {
            let mut s = String::from_str("addresses with ");
            match (leading, trailing) {
                (Some(l), Some(t)) => {
                    s.append("leading: ");
                    append_or_join(&mut s, l);
                    s.append(" and ");
                    s.append("trailing: ");
                    append_or_join(&mut s, t);
                },
                (Some(l), None) => {
                    s.append("leading: ");
                    append_or_join(&mut s, l);
                },
                (None, Some(t)) => {
                    s.append("trailing: ");
                    append_or_join(&mut s, t);
                },
                (None, None) => {},
            }
            assert(s@ =~= spec_describe(*pattern));
            s
        },
    }
}

/// Copy a byte vector.
fn clone_bytes(v: &Vec<u8>) -> (r: Vec<u8>)
    ensures
        r@ == v@,
{
    let r = sub_bytes(v.as_slice(), 0, v.len());
    assert(v@.subrange(0, v@.len() as int) =~= v@);
    r
}

/// Project a pattern to what the GPU backend can enforce natively: the
/// prefix bytes and their length for a prefix pattern, and the empty,
/// match-everything projection for every other variant.
pub fn get_pattern_for_gpu(pattern: &PatternType) -> (r: (Vec<u8>, usize))
    ensures
        (pattern matches PatternType::Prefix(p) ==> r.0@ == p@ && r.1 == p@.len()),
        (!(pattern is Prefix) ==> r.0@ == Seq::<u8>::empty() && r.1 == 0),
{
    match pattern {
        PatternType::Prefix(prefix) => {
            let c = clone_bytes(prefix);
            let n = c.len();
            (c, n)
        },
        _ => {
            let empty: Vec<u8> = Vec::new();
            assert(empty@ =~= Seq::<u8>::empty());
            (empty, 0)
        },
    }
}

/// The rendering of a prefix pattern is information-preserving: two
/// prefix patterns with the same description hold the same bytes.
pub proof fn lemma_describe_prefix_injective(
    p1: PatternType,
    pre1: Vec<u8>,
    p2: PatternType,
    pre2: Vec<u8>,
)
    requires
        p1 == PatternType::Prefix(pre1),
        p2 == PatternType::Prefix(pre2),
        spec_describe(p1) == spec_describe(p2),
    ensures
        pre1@ == pre2@,
{
    let h = "addresses starting with: 0x"@;
    let d1 = h + hex_chars_of(pre1@);
    let d2 = h + hex_chars_of(pre2@);
    assert(spec_describe(p1) == d1);
    assert(spec_describe(p2) == d2);
    assert(d1.len() == d2.len());
    assert(hex_chars_of(pre1@).len() == hex_chars_of(pre2@).len());
    assert forall|i: int|
        0 <= i < hex_chars_of(pre1@).len() implies hex_chars_of(pre1@)[i] == hex_chars_of(
        pre2@,
    )[i] by {
        assert(d1[h.len() + i] == d2[h.len() + i]);
    }
    assert(hex_chars_of(pre1@) =~= hex_chars_of(pre2@));
    crate::hexcode::lemma_hex_chars_injective(pre1@, pre2@);
}

/// A prefix pattern matches an address exactly when the address's first
/// `len(p)` bytes equal `p`; a prefix longer than the address matches
/// nothing.
pub proof fn lemma_prefix_matches(p: PatternType, pre: Vec<u8>, addr: Seq<u8>)
    requires
        p == PatternType::Prefix(pre),
    ensures
        spec_matches(p, addr) <==> (pre@.len() <= addr.len() && addr.subrange(
            0,
            pre@.len() as int,
        ) == pre@),
{
}

/// An empty prefix pattern matches every address: decode failure during
/// parsing therefore silently weakens the search to "match everything".
pub proof fn lemma_empty_prefix_matches_all(p: PatternType, pre: Vec<u8>, addr: Seq<u8>)
    requires
        p == PatternType::Prefix(pre),
        pre@.len() == 0,
    ensures
        spec_matches(p, addr),
{
    assert(addr.subrange(0, 0) =~= pre@);
}

} // verus!
