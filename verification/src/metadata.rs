//! Metadata extraction: pulls structured identifiers out of a raw payload
//! using the configured patterns. A pattern starting with `\x` denotes a byte
//! sequence searched for in the raw payload; any other pattern is a regular
//! expression applied to the decoded envelope. Extraction never fails: a
//! pattern that does not apply simply yields no value.

use vstd::prelude::*;
use vstd::slice::slice_subrange;
use vstd::utf8::encode_utf8;
use crate::config::{IdPattern, MetadataExtraction};

verus! {

/// One extracted identifier: its kind and its value.
#[derive(Debug, Clone)]
pub struct IdEntry {
    pub id_type: String,
    pub value: String,
}

/// Identifiers extracted from one payload, in pattern order. Lookup reads
/// from the end, so a later pattern supersedes an earlier one of the same
/// kind. Immutable once created.
#[derive(Debug, Clone)]
pub struct PacketMetadata {
    pub ids: Vec<IdEntry>,
}

impl View for PacketMetadata {
    type V = Seq<(Seq<char>, Seq<char>)>;

    open spec fn view(&self) -> Seq<(Seq<char>, Seq<char>)> {
        self.ids@.map_values(|e: IdEntry| (e.id_type@, e.value@))
    }
}

/// The value stored under a key: the last pair carrying it, if any.
pub open spec fn lookup_pairs(pairs: Seq<(Seq<char>, Seq<char>)>, key: Seq<char>) -> Option<
    Seq<char>,
>
    decreases pairs.len(),
{
    if pairs.len() == 0 {
        None
    } else if pairs.last().0 == key {
        Some(pairs.last().1)
    } else {
        lookup_pairs(pairs.drop_last(), key)
    }
}

impl Default for PacketMetadata {
    /// An empty identifier map.
    fn default() -> (md: Self)
        ensures
            md@ == Seq::<(Seq<char>, Seq<char>)>::empty(),
    {
        let md = PacketMetadata { ids: Vec::new() };
        proof {
            assert(md@ =~= Seq::<(Seq<char>, Seq<char>)>::empty());
        }
        md
    }
}

impl PacketMetadata {
    /// The value stored under `key`, read as `lookup_pairs` over the view.
    pub fn get(&self, key: &String) -> (r: Option<&String>)
        ensures
            match r {
                Some(v) => lookup_pairs(self@, key@) == Some(v@),
                None => lookup_pairs(self@, key@) is None,
            },
    {
        let mut i: usize = self.ids.len();
        proof {
            assert(self@.take(i as int) =~= self@);
        }
        while i > 0
            invariant
                i <= self.ids@.len(),
                lookup_pairs(self@, key@) == lookup_pairs(self@.take(i as int), key@),
            decreases i,
        {
            i = i - 1;
            proof {
                assert(self@.take(i as int + 1).drop_last() =~= self@.take(i as int));
                assert(self@.take(i as int + 1).last() == self@[i as int]);
            }
            if self.ids[i].id_type == *key {
                return Some(&self.ids[i].value);
            }
        }
        proof {
            assert(self@.take(0) =~= Seq::<(Seq<char>, Seq<char>)>::empty());
        }
        None
    }
}

/// Pattern text that selects binary matching: it starts with `\x`.
pub open spec fn is_binary_pattern(p: Seq<u8>) -> bool {
    p.len() >= 2 && p[0] == 92u8 && p[1] == 120u8
}

/// Value of an ASCII hex digit, if the byte is one.
pub open spec fn hex_val(b: u8) -> Option<u8> {
    if 48 <= b <= 57 {
        Some((b - 48) as u8)
    } else if 97 <= b <= 102 {
        Some((b - 87) as u8)
    } else if 65 <= b <= 70 {
        Some((b - 55) as u8)
    } else {
        None
    }
}

/// The bytes a `\xHH\xHH...` pattern denotes; nothing unless the pattern is a
/// whole number of such groups.
pub open spec fn hex_pattern_bytes(p: Seq<u8>) -> Option<Seq<u8>>
    decreases p.len(),
{
    if p.len() == 0 {
        Some(Seq::<u8>::empty())
    } else if p.len() >= 4 && p[0] == 92u8 && p[1] == 120u8 && hex_val(p[2]) is Some && hex_val(
        p[3],
    ) is Some {
        match hex_pattern_bytes(p.skip(4)) {
            Some(rest) => Some(
                seq![(hex_val(p[2]).unwrap() * 16 + hex_val(p[3]).unwrap()) as u8].add(rest),
            ),
            None => None,
        }
    } else {
        None
    }
}

/// The needle occurs in the haystack at position i.
pub open spec fn match_at(hay: Seq<u8>, needle: Seq<u8>, i: int) -> bool {
    0 <= i && i + needle.len() <= hay.len() && hay.subrange(i, i + needle.len()) == needle
}

/// First occurrence of the needle at or after position i.
pub open spec fn first_match_from(hay: Seq<u8>, needle: Seq<u8>, i: int) -> Option<int>
    recommends
        0 <= i,
    decreases hay.len() - i,
{
    if i < 0 || i + needle.len() > hay.len() {
        None
    } else if match_at(hay, needle, i) {
        Some(i)
    } else if i + needle.len() == hay.len() {
        None
    } else {
        first_match_from(hay, needle, i + 1)
    }
}

/// Value of an ASCII hex digit, if the byte is one.
fn hex_digit(b: u8) -> (r: Option<u8>)
    ensures
        r == hex_val(b),
{
    if 48 <= b && b <= 57 {
        Some(b - 48)
    } else if 97 <= b && b <= 102 {
        Some(b - 87)
    } else if 65 <= b && b <= 70 {
        Some(b - 55)
    } else {
        None
    }
}

/// Decode a `\xHH\xHH...` pattern into the byte sequence it denotes.
#[verifier::loop_isolation(false)]
pub fn parse_hex_pattern(pattern: &[u8]) -> (r: Option<Vec<u8>>)
    ensures
        match r {
            Some(v) => hex_pattern_bytes(pattern@) == Some(v@),
            None => hex_pattern_bytes(pattern@) is None,
        },
{
    let n = pattern.len();
    let mut out: Vec<u8> = Vec::new();
    let mut i: usize = 0;
    proof {
        assert(pattern@.skip(0) =~= pattern@);
    }
    while i < n
        invariant
            i <= n,
            i % 4 == 0,
            hex_pattern_bytes(pattern@) == match hex_pattern_bytes(pattern@.skip(i as int)) {
                Some(rest) => Some(out@ + rest),
                None => None::<Seq<u8>>,
            },
        decreases n - i,
    {
        if n - i < 4 || pattern[i] != 92 || pattern[i + 1] != 120 {
            return None;
        }
        let h = match hex_digit(pattern[i + 2]) {
            Some(h) => h,
            None => {
                return None;
            },
        };
        let l = match hex_digit(pattern[i + 3]) {
            Some(l) => l,
            None => {
                return None;
            },
        };
        out.push(h * 16 + l);
        proof {
            assert(pattern@.skip(i as int).skip(4) =~= pattern@.skip(i as int + 4));
        }
        i = i + 4;
    }
    proof {
        assert(pattern@.skip(i as int) =~= Seq::<u8>::empty());
        if hex_pattern_bytes(pattern@) is Some {
            assert(hex_pattern_bytes(pattern@).unwrap() =~= out@);
        }
    }
    Some(out)
}

/// Whether the needle occurs at position i of the haystack.
#[verifier::loop_isolation(false)]
fn matches_at(hay: &[u8], needle: &Vec<u8>, i: usize) -> (r: bool)
    requires
        i + needle@.len() <= hay@.len(),
    ensures
        r == match_at(hay@, needle@, i as int),
{
    let hn = hay.len();
    let n = needle.len();
    let mut j: usize = 0;
    while j < n
        invariant
            j <= n,
            forall|k: int| 0 <= k < j ==> hay@[i + k] == needle@[k],
        decreases n - j,
    {
        if hay[i + j] != needle[j] {
            proof {
                assert(hay@.subrange(i as int, i + needle@.len())[j as int] == hay@[i + j]);
            }
            return false;
        }
        j = j + 1;
    }
    proof {
        assert(hay@.subrange(i as int, i + needle@.len()) =~= needle@);
    }
    true
}

/// First occurrence of the needle in the haystack, scanning left to right.
#[verifier::loop_isolation(false)]
pub fn find_bytes(haystack: &[u8], needle: &Vec<u8>) -> (r: Option<usize>)
    ensures
        match r {
            Some(p) => first_match_from(haystack@, needle@, 0) == Some(p as int),
            None => first_match_from(haystack@, needle@, 0) is None,
        },
{
    let hn = haystack.len();
    let nn = needle.len();
    if nn > hn {
        return None;
    }
    if nn == 0 {
        proof {
            assert(haystack@.subrange(0, 0) =~= needle@);
        }
        return Some(0);
    }
    let mut i: usize = 0;
    while i <= hn - nn
        invariant
            1 <= nn <= hn,
            i <= hn - nn + 1,
            i <= hn - nn ==> first_match_from(haystack@, needle@, 0) == first_match_from(
                haystack@,
                needle@,
                i as int,
            ),
            i == hn - nn + 1 ==> first_match_from(haystack@, needle@, 0) is None,
        decreases hn - nn - i + 1,
    {
        if matches_at(haystack, needle, i) {
            return Some(i);
        }
        i = i + 1;
    }
    None
}

/// What `String::from_utf8_lossy` decodes a byte sequence to. The relied-on
/// facts stand on the trusted wrapper below; the result depends on the bytes
/// alone.
pub uninterp spec fn utf8_lossy_of(bytes: Seq<u8>) -> Seq<char>;

/// Relies on `String::from_utf8_lossy`: decodes UTF-8, substituting the
/// replacement character for invalid sequences; on ASCII input every byte
/// decodes to its own character.
#[verifier::external_body]
pub(crate) fn utf8_lossy(bytes: &[u8]) -> (r: String)
    ensures
        r@ == utf8_lossy_of(bytes@),
        (forall|i: int| 0 <= i < bytes@.len() ==> bytes@[i] < 128) ==> r@ == bytes@.map_values(
            |b: u8| b as char,
        ),
{
    String::from_utf8_lossy(bytes).into_owned()
}

/// What applying a regular expression to a text yields for capture group 1:
/// nothing when the pattern does not compile, does not match, or group 1 is
/// absent. The result depends on pattern and text alone.
pub uninterp spec fn regex_capture_of(pattern: Seq<char>, text: Seq<char>) -> Option<Seq<char>>;

/// Relies on `regex::Regex::new` and `Regex::captures`: compiles the pattern,
/// finds the leftmost match in the text and hands out capture group 1.
#[verifier::external_body]
fn regex_capture_group1(pattern: &str, text: &str) -> (r: Option<String>)
    ensures
        match r {
            Some(v) => regex_capture_of(pattern@, text@) == Some(v@),
            None => regex_capture_of(pattern@, text@) is None,
        },
{
    let re = regex::Regex::new(pattern).ok()?;
    let caps = re.captures(text)?;
    let m = caps.get(1)?;
    Some(m.as_str().to_string())
}

/// The value one pattern yields from a payload, if any.
pub open spec fn pattern_value(payload: Seq<u8>, p: IdPattern, header_offset: int) -> Option<
    Seq<char>,
> {
    if is_binary_pattern(encode_utf8(p.pattern@)) {
        match hex_pattern_bytes(encode_utf8(p.pattern@)) {
            Some(needle) => match first_match_from(payload, needle, 0) {
                Some(pos) => {
                    let start = pos + p.value_offset as int;
                    if 0 <= start && start + p.value_length <= payload.len() {
                        Some(utf8_lossy_of(payload.subrange(start, start + p.value_length as int)))
                    } else {
                        None
                    }
                },
                None => None,
            },
            None => None,
        }
    } else {
        regex_capture_of(p.pattern@, utf8_lossy_of(payload.skip(header_offset)))
    }
}

/// All (kind, value) pairs the first k patterns yield, in pattern order.
pub open spec fn extract_pairs(
    payload: Seq<u8>,
    patterns: Seq<IdPattern>,
    k: int,
    header_offset: int,
) -> Seq<(Seq<char>, Seq<char>)>
    decreases k,
{
    if k <= 0 {
        Seq::empty()
    } else {
        let rest = extract_pairs(payload, patterns, k - 1, header_offset);
        match pattern_value(payload, patterns[k - 1], header_offset) {
            Some(v) => rest.push((patterns[k - 1].id_type@, v)),
            None => rest,
        }
    }
}

/// What extraction yields: nothing at all when the payload does not reach
/// past the header offset, else every pattern's value in pattern order.
pub open spec fn extract_spec(payload: Seq<u8>, cfg: MetadataExtraction) -> Seq<
    (Seq<char>, Seq<char>),
> {
    if payload.len() <= cfg.header_offset {
        Seq::empty()
    } else {
        extract_pairs(
            payload,
            cfg.id_patterns@,
            cfg.id_patterns@.len() as int,
            cfg.header_offset as int,
        )
    }
}

/// Extract identifiers from a payload under the configured patterns. Pure:
/// out-of-bounds reads, unmatched patterns and malformed pattern text yield
/// no value, never an error.
#[verifier::loop_isolation(false)]
pub fn extract(payload: &[u8], cfg: &MetadataExtraction) -> (md: PacketMetadata)
    ensures
        md@ == extract_spec(payload@, *cfg),
{
    let mut md = PacketMetadata { ids: Vec::new() };
    proof {
        assert(md@ =~= Seq::<(Seq<char>, Seq<char>)>::empty());
    }
    if payload.len() <= cfg.header_offset {
        return md;
    }
    let envelope = slice_subrange(payload, cfg.header_offset, payload.len());
    proof {
        assert(envelope@ =~= payload@.skip(cfg.header_offset as int));
    }
    let text = utf8_lossy(envelope);
    let mut pi: usize = 0;
    while pi < cfg.id_patterns.len()
        invariant
            pi <= cfg.id_patterns@.len(),
            text@ == utf8_lossy_of(payload@.skip(cfg.header_offset as int)),
            md@ == extract_pairs(
                payload@,
                cfg.id_patterns@,
                pi as int,
                cfg.header_offset as int,
            ),
        decreases cfg.id_patterns@.len() - pi,
    {
        let p = &cfg.id_patterns[pi];
        let pb = p.pattern.as_str().as_bytes();
        let value: Option<String> = if pb.len() >= 2 && pb[0] == 92 && pb[1] == 120 {
            match parse_hex_pattern(pb) {
                Some(needle) => match find_bytes(payload, &needle) {
                    Some(pos) => {
                        let start_i: i128 = pos as i128 + p.value_offset as i128;
                        let end_i: i128 = start_i + p.value_length as i128;
                        if 0 <= start_i && end_i <= payload.len() as i128 {
                            let vb = slice_subrange(
                                payload,
                                start_i as usize,
                                end_i as usize,
                            );
                            Some(utf8_lossy(vb))
                        } else {
                            None
                        }
                    },
                    None => None,
                },
                None => None,
            }
        } else {
            regex_capture_group1(p.pattern.as_str(), text.as_str())
        };
        match value {
            Some(v) => {
                md.ids.push(IdEntry { id_type: p.id_type.clone(), value: v });
                proof {
                    assert(md@ =~= extract_pairs(
                        payload@,
                        cfg.id_patterns@,
                        pi as int + 1,
                        cfg.header_offset as int,
                    ));
                }
            },
            None => {},
        }
        pi = pi + 1;
    }
    md
}

} // verus!
