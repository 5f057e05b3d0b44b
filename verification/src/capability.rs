//! Capability checks: whether a named tool or a memory-key access is
//! permitted for an agent's declared capability set.
//!
//! A tool is permitted when the declared tool list holds its name, or holds
//! the wildcard `"*"`. A memory key is permitted when it matches at least one
//! glob of the relevant pattern set. A glob is a `/`-separated list of
//! segments; each segment is either a literal (no `*`) or the whole-segment
//! wildcard `*`, so matching is total and allocation-light.

use vstd::prelude::*;
use vstd::string::StringSliceAdditionalSpecFns;
use crate::manifest::AgentManifest;

verus! {

/// The outcome of a refused capability check.
#[derive(Clone, Copy, PartialEq, Eq, Structural, Debug)]
pub struct CapabilityDenied;

/// Which memory-access direction a check concerns.
#[derive(Clone, Copy, PartialEq, Eq, Structural, Debug)]
pub enum ReadOrWrite {
    Read,
    Write,
}

/// The byte for `/`, the glob segment separator.
pub open spec fn sep_byte() -> u8 {
    0x2f
}

/// The byte for `*`, the segment wildcard.
pub open spec fn star_byte() -> u8 {
    0x2a
}

/// The byte sequences of a sequence of byte vectors.
pub open spec fn views_of(v: Seq<Vec<u8>>) -> Seq<Seq<u8>> {
    Seq::new(v.len(), |i: int| v[i]@)
}

/// The character sequences of a sequence of strings.
pub open spec fn char_views(v: Seq<String>) -> Seq<Seq<char>> {
    Seq::new(v.len(), |i: int| v[i]@)
}

/// The UTF-8 byte sequences of a sequence of strings.
pub open spec fn byte_views(v: Seq<String>) -> Seq<Seq<u8>> {
    Seq::new(v.len(), |i: int| vstd::utf8::encode_utf8(v[i]@))
}

/// The least index of `sep` in `s`, or `s.len()` when absent.
pub open spec fn find_sep(s: Seq<u8>, sep: u8) -> int
    decreases s.len(),
{
    if s.len() == 0 {
        0
    } else if s[0] == sep {
        0
    } else {
        1 + find_sep(s.drop_first(), sep)
    }
}

pub proof fn lemma_find_sep_bounds(s: Seq<u8>, sep: u8)
    ensures
        0 <= find_sep(s, sep) <= s.len(),
        forall|j: int| 0 <= j < find_sep(s, sep) ==> s[j] != sep,
        find_sep(s, sep) < s.len() ==> s[find_sep(s, sep)] == sep,
    decreases s.len(),
{
    if s.len() != 0 && s[0] != sep {
        lemma_find_sep_bounds(s.drop_first(), sep);
        assert forall|j: int| 0 <= j < find_sep(s, sep) implies s[j] != sep by {
            if j > 0 {
                assert(s[j] == s.drop_first()[j - 1]);
            }
        }
    }
}

pub proof fn lemma_find_sep_at(s: Seq<u8>, sep: u8, i: int)
    requires
        0 <= i <= s.len(),
        forall|j: int| 0 <= j < i ==> s[j] != sep,
        i == s.len() || s[i] == sep,
    ensures
        find_sep(s, sep) == i,
    decreases i,
{
    if i == 0 {
    } else {
        assert forall|j: int| 0 <= j < i - 1 implies s.drop_first()[j] != sep by {
            assert(s.drop_first()[j] == s[j + 1]);
        }
        assert(i - 1 == s.drop_first().len() || s.drop_first()[i - 1] == sep);
        lemma_find_sep_at(s.drop_first(), sep, i - 1);
    }
}

/// `s` split into the (possibly empty) stretches between occurrences of
/// `sep`; an empty `s` yields one empty stretch.
pub open spec fn split_bytes(s: Seq<u8>, sep: u8) -> Seq<Seq<u8>>
    decreases s.len(),
{
    let i = find_sep(s, sep);
    if i == s.len() {
        seq![s]
    } else if 0 <= i < s.len() {
        seq![s.take(i)] + split_bytes(s.skip(i + 1), sep)
    } else {
        seq![s]
    }
}

/// A glob segment matches a key segment when it is the wildcard or equal.
pub open spec fn seg_matches(p: Seq<u8>, k: Seq<u8>) -> bool {
    p == seq![star_byte()] || p == k
}

/// Every glob segment matches the key segment in its position.
pub open spec fn segs_all_match(ps: Seq<Seq<u8>>, ks: Seq<Seq<u8>>) -> bool {
    ps.len() == ks.len() && forall|i: int|
        0 <= i < ps.len() ==> seg_matches(#[trigger] ps[i], ks[i])
}

/// A glob matches a key when both split into the same number of segments and
/// each glob segment matches the key segment in its position.
pub open spec fn glob_match(pattern: Seq<u8>, key: Seq<u8>) -> bool {
    segs_all_match(split_bytes(pattern, sep_byte()), split_bytes(key, sep_byte()))
}

/// A segment is well formed when it is wildcard-free or the bare wildcard.
pub open spec fn seg_valid(p: Seq<u8>) -> bool {
    p == seq![star_byte()] || forall|j: int| 0 <= j < p.len() ==> p[j] != star_byte()
}

/// Every segment of the list is well formed.
pub open spec fn segs_all_valid(ps: Seq<Seq<u8>>) -> bool {
    forall|i: int| 0 <= i < ps.len() ==> seg_valid(#[trigger] ps[i])
}

/// A glob parses when every one of its segments is well formed.
pub open spec fn glob_valid(pattern: Seq<u8>) -> bool {
    segs_all_valid(split_bytes(pattern, sep_byte()))
}

/// Splits `v` on `sep`, yielding the stretches between separators.
fn split_on(v: &[u8], sep: u8) -> (r: Vec<Vec<u8>>)
    ensures
        views_of(r@) == split_bytes(v@, sep),
{
    let mut r: Vec<Vec<u8>> = Vec::new();
    let mut cur: Vec<u8> = Vec::new();
    let mut start: usize = 0;
    let mut i: usize = 0;
    proof {
        assert(v@.skip(0) =~= v@);
        assert(views_of(r@) =~= Seq::<Seq<u8>>::empty());
        assert(cur@ =~= v@.subrange(0, 0));
    }
    while i < v.len()
        invariant
            0 <= start as int <= i as int <= v@.len(),
            cur@ == v@.subrange(start as int, i as int),
            forall|j: int| start <= j < i ==> v@[j] != sep,
            split_bytes(v@, sep) == views_of(r@) + split_bytes(v@.skip(start as int), sep),
        decreases v@.len() - i,
    {
        if v[i] == sep {
            proof {
                let rest = v@.skip(start as int);
                assert forall|j: int| 0 <= j < i - start implies rest[j] != sep by {
                    assert(rest[j] == v@[start + j]);
                }
                assert(rest[i - start] == v@[i as int]);
                lemma_find_sep_at(rest, sep, i - start);
                assert(rest.take(i - start) =~= cur@);
                assert(rest.skip(i - start + 1) =~= v@.skip(i as int + 1));
                assert(views_of(r@.push(cur)) =~= views_of(r@) + seq![cur@]);
                assert(split_bytes(rest, sep) == seq![cur@] + split_bytes(v@.skip(i as int + 1), sep));
                assert(views_of(r@) + split_bytes(rest, sep) =~= (views_of(r@) + seq![cur@])
                    + split_bytes(v@.skip(i as int + 1), sep));
            }
            r.push(cur);
            cur = Vec::new();
            start = i + 1;
            proof {
                assert(cur@ =~= v@.subrange(start as int, start as int));
            }
        } else {
            cur.push(v[i]);
            proof {
                assert(cur@ =~= v@.subrange(start as int, i + 1));
            }
        }
        i = i + 1;
    }
    proof {
        let rest = v@.skip(start as int);
        assert forall|j: int| 0 <= j < v@.len() - start implies rest[j] != sep by {
            assert(rest[j] == v@[start + j]);
        }
        lemma_find_sep_at(rest, sep, v@.len() - start);
        assert(rest =~= cur@);
        assert(split_bytes(rest, sep) == seq![cur@]);
        assert(views_of(r@.push(cur)) =~= views_of(r@) + seq![cur@]);
        assert(views_of(r@) + seq![cur@] =~= views_of(r@) + split_bytes(rest, sep));
    }
    r.push(cur);
    r
}

fn vec_bytes_eq(a: &Vec<u8>, b: &Vec<u8>) -> (r: bool)
    ensures
        r == (a@ == b@),
{
    crate::strutil::bytes_eq(a.as_slice(), b.as_slice())
}

fn seg_is_star(p: &Vec<u8>) -> (r: bool)
    ensures
        r == (p@ == seq![star_byte()]),
{
    if p.len() == 1 && p[0] == 0x2a {
        proof {
            assert(p@ =~= seq![star_byte()]);
        }
        true
    } else {
        proof {
            if p@ == seq![star_byte()] {
                assert(p@.len() == 1 && p@[0] == star_byte());
            }
        }
        false
    }
}

/// Whether the glob `pattern` matches `key`, over their UTF-8 bytes.
pub fn glob_matches(pattern: &str, key: &str) -> (r: bool)
    ensures
        r == glob_match(pattern.spec_bytes(), key.spec_bytes()),
{
    let ps = split_on(pattern.as_bytes(), 0x2f);
    let ks = split_on(key.as_bytes(), 0x2f);
    let ghost pss = split_bytes(pattern.spec_bytes(), sep_byte());
    let ghost kss = split_bytes(key.spec_bytes(), sep_byte());
    proof {
        assert(pss.len() == ps@.len() && kss.len() == ks@.len());
    }
    if ps.len() != ks.len() {
        return false;
    }
    let mut i: usize = 0;
    while i < ps.len()
        invariant
            views_of(ps@) == pss,
            views_of(ks@) == kss,
            ps@.len() == ks@.len(),
            i <= ps@.len(),
            forall|j: int| 0 <= j < i ==> seg_matches(#[trigger] pss[j], kss[j]),
        decreases ps@.len() - i,
    {
        let star = seg_is_star(&ps[i]);
        if !star && !vec_bytes_eq(&ps[i], &ks[i]) {
            proof {
                assert(pss[i as int] == ps@[i as int]@ && kss[i as int] == ks@[i as int]@);
                assert(!seg_matches(pss[i as int], kss[i as int]));
                assert(!segs_all_match(pss, kss));
            }
            return false;
        }
        proof {
            assert(pss[i as int] == ps@[i as int]@ && kss[i as int] == ks@[i as int]@);
        }
        i = i + 1;
    }
    true
}

fn seg_is_valid(p: &Vec<u8>) -> (r: bool)
    ensures
        r == seg_valid(p@),
{
    if seg_is_star(p) {
        return true;
    }
    let mut j: usize = 0;
    while j < p.len()
        invariant
            p@ != seq![star_byte()],
            j <= p@.len(),
            forall|t: int| 0 <= t < j ==> p@[t] != star_byte(),
        decreases p@.len() - j,
    {
        if p[j] == 0x2a {
            proof {
                assert(p@[j as int] == star_byte());
            }
            return false;
        }
        j = j + 1;
    }
    true
}

/// Whether `pattern` is a well-formed glob.
pub fn glob_is_valid(pattern: &str) -> (r: bool)
    ensures
        r == glob_valid(pattern.spec_bytes()),
{
    let ps = split_on(pattern.as_bytes(), 0x2f);
    let ghost pss = split_bytes(pattern.spec_bytes(), sep_byte());
    let mut i: usize = 0;
    while i < ps.len()
        invariant
            views_of(ps@) == pss,
            i <= ps@.len(),
            forall|j: int| 0 <= j < i ==> seg_valid(#[trigger] pss[j]),
        decreases ps@.len() - i,
    {
        if !seg_is_valid(&ps[i]) {
            proof {
                assert(pss[i as int] == ps@[i as int]@);
                assert(!seg_valid(pss[i as int]));
                assert(!segs_all_valid(pss));
            }
            return false;
        }
        proof {
            assert(pss[i as int] == ps@[i as int]@);
        }
        i = i + 1;
    }
    true
}

/// A declared entry allows a tool when it is the wildcard or the tool's name.
pub open spec fn tool_entry_allows(entry: Seq<char>, tool: Seq<char>) -> bool {
    entry == "*"@ || entry == tool
}

/// A tool name is allowed when the declared list holds it, or the wildcard.
pub open spec fn tool_allowed(tools: Seq<Seq<char>>, tool: Seq<char>) -> bool {
    exists|i: int| 0 <= i < tools.len() && tool_entry_allows(#[trigger] tools[i], tool)
}

/// A key is allowed when at least one glob of the set matches it.
pub open spec fn key_allowed(patterns: Seq<Seq<u8>>, key: Seq<u8>) -> bool {
    exists|i: int| 0 <= i < patterns.len() && glob_match(#[trigger] patterns[i], key)
}

/// Permits `tool` when the manifest's declared tool set holds it, or holds
/// the wildcard `"*"`; denies it otherwise.
pub fn check_tool(manifest: &AgentManifest, tool: &str) -> (r: Result<(), CapabilityDenied>)
    ensures
        r is Ok <==> tool_allowed(char_views(manifest.capabilities.tools@), tool@),
        r is Err ==> r == Err::<(), CapabilityDenied>(CapabilityDenied),
{
    let tools = &manifest.capabilities.tools;
    let ghost tv = char_views(tools@);
    let mut i: usize = 0;
    while i < tools.len()
        invariant
            tv == char_views(tools@),
            i <= tools@.len(),
            forall|j: int| 0 <= j < i ==> !tool_entry_allows(#[trigger] tv[j], tool@),
        decreases tools@.len() - i,
    {
        let entry = &tools[i];
        if crate::strutil::str_eq(entry.as_str(), "*") || crate::strutil::str_eq(
            entry.as_str(),
            tool,
        ) {
            proof {
                assert(tv[i as int] == tools@[i as int]@);
                assert(tool_entry_allows(tv[i as int], tool@));
            }
            return Ok(());
        }
        proof {
            assert(tv[i as int] == tools@[i as int]@);
        }
        i = i + 1;
    }
    Err(CapabilityDenied)
}

/// Permits `key` for the given direction when at least one glob of the
/// relevant pattern set (`memory_read` or `memory_write`) matches it.
pub fn check_memory(manifest: &AgentManifest, op: ReadOrWrite, key: &str) -> (r: Result<
    (),
    CapabilityDenied,
>)
    ensures
        r is Ok <==> key_allowed(
            byte_views(
                match op {
                    ReadOrWrite::Read => manifest.capabilities.memory_read@,
                    ReadOrWrite::Write => manifest.capabilities.memory_write@,
                },
            ),
            key.spec_bytes(),
        ),
        r is Err ==> r == Err::<(), CapabilityDenied>(CapabilityDenied),
{
    let patterns = match op {
        ReadOrWrite::Read => &manifest.capabilities.memory_read,
        ReadOrWrite::Write => &manifest.capabilities.memory_write,
    };
    let ghost pv = byte_views(patterns@);
    let mut i: usize = 0;
    while i < patterns.len()
        invariant
            pv == byte_views(patterns@),
            i <= patterns@.len(),
            forall|j: int| 0 <= j < i ==> !glob_match(#[trigger] pv[j], key.spec_bytes()),
        decreases patterns@.len() - i,
    {
        if glob_matches(patterns[i].as_str(), key) {
            proof {
                assert(pv[i as int] == vstd::utf8::encode_utf8(patterns@[i as int]@));
                assert(glob_match(pv[i as int], key.spec_bytes()));
                assert(key_allowed(pv, key.spec_bytes()));
            }
            return Ok(());
        }
        proof {
            assert(pv[i as int] == vstd::utf8::encode_utf8(patterns@[i as int]@));
        }
        i = i + 1;
    }
    Err(CapabilityDenied)
}

} // verus!
