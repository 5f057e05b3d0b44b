//! The agent manifest: the declarative definition of an agent's identity,
//! model, resource limits, and capabilities, together with its validation
//! and (optional) signature verification.

use vstd::prelude::*;
use vstd::string::StringSliceAdditionalSpecFns;
use ed25519_dalek::Verifier;
use crate::capability::char_views;
use crate::capability::glob_valid;

verus! {

/// Model selection carried by a manifest. The temperature is held as its
/// literal decimal text; the control plane never computes with it.
#[derive(Clone, Debug)]
#[verifier::ext_equal]
pub struct ModelConfig {
    pub provider: String,
    pub model: String,
    pub max_tokens: u64,
    pub temperature: Option<String>,
    pub system_prompt: String,
}

/// Declared resource limits; both must be positive for a manifest to pass
/// validation.
#[derive(Clone, Copy, PartialEq, Eq, Structural, Debug)]
pub struct ResourceLimits {
    pub max_llm_tokens_per_hour: u64,
    pub max_concurrent_tools: u32,
}

/// The declared capability allowlists. An empty list denies everything; the
/// single entry `"*"` in `tools` allows every tool.
#[derive(Clone, Debug)]
#[verifier::ext_equal]
pub struct CapabilitySet {
    pub tools: Vec<String>,
    pub memory_read: Vec<String>,
    pub memory_write: Vec<String>,
}

/// A parsed and validated agent manifest.
#[derive(Clone, Debug)]
#[verifier::ext_equal]
pub struct AgentManifest {
    pub name: String,
    pub version: String,
    pub description: String,
    pub author: String,
    pub module: String,
    pub tags: Vec<String>,
    pub skills: Vec<String>,
    pub mcp_servers: Vec<String>,
    pub model: ModelConfig,
    pub resources: ResourceLimits,
    pub capabilities: CapabilitySet,
}

/// Why a manifest was rejected; every rejection happens before any state
/// mutation, so a caller may fix the input and retry.
#[derive(Clone, Copy, PartialEq, Eq, Structural, Debug)]
pub enum ManifestError {
    /// The TOML text is malformed, or a required field is missing or
    /// carries the wrong type.
    ParseError,
    /// The structure parsed, but a resource limit is zero or negative, or a
    /// capability glob is unparsable.
    ValidationError,
    /// A signed envelope was presented and its signature does not cover the
    /// manifest bytes under the declared public key.
    SignatureInvalid,
}

/// Every glob of every capability list of the manifest is well formed.
pub open spec fn globs_valid(caps: CapabilitySet) -> bool {
    &&& forall|i: int|
        0 <= i < caps.memory_read@.len() ==> glob_valid(
            vstd::utf8::encode_utf8(#[trigger] caps.memory_read@[i]@),
        )
    &&& forall|i: int|
        0 <= i < caps.memory_write@.len() ==> glob_valid(
            vstd::utf8::encode_utf8(#[trigger] caps.memory_write@[i]@),
        )
}

/// A manifest is valid when its resource limits are positive and its
/// capability globs are well formed.
pub open spec fn manifest_valid(m: AgentManifest) -> bool {
    &&& m.resources.max_llm_tokens_per_hour > 0
    &&& m.resources.max_concurrent_tools > 0
    &&& globs_valid(m.capabilities)
}

fn globs_list_valid(patterns: &Vec<String>) -> (r: bool)
    ensures
        r == forall|i: int|
            0 <= i < patterns@.len() ==> glob_valid(
                vstd::utf8::encode_utf8(#[trigger] patterns@[i]@),
            ),
{
    let mut i: usize = 0;
    while i < patterns.len()
        invariant
            i <= patterns@.len(),
            forall|j: int|
                0 <= j < i ==> glob_valid(vstd::utf8::encode_utf8(#[trigger] patterns@[j]@)),
        decreases patterns@.len() - i,
    {
        if !crate::capability::glob_is_valid(patterns[i].as_str()) {
            return false;
        }
        i = i + 1;
    }
    true
}

/// Checks the declared limits and globs of an already-parsed manifest.
pub fn validate_manifest(m: &AgentManifest) -> (r: bool)
    ensures
        r == manifest_valid(*m),
{
    if m.resources.max_llm_tokens_per_hour == 0 {
        return false;
    }
    if m.resources.max_concurrent_tools == 0 {
        return false;
    }
    if !globs_list_valid(&m.capabilities.memory_read) {
        return false;
    }
    if !globs_list_valid(&m.capabilities.memory_write) {
        return false;
    }
    true
}

/// A detached signature over the exact bytes of a manifest text: the
/// signer's 32-byte public key and the 64-byte signature.
#[derive(Clone, Debug)]
pub struct SignedEnvelope {
    pub public_key: Vec<u8>,
    pub signature: Vec<u8>,
}

/// Whether the text parses as a TOML document.
///
/// Named, never stated: parsing depends on the text alone.
pub uninterp spec fn toml_doc_valid(text: Seq<char>) -> bool;

/// The top-level string value under the key, when the document parses and
/// the key holds a string.
pub uninterp spec fn toml_top_str(text: Seq<char>, key: Seq<char>) -> Option<Seq<char>>;

/// The top-level array of strings under the key, when the document parses
/// and the key holds an array whose elements are all strings.
pub uninterp spec fn toml_top_strs(text: Seq<char>, key: Seq<char>) -> Option<Seq<Seq<char>>>;

/// The string under `table.key`, when the document parses and that entry
/// holds a string.
pub uninterp spec fn toml_tbl_str(text: Seq<char>, table: Seq<char>, key: Seq<char>) -> Option<
    Seq<char>,
>;

/// The integer under `table.key`, when the document parses and that entry
/// holds an integer.
pub uninterp spec fn toml_tbl_int(text: Seq<char>, table: Seq<char>, key: Seq<char>) -> Option<i64>;

/// The array of strings under `table.key`, when the document parses and
/// that entry holds an array whose elements are all strings.
pub uninterp spec fn toml_tbl_strs(text: Seq<char>, table: Seq<char>, key: Seq<char>) -> Option<
    Seq<Seq<char>>,
>;

/// The decimal rendering of the float under `table.key`, when the document
/// parses and that entry holds a float.
pub uninterp spec fn toml_tbl_float_text(text: Seq<char>, table: Seq<char>, key: Seq<char>) -> Option<
    Seq<char>,
>;

/// The view of an optional string.
pub open spec fn opt_str_view(o: Option<String>) -> Option<Seq<char>> {
    match o {
        Some(s) => Some(s@),
        None => None,
    }
}

/// The view of an optional list of strings.
pub open spec fn opt_strs_view(o: Option<Vec<String>>) -> Option<Seq<Seq<char>>> {
    match o {
        Some(v) => Some(char_views(v@)),
        None => None,
    }
}

/// Relies on toml's `Table::from_str`: whether the text parses depends on
/// the text alone.
#[verifier::external_body]
fn toml_parses(text: &str) -> (r: bool)
    ensures
        r == toml_doc_valid(text@),
{
    text.parse::<toml::Table>().is_ok()
}

/// Relies on toml's `Table::from_str`, `Table::get` and `Value::as_str`:
/// the string under a top-level key, a function of the text alone.
#[verifier::external_body]
fn toml_get_top_str(text: &str, key: &str) -> (r: Option<String>)
    ensures
        opt_str_view(r) == toml_top_str(text@, key@),
        !toml_doc_valid(text@) ==> r is None,
{
    let table: toml::Table = match text.parse() {
        Ok(t) => t,
        Err(_) => return None,
    };
    table.get(key).and_then(|v| v.as_str()).map(|s| s.to_owned())
}

/// Relies on toml's `Table::from_str`, `Table::get`, `Value::as_array` and
/// `Value::as_str`: the strings under a top-level array key.
#[verifier::external_body]
fn toml_get_top_strs(text: &str, key: &str) -> (r: Option<Vec<String>>)
    ensures
        opt_strs_view(r) == toml_top_strs(text@, key@),
        !toml_doc_valid(text@) ==> r is None,
{
    let table: toml::Table = match text.parse() {
        Ok(t) => t,
        Err(_) => return None,
    };
    let arr = table.get(key)?.as_array()?;
    arr.iter().map(|v| v.as_str().map(|s| s.to_owned())).collect()
}

/// Relies on toml's `Table::from_str`, `Table::get`, `Value::as_table` and
/// `Value::as_str`: the string under a table's key.
#[verifier::external_body]
fn toml_get_tbl_str(text: &str, table: &str, key: &str) -> (r: Option<String>)
    ensures
        opt_str_view(r) == toml_tbl_str(text@, table@, key@),
        !toml_doc_valid(text@) ==> r is None,
{
    let doc: toml::Table = match text.parse() {
        Ok(t) => t,
        Err(_) => return None,
    };
    let tbl = doc.get(table)?.as_table()?;
    tbl.get(key).and_then(|v| v.as_str()).map(|s| s.to_owned())
}

/// Relies on toml's `Table::from_str`, `Table::get`, `Value::as_table` and
/// `Value::as_integer`: the integer under a table's key.
#[verifier::external_body]
fn toml_get_tbl_int(text: &str, table: &str, key: &str) -> (r: Option<i64>)
    ensures
        r == toml_tbl_int(text@, table@, key@),
        !toml_doc_valid(text@) ==> r is None,
{
    let doc: toml::Table = match text.parse() {
        Ok(t) => t,
        Err(_) => return None,
    };
    let tbl = doc.get(table)?.as_table()?;
    tbl.get(key).and_then(|v| v.as_integer())
}

/// Relies on toml's `Table::from_str`, `Table::get`, `Value::as_table`,
/// `Value::as_array` and `Value::as_str`: the strings under a table's array
/// key.
#[verifier::external_body]
fn toml_get_tbl_strs(text: &str, table: &str, key: &str) -> (r: Option<Vec<String>>)
    ensures
        opt_strs_view(r) == toml_tbl_strs(text@, table@, key@),
        !toml_doc_valid(text@) ==> r is None,
{
    let doc: toml::Table = match text.parse() {
        Ok(t) => t,
        Err(_) => return None,
    };
    let arr = doc.get(table)?.as_table()?.get(key)?.as_array()?;
    arr.iter().map(|v| v.as_str().map(|s| s.to_owned())).collect()
}

/// Relies on toml's `Table::from_str`, `Table::get`, `Value::as_table` and
/// `Value::as_float`: the decimal text of the float under a table's key.
#[verifier::external_body]
fn toml_get_tbl_float_text(text: &str, table: &str, key: &str) -> (r: Option<String>)
    ensures
        opt_str_view(r) == toml_tbl_float_text(text@, table@, key@),
        !toml_doc_valid(text@) ==> r is None,
{
    let doc: toml::Table = match text.parse() {
        Ok(t) => t,
        Err(_) => return None,
    };
    let tbl = doc.get(table)?.as_table()?;
    tbl.get(key).and_then(|v| v.as_float()).map(|f| format!("{}", f))
}

/// Whether the signature verifies over the message under the public key.
///
/// Named, never stated: verification depends on key, message and signature
/// alone.
pub uninterp spec fn ed25519_verifies(pk: Seq<u8>, msg: Seq<u8>, sig: Seq<u8>) -> bool;

/// Relies on ed25519-dalek's `VerifyingKey::from_bytes`,
/// `Signature::from_slice` and `Verifier::verify`: whether a 32-byte key
/// accepts a 64-byte signature over the message depends on those three
/// values alone; a key that does not decode accepts nothing.
#[verifier::external_body]
fn ed25519_check(pk: &[u8], msg: &[u8], sig: &[u8]) -> (r: bool)
    requires
        pk@.len() == 32,
        sig@.len() == 64,
    ensures
        r == ed25519_verifies(pk@, msg@, sig@),
{
    let pk_arr: &[u8; 32] = match pk.try_into() {
        Ok(a) => a,
        Err(_) => return false,
    };
    let key = match ed25519_dalek::VerifyingKey::from_bytes(pk_arr) {
        Ok(k) => k,
        Err(_) => return false,
    };
    let signature = match ed25519_dalek::Signature::from_slice(sig) {
        Ok(s) => s,
        Err(_) => return false,
    };
    key.verify(msg, &signature).is_ok()
}

/// A present optional string value, or the empty text.
pub open spec fn str_or_empty(o: Option<Seq<char>>) -> Seq<char> {
    match o {
        Some(s) => s,
        None => Seq::empty(),
    }
}

/// A present optional list of strings, or no strings at all.
pub open spec fn strs_or_empty(o: Option<Seq<Seq<char>>>) -> Seq<Seq<char>> {
    match o {
        Some(v) => v,
        None => Seq::empty(),
    }
}

/// The parse stage succeeds: the document parses, `name` is a string, and
/// both resource limits are present integers.
pub open spec fn manifest_parses(text: Seq<char>) -> bool {
    &&& toml_doc_valid(text)
    &&& toml_top_str(text, "name"@) is Some
    &&& toml_tbl_int(text, "resources"@, "max_llm_tokens_per_hour"@) is Some
    &&& toml_tbl_int(text, "resources"@, "max_concurrent_tools"@) is Some
}

/// The declared memory-read globs of the text.
pub open spec fn parsed_mem_read(text: Seq<char>) -> Seq<Seq<char>> {
    strs_or_empty(toml_tbl_strs(text, "capabilities"@, "memory_read"@))
}

/// The declared memory-write globs of the text.
pub open spec fn parsed_mem_write(text: Seq<char>) -> Seq<Seq<char>> {
    strs_or_empty(toml_tbl_strs(text, "capabilities"@, "memory_write"@))
}

/// The validation stage succeeds: both limits are positive and in range,
/// and every declared glob is well formed.
pub open spec fn manifest_validates(text: Seq<char>) -> bool {
    &&& (toml_tbl_int(text, "resources"@, "max_llm_tokens_per_hour"@) matches Some(v) && 1 <= v)
    &&& (toml_tbl_int(text, "resources"@, "max_concurrent_tools"@) matches Some(w) && 1 <= w
        <= u32::MAX)
    &&& forall|i: int|
        0 <= i < parsed_mem_read(text).len() ==> glob_valid(
            vstd::utf8::encode_utf8(#[trigger] parsed_mem_read(text)[i]),
        )
    &&& forall|i: int|
        0 <= i < parsed_mem_write(text).len() ==> glob_valid(
            vstd::utf8::encode_utf8(#[trigger] parsed_mem_write(text)[i]),
        )
}

/// The signature stage succeeds: the envelope carries a 32-byte key and a
/// 64-byte signature that verifies over the manifest's exact UTF-8 bytes.
pub open spec fn envelope_accepts(env: SignedEnvelope, text: Seq<char>) -> bool {
    &&& env.public_key@.len() == 32
    &&& env.signature@.len() == 64
    &&& ed25519_verifies(env.public_key@, vstd::utf8::encode_utf8(text), env.signature@)
}

proof fn lemma_glob_views(patterns: Seq<String>, parsed: Seq<Seq<char>>)
    requires
        char_views(patterns) == parsed,
    ensures
        (forall|i: int|
            0 <= i < patterns.len() ==> glob_valid(
                vstd::utf8::encode_utf8(#[trigger] patterns[i]@),
            )) <==> (forall|i: int|
            0 <= i < parsed.len() ==> glob_valid(vstd::utf8::encode_utf8(#[trigger] parsed[i]))),
{
    assert(parsed.len() == patterns.len());
    if forall|i: int|
        0 <= i < patterns.len() ==> glob_valid(vstd::utf8::encode_utf8(#[trigger] patterns[i]@)) {
        assert forall|i: int|
            0 <= i < parsed.len() implies glob_valid(
            vstd::utf8::encode_utf8(#[trigger] parsed[i]),
        ) by {
            assert(parsed[i] == char_views(patterns)[i]);
            assert(char_views(patterns)[i] == patterns[i]@);
            assert(glob_valid(vstd::utf8::encode_utf8(patterns[i]@)));
        }
    } else {
        let i = choose|i: int|
            0 <= i < patterns.len() && !glob_valid(
                vstd::utf8::encode_utf8(#[trigger] patterns[i]@),
            );
        assert(parsed[i] == char_views(patterns)[i]);
        assert(!glob_valid(vstd::utf8::encode_utf8(parsed[i])));
    }
}

fn strings_from(o: Option<Vec<String>>) -> (r: Vec<String>)
    ensures
        char_views(r@) == strs_or_empty(opt_strs_view(o)),
{
    match o {
        Some(v) => v,
        None => {
            let r: Vec<String> = Vec::new();
            proof {
                assert(char_views(r@) =~= Seq::<Seq<char>>::empty());
            }
            r
        },
    }
}

fn string_from(o: Option<String>) -> (r: String)
    ensures
        r@ == str_or_empty(opt_str_view(o)),
{
    match o {
        Some(s) => s,
        None => String::new(),
    }
}

/// Parses and validates a manifest, and, when a signed envelope is
/// presented, verifies the signature over the manifest's exact bytes.
///
/// Fails with `ParseError` when the TOML is malformed, `name` is missing or
/// not a string, or a resource limit is missing; with `ValidationError`
/// when a limit is zero, negative or out of range, or a capability glob is
/// not well formed; and with `SignatureInvalid` when an envelope is present
/// whose key or signature has the wrong size or does not verify. A missing
/// optional field falls back to its default; pure validation, no state is
/// touched.
pub fn verify(manifest_toml: &str, envelope: Option<&SignedEnvelope>) -> (r: Result<
    AgentManifest,
    ManifestError,
>)
    ensures
        r is Ok <==> manifest_parses(manifest_toml@) && manifest_validates(manifest_toml@) && (
        envelope matches Some(env) ==> envelope_accepts(*env, manifest_toml@)),
        r == Err::<AgentManifest, ManifestError>(ManifestError::ParseError) <==> !manifest_parses(
            manifest_toml@,
        ),
        r == Err::<AgentManifest, ManifestError>(ManifestError::ValidationError) <==> manifest_parses(
            manifest_toml@,
        ) && !manifest_validates(manifest_toml@),
        r == Err::<AgentManifest, ManifestError>(ManifestError::SignatureInvalid) <==> manifest_parses(
            manifest_toml@,
        ) && manifest_validates(manifest_toml@) && (envelope matches Some(env)
            && !envelope_accepts(*env, manifest_toml@)),
        r matches Ok(m) ==> {
            &&& m.name@ == str_or_empty(toml_top_str(manifest_toml@, "name"@))
            &&& m.version@ == str_or_empty(toml_top_str(manifest_toml@, "version"@))
            &&& m.description@ == str_or_empty(toml_top_str(manifest_toml@, "description"@))
            &&& m.author@ == str_or_empty(toml_top_str(manifest_toml@, "author"@))
            &&& m.module@ == str_or_empty(toml_top_str(manifest_toml@, "module"@))
            &&& char_views(m.tags@) == strs_or_empty(toml_top_strs(manifest_toml@, "tags"@))
            &&& char_views(m.skills@) == strs_or_empty(toml_top_strs(manifest_toml@, "skills"@))
            &&& char_views(m.mcp_servers@) == strs_or_empty(
                toml_top_strs(manifest_toml@, "mcp_servers"@),
            )
            &&& m.model.provider@ == str_or_empty(
                toml_tbl_str(manifest_toml@, "model"@, "provider"@),
            )
            &&& m.model.model@ == str_or_empty(toml_tbl_str(manifest_toml@, "model"@, "model"@))
            &&& m.model.system_prompt@ == str_or_empty(
                toml_tbl_str(manifest_toml@, "model"@, "system_prompt"@),
            )
            &&& opt_str_view(m.model.temperature) == toml_tbl_float_text(
                manifest_toml@,
                "model"@,
                "temperature"@,
            )
            &&& (match toml_tbl_int(manifest_toml@, "model"@, "max_tokens"@) {
                Some(v) => m.model.max_tokens == if 0 <= v {
                    v
                } else {
                    0
                },
                None => m.model.max_tokens == 0,
            })
            &&& toml_tbl_int(manifest_toml@, "resources"@, "max_llm_tokens_per_hour"@) matches Some(
                v,
            ) && m.resources.max_llm_tokens_per_hour == v
            &&& toml_tbl_int(manifest_toml@, "resources"@, "max_concurrent_tools"@) matches Some(w)
                && m.resources.max_concurrent_tools == w
            &&& char_views(m.capabilities.tools@) == strs_or_empty(
                toml_tbl_strs(manifest_toml@, "capabilities"@, "tools"@),
            )
            &&& char_views(m.capabilities.memory_read@) == parsed_mem_read(manifest_toml@)
            &&& char_views(m.capabilities.memory_write@) == parsed_mem_write(manifest_toml@)
            &&& manifest_valid(m)
        },
{
    if !toml_parses(manifest_toml) {
        return Err(ManifestError::ParseError);
    }
    let name = match toml_get_top_str(manifest_toml, "name") {
        Some(s) => s,
        None => {
            return Err(ManifestError::ParseError);
        },
    };
    let tokens_limit = match toml_get_tbl_int(manifest_toml, "resources", "max_llm_tokens_per_hour") {
        Some(v) => v,
        None => {
            return Err(ManifestError::ParseError);
        },
    };
    let tools_limit = match toml_get_tbl_int(manifest_toml, "resources", "max_concurrent_tools") {
        Some(v) => v,
        None => {
            return Err(ManifestError::ParseError);
        },
    };
    if tokens_limit < 1 || tools_limit < 1 || tools_limit > u32::MAX as i64 {
        return Err(ManifestError::ValidationError);
    }
    let memory_read = strings_from(
        toml_get_tbl_strs(manifest_toml, "capabilities", "memory_read"),
    );
    let memory_write = strings_from(
        toml_get_tbl_strs(manifest_toml, "capabilities", "memory_write"),
    );
    proof {
        lemma_glob_views(memory_read@, parsed_mem_read(manifest_toml@));
        lemma_glob_views(memory_write@, parsed_mem_write(manifest_toml@));
    }
    if !globs_list_valid(&memory_read) || !globs_list_valid(&memory_write) {
        return Err(ManifestError::ValidationError);
    }
    match envelope {
        Some(env) => {
            if env.public_key.len() != 32 || env.signature.len() != 64 {
                return Err(ManifestError::SignatureInvalid);
            }
            let text_bytes = manifest_toml.as_bytes();
            if !ed25519_check(env.public_key.as_slice(), text_bytes, env.signature.as_slice()) {
                return Err(ManifestError::SignatureInvalid);
            }
        },
        None => {},
    }
    let max_tokens_raw = toml_get_tbl_int(manifest_toml, "model", "max_tokens");
    let max_tokens: u64 = match max_tokens_raw {
        Some(v) => if v >= 0 {
            v as u64
        } else {
            0
        },
        None => 0,
    };
    let m = AgentManifest {
        name,
        version: string_from(toml_get_top_str(manifest_toml, "version")),
        description: string_from(toml_get_top_str(manifest_toml, "description")),
        author: string_from(toml_get_top_str(manifest_toml, "author")),
        module: string_from(toml_get_top_str(manifest_toml, "module")),
        tags: strings_from(toml_get_top_strs(manifest_toml, "tags")),
        skills: strings_from(toml_get_top_strs(manifest_toml, "skills")),
        mcp_servers: strings_from(toml_get_top_strs(manifest_toml, "mcp_servers")),
        model: ModelConfig {
            provider: string_from(toml_get_tbl_str(manifest_toml, "model", "provider")),
            model: string_from(toml_get_tbl_str(manifest_toml, "model", "model")),
            max_tokens,
            temperature: toml_get_tbl_float_text(manifest_toml, "model", "temperature"),
            system_prompt: string_from(toml_get_tbl_str(manifest_toml, "model", "system_prompt")),
        },
        resources: ResourceLimits {
            max_llm_tokens_per_hour: tokens_limit as u64,
            max_concurrent_tools: tools_limit as u32,
        },
        capabilities: CapabilitySet {
            tools: strings_from(toml_get_tbl_strs(manifest_toml, "capabilities", "tools")),
            memory_read,
            memory_write,
        },
    };
    Ok(m)
}

} // verus!
