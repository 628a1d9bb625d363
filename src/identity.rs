//! Deploy manifests: rewriting the `name` field that gives a web-facing
//! project its deploy identity, in TOML, JSON or JSONC.
//!
//! TOML and JSON are parsed, changed and printed again, which may normalise
//! key order and layout. JSONC is edited as text so that its comments
//! survive: the first `"name": "..."` field is replaced and nothing else.
//! Where `"name"` occurs earlier, in a comment or a nested object, that
//! occurrence is the one rewritten.
use vstd::prelude::*;
use vstd::string::StringSliceAdditionalSpecFns;
use vstd::utf8::encode_utf8;
use crate::formats::{
    compile_regex, find_first, json_entry, json_is_object, json_parse, json_render,
    json_set_string, json_str, parse_json, parse_toml, regex_compiles, regex_first_match,
    render_json, render_toml, toml_entry, toml_is_table, toml_parse, toml_render, toml_set_string,
    toml_str, toml_with_string,
};

verus! {

/// The format of a deploy manifest.
#[derive(Debug, Clone, Copy, PartialEq, Eq, Structural)]
pub enum DeployFormat {
    Toml,
    Json,
    Jsonc,
}

impl DeployFormat {
    /// The file that holds a deploy manifest of this format.
    pub fn file_name(&self) -> (r: &'static str)
        ensures
            r@ == deploy_file_name(*self),
    {
        match self {
            DeployFormat::Toml => "wrangler.toml",
            DeployFormat::Json => "wrangler.json",
            DeployFormat::Jsonc => "wrangler.jsonc",
        }
    }
}

pub open spec fn deploy_file_name(f: DeployFormat) -> Seq<char> {
    match f {
        DeployFormat::Toml => "wrangler.toml"@,
        DeployFormat::Json => "wrangler.json"@,
        DeployFormat::Jsonc => "wrangler.jsonc"@,
    }
}

/// Why a deploy manifest's identity could not be rewritten.
#[derive(Debug, Clone, PartialEq, Eq)]
pub enum IdentityError {
    /// The project has none of the three deploy manifest files.
    UnsupportedManifestFormat,
    /// The manifest is no valid TOML or JSON.
    Parse(String),
    /// The changed manifest could not be printed.
    Render(String),
    /// The pattern of the name field did not compile.
    Pattern(String),
}

/// The format of a project's deploy manifest, from the files it has, checked
/// in the order TOML, JSON, JSONC.
pub fn select_deploy_format(has_toml: bool, has_json: bool, has_jsonc: bool) -> (r: Result<
    DeployFormat,
    IdentityError,
>)
    ensures
        r == (if has_toml {
            Ok(DeployFormat::Toml)
        } else if has_json {
            Ok(DeployFormat::Json)
        } else if has_jsonc {
            Ok(DeployFormat::Jsonc)
        } else {
            Err(IdentityError::UnsupportedManifestFormat)
        }),
{
    if has_toml {
        Ok(DeployFormat::Toml)
    } else if has_json {
        Ok(DeployFormat::Json)
    } else if has_jsonc {
        Ok(DeployFormat::Jsonc)
    } else {
        Err(IdentityError::UnsupportedManifestFormat)
    }
}

/// A `"name"` key, a colon and a string value, with any white space around
/// the colon.
pub const NAME_FIELD_PATTERN: &'static str = "\"name\"\\s*:\\s*\"[^\"]*\"";

/// The field that replaces the first match: `"name": "<new_name>"`.
pub open spec fn name_field(new_name: Seq<char>) -> Seq<char> {
    "\"name\": \""@ + new_name + "\""@
}

/// `text` with the bytes from `s` to `e` replaced by `piece`; `text` itself
/// where the range does not lie inside it.
pub open spec fn spliced(text: Seq<u8>, s: int, e: int, piece: Seq<u8>) -> Seq<u8> {
    if 0 <= s <= e <= text.len() {
        text.subrange(0, s) + piece + text.subrange(e, text.len() as int)
    } else {
        text
    }
}

/// The bytes of a JSONC manifest after its first name field is replaced; the
/// text unchanged where it has none.
pub open spec fn jsonc_renamed(text: Seq<char>, new_name: Seq<char>) -> Seq<u8> {
    match regex_first_match(NAME_FIELD_PATTERN@, text) {
        Some((s, e)) => spliced(encode_utf8(text), s, e, encode_utf8(name_field(new_name))),
        None => encode_utf8(text),
    }
}

/// The bytes of `a` followed by those of `b[from..to]`.
fn push_range(out: &mut Vec<u8>, b: &Vec<u8>, from: usize, to: usize)
    requires
        from <= to <= b.len(),
    ensures
        final(out)@ == old(out)@ + b@.subrange(from as int, to as int),
{
    let mut k = from;
    while k < to
        invariant
            from <= k <= to <= b.len(),
            out@ == old(out)@ + b@.subrange(from as int, k as int),
        decreases to - k,
    {
        out.push(b[k]);
        assert(b@.subrange(from as int, k + 1) == b@.subrange(from as int, k as int).push(b@[k as int]));
        k = k + 1;
    }
}

/// Replaces the first name field of a JSONC manifest by `"name": "<new_name>"`
/// and keeps every other byte, comments included.
pub fn rename_jsonc(content: &str, new_name: &str) -> (r: Result<Vec<u8>, IdentityError>)
    ensures
        r is Ok,
        r matches Ok(bytes) ==> bytes@ == jsonc_renamed(content@, new_name@),
        r matches Err(e) ==> e is Pattern,
{
    let re = match compile_regex(NAME_FIELD_PATTERN) {
        Ok(re) => re,
        Err(message) => return Err(IdentityError::Pattern(message)),
    };
    let bytes = content.as_bytes_vec();
    match find_first(&re, content) {
        None => Ok(bytes),
        Some((s, e)) => {
            let mut field = String::from_str("\"name\": \"");
            field.append(new_name);
            field.append("\"");
            let piece = field.as_str().as_bytes_vec();
            let mut out: Vec<u8> = Vec::new();
            push_range(&mut out, &bytes, 0, s);
            push_range(&mut out, &piece, 0, piece.len());
            push_range(&mut out, &bytes, e, bytes.len());
            assert(piece@.subrange(0, piece@.len() as int) == piece@);
            Ok(out)
        },
    }
}

/// The key of a deploy manifest that holds the project's identity.
pub const NAME_KEY: &'static str = "name";

/// `after` is the TOML value `before` with its `name` set to `new_name`: a
/// table gets the string under `name` and keeps every other key; any other
/// value stays as it is.
pub open spec fn toml_name_set(before: toml::Value, after: toml::Value, new_name: Seq<char>) -> bool {
    &&& toml_is_table(after) == toml_is_table(before)
    &&& toml_is_table(before) ==> toml_entry(after, NAME_KEY@) is Some && toml_str(
        toml_entry(after, NAME_KEY@)->0,
    ) == Some(new_name)
    &&& forall|k: Seq<char>|
        toml_is_table(before) && k != NAME_KEY@ ==> toml_entry(after, k) == toml_entry(before, k)
    &&& !toml_is_table(before) ==> after == before
}

/// `after` is the JSON value `before` with its `name` set to `new_name`: an
/// object gets the string under `name` and keeps every other member; any
/// other value stays as it is.
pub open spec fn json_name_set(before: serde_json::Value, after: serde_json::Value, new_name: Seq<char>) -> bool {
    &&& json_is_object(after) == json_is_object(before)
    &&& json_is_object(before) ==> json_entry(after, NAME_KEY@) is Some && json_str(
        json_entry(after, NAME_KEY@)->0,
    ) == Some(new_name)
    &&& forall|k: Seq<char>|
        json_is_object(before) && k != NAME_KEY@ ==> json_entry(after, k) == json_entry(before, k)
    &&& !json_is_object(before) ==> after == before
}

/// `out` is the text of a TOML manifest renamed: the parsed document with its
/// name set, printed again.
pub open spec fn toml_renamed(text: Seq<char>, new_name: Seq<char>, out: Seq<char>) -> bool {
    exists|v: toml::Value, w: toml::Value|
        toml_parse(text) == Some(v) && #[trigger] toml_name_set(v, w, new_name) && toml_render(w)
            == Some(out)
}

/// `out` is the text of a JSON manifest renamed: the parsed document with its
/// name set, printed again with indentation.
pub open spec fn json_renamed(text: Seq<char>, new_name: Seq<char>, out: Seq<char>) -> bool {
    exists|v: serde_json::Value, w: serde_json::Value|
        json_parse(text) == Some(v) && #[trigger] json_name_set(v, w, new_name) && json_render(w)
            == Some(out)
}

/// Sets the top-level `name` of a TOML manifest. Text that is no TOML is a
/// parse error; a document that parses gets its name set, and fails only
/// where printing the renamed document fails.
pub fn rename_toml(content: &str, new_name: &str) -> (r: Result<Vec<u8>, IdentityError>)
    ensures
        toml_parse(content@) is None <==> r matches Err(IdentityError::Parse(_)),
        toml_parse(content@) matches Some(v) ==> (r is Ok <==> toml_render(
            toml_with_string(v, NAME_KEY@, new_name@),
        ) is Some),
        r matches Ok(bytes) ==> exists|out: Seq<char>|
            #[trigger] toml_renamed(content@, new_name@, out) && bytes@ == encode_utf8(out),
        r matches Err(e) ==> e is Parse || e is Render,
{
    let doc = match parse_toml(content) {
        Ok(doc) => doc,
        Err(message) => return Err(IdentityError::Parse(message)),
    };
    let named = toml_set_string(doc, NAME_KEY, new_name);
    match render_toml(&named) {
        Ok(text) => {
            assert(toml_name_set(doc, named, new_name@));
            assert(toml_renamed(content@, new_name@, text@));
            Ok(text.as_str().as_bytes_vec())
        },
        Err(message) => Err(IdentityError::Render(message)),
    }
}

/// Sets the top-level `name` of a JSON manifest, printed with indentation.
/// Text that is no JSON is a parse error; any document that parses succeeds,
/// with its name set where it is an object.
pub fn rename_json(content: &str, new_name: &str) -> (r: Result<Vec<u8>, IdentityError>)
    ensures
        json_parse(content@) is None <==> r matches Err(IdentityError::Parse(_)),
        json_parse(content@) is Some ==> r is Ok,
        r matches Ok(bytes) ==> exists|out: Seq<char>|
            #[trigger] json_renamed(content@, new_name@, out) && bytes@ == encode_utf8(out),
        r matches Err(e) ==> e is Parse,
{
    let doc = match parse_json(content) {
        Ok(doc) => doc,
        Err(message) => return Err(IdentityError::Parse(message)),
    };
    let named = json_set_string(doc, NAME_KEY, new_name);
    match render_json(&named) {
        Ok(text) => {
            assert(json_name_set(doc, named, new_name@));
            assert(json_renamed(content@, new_name@, text@));
            Ok(text.as_str().as_bytes_vec())
        },
        Err(message) => Err(IdentityError::Render(message)),
    }
}

/// `bytes` are a deploy manifest of the given format with its identity set to
/// `new_name`.
pub open spec fn identity_rewritten(format: DeployFormat, text: Seq<char>, new_name: Seq<char>, bytes: Seq<
    u8,
>) -> bool {
    match format {
        DeployFormat::Toml => exists|out: Seq<char>|
            #[trigger] toml_renamed(text, new_name, out) && bytes == encode_utf8(out),
        DeployFormat::Json => exists|out: Seq<char>|
            #[trigger] json_renamed(text, new_name, out) && bytes == encode_utf8(out),
        DeployFormat::Jsonc => bytes == jsonc_renamed(text, new_name),
    }
}

/// The manifest text is no document of its format.
pub open spec fn identity_unparsable(format: DeployFormat, text: Seq<char>) -> bool {
    match format {
        DeployFormat::Toml => toml_parse(text) is None,
        DeployFormat::Json => json_parse(text) is None,
        DeployFormat::Jsonc => false,
    }
}

/// The errors a rewrite of the given manifest can end in: a parse error
/// exactly where the text does not parse, a print error only for TOML that
/// parses.
pub open spec fn identity_error_fits(format: DeployFormat, text: Seq<char>, e: IdentityError) -> bool {
    match e {
        IdentityError::Parse(_) => identity_unparsable(format, text),
        IdentityError::Render(_) => format == DeployFormat::Toml && !identity_unparsable(format, text),
        _ => false,
    }
}

/// The rewrite succeeds: JSONC always, JSON whenever it parses, TOML whenever
/// it parses and the renamed document prints.
pub open spec fn identity_succeeds(format: DeployFormat, text: Seq<char>, new_name: Seq<char>) -> bool {
    match format {
        DeployFormat::Toml => match toml_parse(text) {
            Some(v) => toml_render(toml_with_string(v, NAME_KEY@, new_name)) is Some,
            None => false,
        },
        DeployFormat::Json => json_parse(text) is Some,
        DeployFormat::Jsonc => true,
    }
}

/// Rewrites the identity of a deploy manifest of the given format to
/// `new_name`, returning the manifest's new bytes. JSONC always succeeds,
/// JSON whenever it parses, TOML whenever it parses and the renamed document
/// prints; a parse error comes exactly where the text does not parse.
pub fn update_identity(format: DeployFormat, content: &str, new_name: &str) -> (r: Result<
    Vec<u8>,
    IdentityError,
>)
    ensures
        r is Ok <==> identity_succeeds(format, content@, new_name@),
        r matches Ok(bytes) ==> identity_rewritten(format, content@, new_name@, bytes@),
        r matches Err(e) ==> identity_error_fits(format, content@, e),
{
    match format {
        DeployFormat::Toml => rename_toml(content, new_name),
        DeployFormat::Json => rename_json(content, new_name),
        DeployFormat::Jsonc => rename_jsonc(content, new_name),
    }
}

/// Renaming a JSONC manifest keeps every run of bytes that lies wholly before
/// or wholly after the replaced name field, comments included: the same bytes
/// appear in the result, those after the field shifted by the change in its
/// length.
pub proof fn lemma_jsonc_rename_keeps_outside(text: Seq<char>, new_name: Seq<char>, i: int, j: int)
    requires
        0 <= i <= j <= encode_utf8(text).len(),
        match regex_first_match(NAME_FIELD_PATTERN@, text) {
            Some((s, e)) => j <= s || e <= i,
            None => true,
        },
    ensures
        exists|k: int|
            0 <= k && k + (j - i) <= jsonc_renamed(text, new_name).len() && #[trigger] jsonc_renamed(
                text,
                new_name,
            ).subrange(k, k + (j - i)) == encode_utf8(text).subrange(i, j),
{
    let b = encode_utf8(text);
    let r = jsonc_renamed(text, new_name);
    let mut k: int = i;
    match regex_first_match(NAME_FIELD_PATTERN@, text) {
        Some((s, e)) => {
            let piece = encode_utf8(name_field(new_name));
            if 0 <= s <= e <= b.len() {
                let pre = b.subrange(0, s);
                let post = b.subrange(e, b.len() as int);
                assert(r == pre + piece + post);
                if j > s {
                    k = i - e + s + piece.len();
                }
            }
        },
        None => {},
    }
    assert(r.subrange(k, k + (j - i)) =~= b.subrange(i, j));
    assert(jsonc_renamed(text, new_name).subrange(k, k + (j - i)) == encode_utf8(text).subrange(i, j));
}

} // verus!
