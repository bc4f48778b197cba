//! The name and id of a game, from the `lora.json` manifest at the top of
//! its folder. The manifest is JSON checked against `MANIFEST_SCHEMA`; the
//! game's name and id are the string values of its `name` and `id` fields.
//! A folder without a manifest gives the game a default name and id.
use vstd::prelude::*;
use vstd::string::StringExecFns;

verus! {

/// The JSON schema that a manifest must meet: an object whose `name` and
/// `id` are strings.
pub const MANIFEST_SCHEMA: &'static str = r#"{
    "type": "object",
    "properties": {
        "name": { "type": "string" },
        "id": { "type": "string" }
    },
    "required": ["name", "id"]
}"#;

/// Why a manifest gives no name and id.
#[derive(Debug, PartialEq, Eq)]
pub enum ManifestError {
    /// The manifest, or the schema, is not JSON.
    NotJson,
    /// The schema is not one that can be compiled.
    BadSchema,
    /// The manifest does not meet the schema: the first violation found,
    /// in the words of the schema validator.
    Invalid(String),
    /// The manifest meets the schema but its `name` or `id` is not a string.
    NotText,
}

/// Whether `serde_json::from_str` reads `text` as a JSON value.
pub uninterp spec fn json_text(text: Seq<char>) -> bool;

/// Whether `jsonschema::Validator::new` compiles the JSON value that
/// `schema` reads as.
pub uninterp spec fn schema_compiles(schema: Seq<char>) -> bool;

/// Whether `Validator::validate`, with the validator compiled from
/// `schema`, accepts the JSON value that `text` reads as.
pub uninterp spec fn schema_accepts(text: Seq<char>, schema: Seq<char>) -> bool;

/// The string at the key `key` of the JSON value that `text` reads as, as
/// `Value`'s indexing by a key and `Value::as_str` give it: `None` where
/// `text` is not JSON, is not an object, has no such key, or has
/// something other than a string there.
pub uninterp spec fn json_string_field(text: Seq<char>, key: Seq<char>) -> Option<Seq<char>>;

/// Whether the manifest `text` meets `schema`: both are JSON, the schema
/// compiles, and the validator accepts the manifest.
pub open spec fn manifest_meets(text: Seq<char>, schema: Seq<char>) -> bool {
    json_text(text) && json_text(schema) && schema_compiles(schema) && schema_accepts(text, schema)
}

/// Checks the manifest `text` against `schema`: parses both with
/// `serde_json::from_str`, compiles the schema with
/// `jsonschema::Validator::new` and checks the manifest with
/// `Validator::validate`, keeping the first violation's message. The
/// contract says which error comes back on which inputs, over the names
/// of those calls; the message itself is not stated.
#[verifier::external_body]
fn validate_manifest(text: &str, schema: &str) -> (r: Result<(), ManifestError>)
    ensures
        r is Ok <==> manifest_meets(text@, schema@),
        (r matches Err(ManifestError::NotJson)) <==> !(json_text(text@) && json_text(schema@)),
        (r matches Err(ManifestError::BadSchema)) <==> (json_text(text@) && json_text(schema@) && !schema_compiles(schema@)),
        (r matches Err(ManifestError::Invalid(_))) <==> (json_text(text@) && json_text(schema@) && schema_compiles(schema@) && !schema_accepts(text@, schema@)),
        r matches Err(e) ==> !(e is NotText),
{
    let parsed = serde_json::from_str::<serde_json::Value>(text);
    let rules = serde_json::from_str::<serde_json::Value>(schema);
    let (Ok(manifest), Ok(rules)) = (parsed, rules) else { return Err(ManifestError::NotJson) };
    let Ok(validator) = jsonschema::Validator::new(&rules) else { return Err(ManifestError::BadSchema) };
    match validator.validate(&manifest) {
        Ok(()) => Ok(()),
        Err(e) => Err(ManifestError::Invalid(e.to_string())),
    }
}

/// The string at the key `key` of the JSON `text`: parses it with
/// `serde_json::from_str`, indexes the value by the key and takes it with
/// `Value::as_str`.
#[verifier::external_body]
fn string_field_of(text: &str, key: &str) -> (r: Option<String>)
    ensures
        match r {
            Some(s) => json_string_field(text@, key@) == Some(s@),
            None => json_string_field(text@, key@) is None,
        },
{
    let Ok(value) = serde_json::from_str::<serde_json::Value>(text) else { return None };
    match value[key].as_str() {
        Some(s) => Some(s.to_string()),
        None => None,
    }
}

/// The name and id that the manifest `text` gives, where it is valid: the
/// strings of its `name` and `id` fields.
pub open spec fn manifest_identity(text: Seq<char>) -> Option<(Seq<char>, Seq<char>)> {
    if manifest_meets(text, MANIFEST_SCHEMA@) {
        match (json_string_field(text, "name"@), json_string_field(text, "id"@)) {
            (Some(name), Some(id)) => Some((name, id)),
            _ => None,
        }
    } else {
        None
    }
}

/// Whether `e` is the error that reading the manifest `text` gives: the
/// manifest or the schema is not JSON; the schema does not compile; the
/// manifest breaks the schema; or it meets it but its `name` or `id` is not
/// a string.
pub open spec fn manifest_refusal(text: Seq<char>, e: ManifestError) -> bool {
    let schema = MANIFEST_SCHEMA@;
    match e {
        ManifestError::NotJson => !(json_text(text) && json_text(schema)),
        ManifestError::BadSchema => json_text(text) && json_text(schema) && !schema_compiles(schema),
        ManifestError::Invalid(_) => json_text(text) && json_text(schema) && schema_compiles(schema)
            && !schema_accepts(text, schema),
        ManifestError::NotText => manifest_meets(text, schema) && (json_string_field(text, "name"@)
            is None || json_string_field(text, "id"@) is None),
    }
}

/// Reads a manifest: the strings of its `name` and `id` fields, where it
/// is JSON that meets `MANIFEST_SCHEMA`; otherwise the error for why not.
pub fn read_manifest(text: &str) -> (r: Result<(String, String), ManifestError>)
    ensures
        match manifest_identity(text@) {
            Some((name, id)) => r matches Ok((n, i)) && n@ == name && i@ == id,
            None => r matches Err(e) && manifest_refusal(text@, e),
        },
        r matches Ok((n, i)) ==> json_string_field(text@, "name"@) == Some(n@)
            && json_string_field(text@, "id"@) == Some(i@),
{
    match validate_manifest(text, MANIFEST_SCHEMA) {
        Err(e) => Err(e),
        Ok(()) => {
            let name = string_field_of(text, "name");
            let id = string_field_of(text, "id");
            proof {
                reveal_strlit("name");
                reveal_strlit("id");
            }
            match (name, id) {
                (Some(name), Some(id)) => Ok((name, id)),
                _ => Err(ManifestError::NotText),
            }
        },
    }
}

/// Law: a manifest that meets the schema and whose `name` and `id` fields
/// are strings gives those two strings whole, as the game's name and id,
/// whatever their length; and any name and id a manifest gives are the
/// strings of those fields.
pub proof fn law_manifest_gives_field_strings(text: Seq<char>)
    ensures
        manifest_meets(text, MANIFEST_SCHEMA@) && json_string_field(text, "name"@) is Some
            && json_string_field(text, "id"@) is Some ==> manifest_identity(text) == Some(
            (json_string_field(text, "name"@)->0, json_string_field(text, "id"@)->0),
        ),
        manifest_identity(text) matches Some((name, id)) ==> json_string_field(text, "name"@)
            == Some(name) && json_string_field(text, "id"@) == Some(id),
{
}

/// The name of a game whose folder has no manifest.
pub open spec fn default_name() -> Seq<char> {
    "Lora App"@
}

/// The id of a game whose folder has no manifest.
pub open spec fn default_id() -> Seq<char> {
    "red.ched.lora"@
}

/// The name and id of a game, given those its manifest gave, if it has one.
pub open spec fn identity_of(manifest: Option<(Seq<char>, Seq<char>)>) -> (Seq<char>, Seq<char>) {
    match manifest {
        Some(found) => found,
        None => (default_name(), default_id()),
    }
}

/// The name and id of a game, given those its manifest gave, if it has
/// one: those, or the defaults.
pub fn game_identity(manifest: Option<(String, String)>) -> (identity: (String, String))
    ensures
        (identity.0@, identity.1@) == identity_of(
            match manifest {
                Some((name, id)) => Some((name@, id@)),
                None => None,
            },
        ),
{
    match manifest {
        Some(found) => found,
        None => (String::from_str("Lora App"), String::from_str("red.ched.lora")),
    }
}

} // verus!
