use vstd::prelude::*;

verus! {

/// What `serde_json` finds in the JSON text `json` under the key `key`, when
/// the text parses and the value there is a string; `None` otherwise.
pub uninterp spec fn json_string_field(json: Seq<char>, key: Seq<char>) -> Option<Seq<char>>;

/// Calls `serde_json::from_str` on the JSON text (a text that does not parse
/// counts as `null`), indexes the value with `key` and takes it with
/// `Value::as_str`. The contract names that result; it is a function of the
/// text and the key alone.
#[verifier::external_body]
fn read_string_field(json: &str, key: &str) -> (r: Option<String>)
    ensures
        match r {
            Some(v) => json_string_field(json@, key@) == Some(v@),
            None => json_string_field(json@, key@) is None,
        },
{
    let value: serde_json::Value = serde_json::from_str(json).unwrap_or(serde_json::Value::Null);
    match value[key].as_str() {
        Some(s) => Some(s.to_string()),
        None => None,
    }
}

/// The arguments of a tool call, as the JSON text the model sent.
pub struct ToolArgs {
    pub json: String,
}

impl ToolArgs {
    /// Arguments held as the JSON text `json`.
    pub fn new(json: String) -> (r: Self)
        ensures
            r.json@ == json@,
    {
        ToolArgs { json }
    }

    /// The string-valued argument `key`, if there is one.
    pub open spec fn field(&self, key: Seq<char>) -> Option<Seq<char>> {
        json_string_field(self.json@, key)
    }

    /// The string-valued argument `key`, if there is one.
    pub fn get_str(&self, key: &str) -> (r: Option<String>)
        ensures
            match r {
                Some(v) => self.field(key@) == Some(v@),
                None => self.field(key@) is None,
            },
    {
        read_string_field(self.json.as_str(), key)
    }

    /// The string-valued argument `key`, or the error that a tool reports when
    /// it is missing: "Missing '<key>' argument".
    pub fn require_str(&self, key: &str) -> (r: Result<String, String>)
        ensures
            match r {
                Ok(v) => self.field(key@) == Some(v@),
                Err(e) => self.field(key@) is None && e@ == missing_argument_message(key@),
            },
    {
        match self.get_str(key) {
            Some(v) => Ok(v),
            None => {
                let mut e = String::new();
                e.append("Missing '");
                e.append(key);
                e.append("' argument");
                Err(e)
            },
        }
    }

    /// The string-valued argument `key`, or "." when it is missing.
    pub fn str_or_current_dir(&self, key: &str) -> (r: String)
        ensures
            r@ == match self.field(key@) {
                Some(v) => v,
                None => "."@,
            },
    {
        match self.get_str(key) {
            Some(v) => v,
            None => ".".to_owned(),
        }
    }
}

/// The error that a tool reports when a required argument is missing.
pub open spec fn missing_argument_message(key: Seq<char>) -> Seq<char> {
    "Missing '"@ + key + "' argument"@
}

} // verus!
