use vstd::prelude::*;

use crate::text::{byte_len, decimal, format_decimal};
use crate::tools::args::{missing_argument_message, ToolArgs};

verus! {

/// The tool that writes a whole file.
pub struct WriteFileTool;

impl WriteFileTool {
    /// The tool's name.
    pub fn name(&self) -> (r: &'static str)
        ensures
            r@ == "write_file"@,
    {
        "write_file"
    }

    /// The tool's description for the model.
    pub fn description(&self) -> (r: &'static str)
        ensures
            r@ == "Write content to a file. Creates the file if it does not exist, or overwrites if it does."@,
    {
        "Write content to a file. Creates the file if it does not exist, or overwrites if it does."
    }
}

/// The two arguments of a write.
pub struct WriteRequest {
    pub path: String,
    pub content: String,
}

/// Reads the arguments `path` and `content`, in that order, failing on the first one missing.
pub fn write_request(args: &ToolArgs) -> (r: Result<WriteRequest, String>)
    ensures
        match r {
            Ok(req) => args.field("path"@) == Some(req.path@) && args.field("content"@) == Some(req.content@),
            Err(e) => {
                ||| args.field("path"@) is None && e@ == missing_argument_message("path"@)
                ||| args.field("path"@) is Some && args.field("content"@) is None
                    && e@ == missing_argument_message("content"@)
            },
        },
{
    let path = args.require_str("path")?;
    let content = args.require_str("content")?;
    Ok(WriteRequest { path, content })
}

/// The report of a write of `content` to `path`: the size counts bytes of UTF-8.
pub fn write_summary(content: &str, path: &str) -> (r: String)
    ensures
        r@ == "Wrote "@ + decimal(byte_len(content@)) + " bytes to "@ + path@,
{
    let n = content.as_bytes().len();
    let mut r = String::new();
    r.append("Wrote ");
    let digits = format_decimal(n as u128);
    r.append(digits.as_str());
    r.append(" bytes to ");
    r.append(path);
    r
}

} // verus!
