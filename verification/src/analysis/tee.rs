//! Saving command output to files for debugging and replay: settings and
//! the file names and contents.

use vstd::prelude::*;
use crate::text::{chars_of, push_char};

verus! {

/// Tee settings.
#[derive(Debug, Clone)]
pub struct TeeConfig {
    /// Directory of the tee files (`analyzer-tee` in the working directory
    /// when unset).
    pub output_dir: Option<String>,
    /// Maximum number of files kept (0 is unlimited).
    pub max_files: usize,
    pub enabled: bool,
}

impl Default for TeeConfig {
    fn default() -> (r: TeeConfig)
        ensures
            r.output_dir is None,
            r.max_files == 50,
            !r.enabled,
    {
        TeeConfig { output_dir: None, max_files: 50, enabled: false }
    }
}

/// A saved tee file.
#[derive(Debug, Clone)]
pub struct TeeFile {
    pub path: String,
    /// Size in bytes.
    pub size: usize,
    /// The command or context it was saved for.
    pub label: String,
}

/// A label made safe for a file name: `/`, `\`, space, `:`, `.` and NUL
/// become `_`.
pub open spec fn safe_label(label: Seq<char>) -> Seq<char> {
    label.map_values(|c: char| if c == '/' || c == '\\' || c == ' ' || c == ':' || c == '.' || c == '\0' { '_' } else { c })
}

/// The label made safe for a file name.
pub fn make_safe_label(label: &str) -> (r: String)
    ensures
        r@ == safe_label(label@),
{
    let v = chars_of(label);
    let mut out = String::new();
    let mut i: usize = 0;
    while i < v.len()
        invariant
            i <= v@.len(),
            v@ == label@,
            out@ == safe_label(v@.take(i as int)),
        decreases v@.len() - i,
    {
        let c = v[i];
        let k = if c == '/' || c == '\\' || c == ' ' || c == ':' || c == '.' || c == '\0' { '_' } else { c };
        push_char(&mut out, k);
        assert(safe_label(v@.take(i + 1)) =~= safe_label(v@.take(i as int)).push(k));
        i += 1;
    }
    assert(v@.take(v@.len() as int) =~= v@);
    out
}

/// The file name for a label saved at `timestamp`: `<timestamp>_<label>.txt`.
pub fn tee_file_name(timestamp: &str, label: &str) -> (r: String)
    ensures
        r@ == timestamp@ + "_"@ + safe_label(label@) + ".txt"@,
{
    let mut s = String::from_str(timestamp);
    s.append("_");
    let l = make_safe_label(label);
    s.append(l.as_str());
    s.append(".txt");
    s
}

/// What a tee file holds: a header line naming the label and time, then the output.
pub fn tee_file_content(label: &str, timestamp: &str, output: &str) -> (r: String)
    ensures
        r@ == "--- tee: "@ + label@ + " at "@ + timestamp@ + " ---\n"@ + output@ + "\n"@,
{
    let mut s = String::from_str("--- tee: ");
    s.append(label);
    s.append(" at ");
    s.append(timestamp);
    s.append(" ---\n");
    s.append(output);
    s.append("\n");
    s
}

} // verus!
