use vstd::prelude::*;
use crate::headers::chars_of;

verus! {

/// The format that a file extension asks for: `xml`, `yaml` (also written
/// `yml`), `csv` or `toml` by their own names, and `json` for every other
/// extension and for none.
pub open spec fn format_for_spec(extension: Option<Seq<char>>) -> Seq<char> {
    match extension {
        Some(e) => if e == "xml"@ {
            "xml"@
        } else if e == "yaml"@ || e == "yml"@ {
            "yaml"@
        } else if e == "csv"@ {
            "csv"@
        } else if e == "toml"@ {
            "toml"@
        } else {
            "json"@
        },
        None => "json"@,
    }
}

/// One of the five formats in which a report can be written.
pub open spec fn is_format(name: Seq<char>) -> bool {
    name == "json"@ || name == "xml"@ || name == "yaml"@ || name == "csv"@ || name == "toml"@
}

/// The extension of the file that `path` names, as
/// `std::path::Path::extension` finds it, where it is valid Unicode. Which
/// part of a path is its file name depends on the platform, so nothing is
/// claimed of the result.
#[verifier::external_body]
fn extension_of(path: &str) -> (extension: Option<String>) {
    match std::path::Path::new(path).extension() {
        Some(e) => e.to_str().map(|s| s.to_owned()),
        None => None,
    }
}

/// Tests whether two texts are the same.
pub fn same_text(a: &str, b: &str) -> (same: bool)
    ensures
        same == (a@ == b@),
{
    let x = chars_of(a);
    let y = chars_of(b);
    if x.len() != y.len() {
        return false;
    }
    let mut i: usize = 0;
    while i < x.len()
        invariant
            i <= x@.len(),
            x@ == a@,
            y@ == b@,
            x@.len() == y@.len(),
            forall|k: int| 0 <= k < i ==> x@[k] == y@[k],
        decreases x@.len() - i,
    {
        if x[i] != y[i] {
            return false;
        }
        i += 1;
    }
    assert(x@ =~= y@);
    true
}

/// The format that a file extension asks for.
pub fn format_for_extension(extension: Option<&str>) -> (format: &'static str)
    ensures
        format@ == format_for_spec(
            match extension {
                Some(e) => Some(e@),
                None => None,
            },
        ),
        is_format(format@),
{
    match extension {
        Some(e) => {
            if same_text(e, "xml") {
                "xml"
            } else if same_text(e, "yaml") || same_text(e, "yml") {
                "yaml"
            } else if same_text(e, "csv") {
                "csv"
            } else if same_text(e, "toml") {
                "toml"
            } else {
                "json"
            }
        },
        None => "json",
    }
}

/// The format in which the report at `output_path` is to be written,
/// going by the extension of the file.
pub fn get_output_format(output_path: &str) -> (format: &'static str)
    ensures
        is_format(format@),
{
    match extension_of(output_path) {
        Some(e) => format_for_extension(Some(e.as_str())),
        None => format_for_extension(None),
    }
}

} // verus!
