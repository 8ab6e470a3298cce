//! Output format selection for CLI commands.

use vstd::prelude::*;

use crate::errors::{BoxliteError, BoxliteResult};
use crate::strutil::{eq_ignore_ascii_case, spec_eq_ignore_case};

verus! {

/// The output formats list-like commands support.
#[derive(Debug, Clone, Copy, PartialEq, Eq, Structural)]
pub enum OutputFormat {
    Table,
    Json,
    Yaml,
}

impl OutputFormat {
    /// Parse an output format name, ignoring ASCII case. Anything but
    /// `table`, `json` and `yaml` is an invalid argument.
    pub fn from_str(s: &str) -> (r: BoxliteResult<OutputFormat>)
        ensures
            spec_eq_ignore_case(s@, "table"@) ==> r == Ok::<OutputFormat, BoxliteError>(
                OutputFormat::Table,
            ),
            spec_eq_ignore_case(s@, "json"@) ==> r == Ok::<OutputFormat, BoxliteError>(
                OutputFormat::Json,
            ),
            spec_eq_ignore_case(s@, "yaml"@) ==> r == Ok::<OutputFormat, BoxliteError>(
                OutputFormat::Yaml,
            ),
            (!spec_eq_ignore_case(s@, "table"@) && !spec_eq_ignore_case(s@, "json"@)
                && !spec_eq_ignore_case(s@, "yaml"@)) ==> (r matches Err(e) && (
            e matches BoxliteError::InvalidArgument(m) && m@ == "Unknown format: '"@ + s@
                + "'. Valid formats: table, json, yaml"@)),
    {
        proof {
            reveal_strlit("table");
            reveal_strlit("json");
            reveal_strlit("yaml");
        }
        if eq_ignore_ascii_case(s, "table") {
            Ok(OutputFormat::Table)
        } else if eq_ignore_ascii_case(s, "json") {
            proof {
                if spec_eq_ignore_case(s@, "yaml"@) {
                    assert(crate::strutil::spec_char_lower(s@[0]) == crate::strutil::spec_char_lower(
                        "json"@[0],
                    ));
                    assert(crate::strutil::spec_char_lower(s@[0]) == crate::strutil::spec_char_lower(
                        "yaml"@[0],
                    ));
                }
            }
            Ok(OutputFormat::Json)
        } else if eq_ignore_ascii_case(s, "yaml") {
            Ok(OutputFormat::Yaml)
        } else {
            let mut msg = String::from_str("Unknown format: '");
            msg.append(s);
            msg.append("'. Valid formats: table, json, yaml");
            Err(BoxliteError::InvalidArgument(msg))
        }
    }
}

} // verus!
