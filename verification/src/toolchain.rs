//! Read-only facts about the installed toolchain, derived once per run from
//! the external probing collaborator and shared by every stage.

use vstd::prelude::*;
use crate::text;

verus! {

/// Major version number, binary directory and library directory of the
/// toolchain this invocation delegates to. Never mutated by the pipeline.
pub struct ToolchainInfo {
    pub major_version: u32,
    pub bindir: String,
    pub libdir: String,
}

/// The major version a version string denotes: the decimal number before the
/// first dot, after surrounding whitespace is stripped.
pub open spec fn spec_parse_major_version(s: Seq<char>) -> Option<u32> {
    text::spec_parse_u32(text::spec_split(text::spec_trim(s), '.')[0])
}

/// Parses the major version out of a toolchain version report such as a
/// `--version` line.
pub fn parse_major_version(s: &str) -> (r: Option<u32>)
    ensures
        r == spec_parse_major_version(s@),
{
    let t = text::trim(s);
    let parts = text::split_char(t.as_str(), '.');
    proof {
        text::lemma_split_len(t@, '.');
        assert(parts.deep_view()[0] == parts@[0]@);
    }
    text::parse_u32(parts[0].as_str())
}

} // verus!
