//! Templates that point a coding tool to the generated documents, and what
//! becomes of a file that is to hold one.

use crate::cli::wizard::TemplateChoice;
use crate::text::bytes::{contains_bytes, range_contains, span_text, text_between};
use crate::text::trim::{drop_space, trim_end};
use crate::types::file::lit;
use vstd::prelude::*;
use vstd::string::*;

verus! {

/// The heading under which a rules file holds the section.
pub const SECTION_MARKER: &'static str = "# Agentmap Integration";

/// The heading under which an instructions file holds the section.
pub const SECTION_MARKER_ALT: &'static str = "## Agentmap Documentation";

/// The heading of the template for a tool.
pub open spec fn heading_of(choice: TemplateChoice) -> Seq<char> {
    match choice {
        TemplateChoice::Cursor => SECTION_MARKER@,
        TemplateChoice::OpenCode => SECTION_MARKER_ALT@,
    }
}

/// The template for a tool: its heading, and where under `dir` the
/// documents are found.
pub open spec fn template_text(choice: TemplateChoice, dir: Seq<char>) -> Seq<char> {
    heading_of(choice) + "\n\nThis project keeps a generated map of its code under `"@ + dir
        + "/`.\n\n- Start with `"@ + dir + "/INDEX.md`.\n- Each module has a directory under `"@
        + dir + "/modules/`, with `MODULE.md`, `outline.md`, `memory.md` and `imports.md`.\n"@
        + "- Read the `memory.md` of a module before changing its files.\n"@
}

/// The template for the tool `choice`, for documents under `dir`.
pub fn generate_template(choice: TemplateChoice, dir: &str) -> (res: String)
    ensures
        res@ == template_text(choice, dir@),
{
    let mut out = match choice {
        TemplateChoice::Cursor => SECTION_MARKER.to_owned(),
        TemplateChoice::OpenCode => SECTION_MARKER_ALT.to_owned(),
    };
    out.append("\n\nThis project keeps a generated map of its code under `");
    out.append(dir);
    out.append("/`.\n\n- Start with `");
    out.append(dir);
    out.append("/INDEX.md`.\n- Each module has a directory under `");
    out.append(dir);
    out.append("/modules/`, with `MODULE.md`, `outline.md`, `memory.md` and `imports.md`.\n");
    out.append("- Read the `memory.md` of a module before changing its files.\n");
    out
}

/// What becomes of the file that is to hold a template.
#[derive(Debug)]
pub enum TemplateWrite {
    /// There is no file yet: it is created with this text.
    Created(String),
    /// The file gets this text, which ends in the template.
    Appended(String),
    /// The file holds the section already and stays as it is.
    Skipped,
}

/// Whether a text holds one of the two headings.
pub open spec fn holds_section(existing: Seq<u8>) -> bool {
    contains_bytes(existing, lit(SECTION_MARKER)) || contains_bytes(
        existing,
        lit(SECTION_MARKER_ALT),
    )
}

/// A text without the white space at its end, an empty line, and the
/// template.
pub open spec fn appended_text(existing: Seq<u8>, content: Seq<char>) -> Seq<char> {
    span_text(existing, 0, trim_end(existing, 0, existing.len() as int)) + "\n\n"@ + content
}

/// What becomes of a file that is to hold `content`, where `existing` is
/// what the file holds now, if there is one: a new file is created; a file
/// with one of the headings is left alone; any other file gets the template
/// at its end.
pub fn plan_template_write(existing: Option<&str>, content: &str) -> (res: TemplateWrite)
    ensures
        match existing {
            None => match res {
                TemplateWrite::Created(t) => t@ == content@,
                _ => false,
            },
            Some(e) => if holds_section(e.spec_bytes()) {
                res is Skipped
            } else {
                match res {
                    TemplateWrite::Appended(t) => t@ == appended_text(e.spec_bytes(), content@),
                    _ => false,
                }
            },
        },
{
    match existing {
        None => TemplateWrite::Created(content.to_owned()),
        Some(e) => {
            let bytes = e.as_bytes();
            let n = bytes.len();
            proof {
                assert(bytes@.subrange(0, n as int) =~= bytes@);
            }
            if range_contains(bytes, 0, n, SECTION_MARKER.as_bytes()) || range_contains(
                bytes,
                0,
                n,
                SECTION_MARKER_ALT.as_bytes(),
            ) {
                TemplateWrite::Skipped
            } else {
                let end = drop_space(bytes, 0, n);
                let mut out = text_between(e, 0, end);
                out.append("\n\n");
                out.append(content);
                TemplateWrite::Appended(out)
            }
        },
    }
}

} // verus!
