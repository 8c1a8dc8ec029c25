//! The parameters of the tools that the server offers, and the document
//! that it makes of a module.

use vstd::prelude::*;
use vstd::string::*;

verus! {

/// The parameters of the tool that fetches a module.
#[derive(Debug)]
pub struct GetModuleParams {
    /// The slug of the module, such as `src-analyze`.
    pub slug: String,
}

/// The parameters of the tool that fetches the outline of a file.
#[derive(Debug)]
pub struct GetOutlineParams {
    /// The relative path of the file, such as `src/main.rs`.
    pub file: String,
}

/// The content of a text that may be missing.
pub open spec fn text_of(text: Option<&str>) -> Option<Seq<char>> {
    match text {
        Some(t) => Some(t@),
        None => None,
    }
}

/// The overview of a module, if there is one, with a rule under it.
pub open spec fn lead_part(text: Option<Seq<char>>) -> Seq<char> {
    match text {
        Some(t) => t + "\n\n---\n\n"@,
        None => Seq::empty(),
    }
}

/// `acc` with one more part of a module under the name of its file; a part
/// that is missing or empty adds nothing.
pub open spec fn with_part(acc: Seq<char>, name: Seq<char>, text: Option<Seq<char>>) -> Seq<char> {
    match text {
        Some(t) => if t.len() == 0 {
            acc
        } else {
            acc + "## "@ + name + "\n\n"@ + t + "\n\n"@
        },
        None => acc,
    }
}

/// The document of a module: its overview, then its outline, its memory and
/// its imports, each under the name of its file.
pub open spec fn module_document(
    overview: Option<Seq<char>>,
    outline: Option<Seq<char>>,
    memory: Option<Seq<char>>,
    imports: Option<Seq<char>>,
) -> Seq<char> {
    with_part(
        with_part(with_part(lead_part(overview), "outline.md"@, outline), "memory.md"@, memory),
        "imports.md"@,
        imports,
    )
}

/// Adds one part of a module to `out`.
pub fn write_part(out: &mut String, name: &str, text: Option<&str>)
    ensures
        final(out)@ == with_part(old(out)@, name@, text_of(text)),
{
    match text {
        Some(t) => {
            if !t.is_empty() {
                out.append("## ");
                out.append(name);
                out.append("\n\n");
                out.append(t);
                out.append("\n\n");
            }
        },
        None => {},
    }
}

/// The document of a module, made of those of its four files that could be
/// read; none where that leaves nothing to show.
pub fn module_document_of(
    overview: Option<&str>,
    outline: Option<&str>,
    memory: Option<&str>,
    imports: Option<&str>,
) -> (res: Option<String>)
    ensures
        match res {
            Some(d) => d@.len() > 0 && d@ == module_document(
                text_of(overview),
                text_of(outline),
                text_of(memory),
                text_of(imports),
            ),
            None => module_document(
                text_of(overview),
                text_of(outline),
                text_of(memory),
                text_of(imports),
            ).len() == 0,
        },
{
    let mut out = String::new();
    match overview {
        Some(t) => {
            out.append(t);
            out.append("\n\n---\n\n");
        },
        None => {},
    }
    proof {
        assert(out@ =~= lead_part(text_of(overview)));
    }
    write_part(&mut out, "outline.md", outline);
    write_part(&mut out, "memory.md", memory);
    write_part(&mut out, "imports.md", imports);
    if out.as_str().is_empty() {
        None
    } else {
        Some(out)
    }
}

} // verus!
