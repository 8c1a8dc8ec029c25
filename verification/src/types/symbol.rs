//! Symbols: named declarations with a location, a kind and a visibility.

use vstd::prelude::*;

verus! {

/// What sort of declaration a symbol is.
#[derive(Debug, Clone, Copy, PartialEq, Eq, Structural)]
pub enum SymbolKind {
    Function,
    Method,
    Class,
    Struct,
    Enum,
    Trait,
    Interface,
    Const,
    Module,
    Type,
}

impl SymbolKind {
    /// The short label under which the kind appears in generated tables.
    pub open spec fn label(self) -> Seq<char> {
        match self {
            SymbolKind::Function => "fn"@,
            SymbolKind::Method => "method"@,
            SymbolKind::Class => "class"@,
            SymbolKind::Struct => "struct"@,
            SymbolKind::Enum => "enum"@,
            SymbolKind::Trait => "trait"@,
            SymbolKind::Interface => "interface"@,
            SymbolKind::Const => "const"@,
            SymbolKind::Module => "mod"@,
            SymbolKind::Type => "type"@,
        }
    }

    pub fn as_str(&self) -> (res: &'static str)
        ensures
            res@ == self.label(),
    {
        match self {
            SymbolKind::Function => "fn",
            SymbolKind::Method => "method",
            SymbolKind::Class => "class",
            SymbolKind::Struct => "struct",
            SymbolKind::Enum => "enum",
            SymbolKind::Trait => "trait",
            SymbolKind::Interface => "interface",
            SymbolKind::Const => "const",
            SymbolKind::Module => "mod",
            SymbolKind::Type => "type",
        }
    }

    pub fn to_string(&self) -> (res: String)
        ensures
            res@ == self.label(),
    {
        self.as_str().to_owned()
    }
}

/// Who may use a symbol.
#[derive(Debug, Clone, Copy, PartialEq, Eq, Structural)]
pub enum Visibility {
    Public,
    Private,
    Protected,
    Internal,
}

impl Visibility {
    /// The label under which the visibility appears in generated tables.
    pub open spec fn label(self) -> Seq<char> {
        match self {
            Visibility::Public => "pub"@,
            Visibility::Private => "(private)"@,
            Visibility::Protected => "(protected)"@,
            Visibility::Internal => "(internal)"@,
        }
    }

    pub fn as_str(&self) -> (res: &'static str)
        ensures
            res@ == self.label(),
    {
        match self {
            Visibility::Public => "pub",
            Visibility::Private => "(private)",
            Visibility::Protected => "(protected)",
            Visibility::Internal => "(internal)",
        }
    }

    pub fn to_string(&self) -> (res: String)
        ensures
            res@ == self.label(),
    {
        self.as_str().to_owned()
    }
}

/// An inclusive range of 1-based line numbers.
#[derive(Debug, Clone, Copy, PartialEq, Eq, Structural)]
pub struct LineRange {
    pub start: usize,
    pub end: usize,
}

impl LineRange {
    pub fn new(start: usize, end: usize) -> (res: Self)
        ensures
            res == (LineRange { start, end }),
    {
        LineRange { start, end }
    }

    pub fn single(line: usize) -> (res: Self)
        ensures
            res == (LineRange { start: line, end: line }),
    {
        LineRange { start: line, end: line }
    }
}

/// A declaration found in one file's text.
#[derive(Debug, Clone)]
pub struct Symbol {
    pub kind: SymbolKind,
    pub name: String,
    pub signature: Option<String>,
    pub line_range: LineRange,
    pub visibility: Visibility,
    pub doc_comment: Option<String>,
}

/// The mathematical content of a [`Symbol`]: its strings as character
/// sequences.
pub struct SymbolView {
    pub kind: SymbolKind,
    pub name: Seq<char>,
    pub signature: Option<Seq<char>>,
    pub line_range: LineRange,
    pub visibility: Visibility,
    pub doc_comment: Option<Seq<char>>,
}

/// The characters of an optional string.
pub open spec fn opt_view(s: Option<String>) -> Option<Seq<char>> {
    match s {
        Some(t) => Some(t@),
        None => None,
    }
}

/// The contents of a sequence of symbols.
pub open spec fn symbol_views(s: Seq<Symbol>) -> Seq<SymbolView> {
    s.map_values(|x: Symbol| x@)
}

impl View for Symbol {
    type V = SymbolView;

    open spec fn view(&self) -> SymbolView {
        SymbolView {
            kind: self.kind,
            name: self.name@,
            signature: opt_view(self.signature),
            line_range: self.line_range,
            visibility: self.visibility,
            doc_comment: opt_view(self.doc_comment),
        }
    }
}

impl Symbol {
    /// A symbol on one line, without signature or documentation.
    pub fn new(kind: SymbolKind, name: String, line: usize, visibility: Visibility) -> (res: Self)
        ensures
            res@ == (SymbolView {
                kind,
                name: name@,
                signature: None,
                line_range: LineRange { start: line, end: line },
                visibility,
                doc_comment: None,
            }),
    {
        Symbol {
            kind,
            name,
            signature: None,
            line_range: LineRange::single(line),
            visibility,
            doc_comment: None,
        }
    }

    pub fn with_signature(self, signature: String) -> (res: Self)
        ensures
            res@ == (SymbolView { signature: Some(signature@), ..self@ }),
    {
        let mut s = self;
        s.signature = Some(signature);
        s
    }

    pub fn with_line_range(self, start: usize, end: usize) -> (res: Self)
        ensures
            res@ == (SymbolView { line_range: LineRange { start, end }, ..self@ }),
    {
        let mut s = self;
        s.line_range = LineRange::new(start, end);
        s
    }

    pub fn with_doc_comment(self, doc: String) -> (res: Self)
        ensures
            res@ == (SymbolView { doc_comment: Some(doc@), ..self@ }),
    {
        let mut s = self;
        s.doc_comment = Some(doc);
        s
    }

    /// A copy with the same content.
    pub fn duplicate(&self) -> (res: Self)
        ensures
            res@ == self@,
    {
        Symbol {
            kind: self.kind,
            name: self.name.clone(),
            signature: match &self.signature {
                Some(s) => Some(s.clone()),
                None => None,
            },
            line_range: self.line_range,
            visibility: self.visibility,
            doc_comment: match &self.doc_comment {
                Some(s) => Some(s.clone()),
                None => None,
            },
        }
    }
}

} // verus!
