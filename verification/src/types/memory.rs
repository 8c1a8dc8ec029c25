//! Knowledge markers found in comments.

use vstd::prelude::*;

verus! {

/// How urgent a marker is.
#[derive(Debug, Clone, Copy, PartialEq, Eq, PartialOrd, Ord, Structural)]
pub enum Priority {
    High,
    Medium,
    Low,
}

impl Priority {
    /// The position of the priority in the order High, Medium, Low.
    pub open spec fn rank(self) -> nat {
        match self {
            Priority::High => 0,
            Priority::Medium => 1,
            Priority::Low => 2,
        }
    }

    pub open spec fn label(self) -> Seq<char> {
        match self {
            Priority::High => "High"@,
            Priority::Medium => "Medium"@,
            Priority::Low => "Low"@,
        }
    }

    pub fn rank_of(&self) -> (res: u8)
        ensures
            res == self.rank(),
    {
        match self {
            Priority::High => 0,
            Priority::Medium => 1,
            Priority::Low => 2,
        }
    }

    pub fn as_str(&self) -> (res: &'static str)
        ensures
            res@ == self.label(),
    {
        match self {
            Priority::High => "High",
            Priority::Medium => "Medium",
            Priority::Low => "Low",
        }
    }

    pub fn to_string(&self) -> (res: String)
        ensures
            res@ == self.label(),
    {
        self.as_str().to_owned()
    }
}

/// The kind of knowledge a marker records.
#[derive(Debug, Clone, Copy, PartialEq, Eq, Structural)]
pub enum MemoryKind {
    Warning,
    BusinessRule,
    Invariant,
    Todo,
    Fixme,
    Deprecated,
    Note,
    Hack,
    Safety,
}

impl MemoryKind {
    /// The priority a marker of this kind starts with.
    pub open spec fn spec_default_priority(self) -> Priority {
        match self {
            MemoryKind::Warning | MemoryKind::Safety | MemoryKind::Deprecated => Priority::High,
            MemoryKind::BusinessRule | MemoryKind::Invariant => Priority::High,
            MemoryKind::Todo | MemoryKind::Fixme | MemoryKind::Hack | MemoryKind::Note =>
                Priority::Medium,
        }
    }

    /// The group under which markers of this kind are listed.
    pub open spec fn spec_category(self) -> Seq<char> {
        match self {
            MemoryKind::Warning | MemoryKind::Safety => "Warnings"@,
            MemoryKind::BusinessRule | MemoryKind::Invariant => "Business Rules"@,
            MemoryKind::Todo | MemoryKind::Fixme | MemoryKind::Hack | MemoryKind::Deprecated =>
                "Technical Debt"@,
            MemoryKind::Note => "Notes"@,
        }
    }

    pub open spec fn spec_emoji(self) -> Seq<char> {
        match self {
            MemoryKind::Warning | MemoryKind::Safety => "⚠️"@,
            MemoryKind::BusinessRule | MemoryKind::Invariant => "📋"@,
            MemoryKind::Todo | MemoryKind::Fixme | MemoryKind::Hack | MemoryKind::Deprecated =>
                "🔧"@,
            MemoryKind::Note => "📝"@,
        }
    }

    /// The keyword under which the kind is printed.
    pub open spec fn label(self) -> Seq<char> {
        match self {
            MemoryKind::Warning => "WARNING"@,
            MemoryKind::BusinessRule => "RULE"@,
            MemoryKind::Invariant => "INVARIANT"@,
            MemoryKind::Todo => "TODO"@,
            MemoryKind::Fixme => "FIXME"@,
            MemoryKind::Deprecated => "DEPRECATED"@,
            MemoryKind::Note => "NOTE"@,
            MemoryKind::Hack => "HACK"@,
            MemoryKind::Safety => "SAFETY"@,
        }
    }

    pub fn default_priority(&self) -> (res: Priority)
        ensures
            res == self.spec_default_priority(),
    {
        match self {
            MemoryKind::Warning | MemoryKind::Safety | MemoryKind::Deprecated => Priority::High,
            MemoryKind::BusinessRule | MemoryKind::Invariant => Priority::High,
            MemoryKind::Todo | MemoryKind::Fixme | MemoryKind::Hack | MemoryKind::Note =>
                Priority::Medium,
        }
    }

    pub fn category(&self) -> (res: &'static str)
        ensures
            res@ == self.spec_category(),
    {
        match self {
            MemoryKind::Warning | MemoryKind::Safety => "Warnings",
            MemoryKind::BusinessRule | MemoryKind::Invariant => "Business Rules",
            MemoryKind::Todo | MemoryKind::Fixme | MemoryKind::Hack | MemoryKind::Deprecated => {
                "Technical Debt"
            },
            MemoryKind::Note => "Notes",
        }
    }

    pub fn emoji(&self) -> (res: &'static str)
        ensures
            res@ == self.spec_emoji(),
    {
        match self {
            MemoryKind::Warning | MemoryKind::Safety => "⚠️",
            MemoryKind::BusinessRule | MemoryKind::Invariant => "📋",
            MemoryKind::Todo | MemoryKind::Fixme | MemoryKind::Hack | MemoryKind::Deprecated => {
                "🔧"
            },
            MemoryKind::Note => "📝",
        }
    }

    pub fn as_str(&self) -> (res: &'static str)
        ensures
            res@ == self.label(),
    {
        match self {
            MemoryKind::Warning => "WARNING",
            MemoryKind::BusinessRule => "RULE",
            MemoryKind::Invariant => "INVARIANT",
            MemoryKind::Todo => "TODO",
            MemoryKind::Fixme => "FIXME",
            MemoryKind::Deprecated => "DEPRECATED",
            MemoryKind::Note => "NOTE",
            MemoryKind::Hack => "HACK",
            MemoryKind::Safety => "SAFETY",
        }
    }

    pub fn to_string(&self) -> (res: String)
        ensures
            res@ == self.label(),
    {
        self.as_str().to_owned()
    }
}

/// One marker: what it says, where it stands, how urgent it is.
#[derive(Debug, Clone)]
pub struct MemoryEntry {
    pub kind: MemoryKind,
    pub content: String,
    pub source_file: String,
    pub line_number: usize,
    pub priority: Priority,
}

/// The mathematical content of a [`MemoryEntry`].
pub struct MemoryEntryView {
    pub kind: MemoryKind,
    pub content: Seq<char>,
    pub source_file: Seq<char>,
    pub line_number: usize,
    pub priority: Priority,
}

impl View for MemoryEntry {
    type V = MemoryEntryView;

    open spec fn view(&self) -> MemoryEntryView {
        MemoryEntryView {
            kind: self.kind,
            content: self.content@,
            source_file: self.source_file@,
            line_number: self.line_number,
            priority: self.priority,
        }
    }
}

impl MemoryEntry {
    /// A marker with the priority that its kind starts with.
    pub fn new(
        kind: MemoryKind,
        content: String,
        source_file: String,
        line_number: usize,
    ) -> (res: Self)
        ensures
            res@ == (MemoryEntryView {
                kind,
                content: content@,
                source_file: source_file@,
                line_number,
                priority: kind.spec_default_priority(),
            }),
    {
        let priority = kind.default_priority();
        MemoryEntry { kind, content, source_file, line_number, priority }
    }

    pub fn with_priority(self, priority: Priority) -> (res: Self)
        ensures
            res@ == (MemoryEntryView { priority, ..self@ }),
    {
        let mut e = self;
        e.priority = priority;
        e
    }

    /// A copy with the same content.
    pub fn duplicate(&self) -> (res: Self)
        ensures
            res@ == self@,
    {
        MemoryEntry {
            kind: self.kind,
            content: self.content.clone(),
            source_file: self.source_file.clone(),
            line_number: self.line_number,
            priority: self.priority,
        }
    }
}

} // verus!
