use vstd::prelude::*;

verus! {

/// Severity of a diagnostic.
#[derive(Clone, Copy, Debug, PartialEq, Eq, Structural)]
pub enum DiagnosticLevel {
    Error,
    Warn,
}

/// A structured report about a query: a level, a message, optional help
/// lines and the span of the query text that it is about.
#[derive(Clone, Debug)]
pub struct Diagnostic {
    pub level: DiagnosticLevel,
    pub message: String,
    pub helps: Vec<String>,
    pub location: Option<(usize, usize)>,
}

/// The mathematical value of a [`Diagnostic`].
pub struct DiagnosticView {
    pub level: DiagnosticLevel,
    pub message: Seq<char>,
    pub helps: Seq<Seq<char>>,
    pub location: Option<(int, int)>,
}

impl View for Diagnostic {
    type V = DiagnosticView;

    open spec fn view(&self) -> DiagnosticView {
        DiagnosticView {
            level: self.level,
            message: self.message@,
            helps: Seq::new(self.helps@.len(), |i: int| self.helps@[i]@),
            location: match self.location {
                Some((s, e)) => Some((s as int, e as int)),
                None => None,
            },
        }
    }
}

impl Diagnostic {
    /// A diagnostic of the given level with no help lines and no span.
    pub fn new(level: DiagnosticLevel, message: &str) -> (d: Diagnostic)
        ensures
            d@ == (DiagnosticView {
                level,
                message: message@,
                helps: Seq::empty(),
                location: None,
            }),
    {
        let d = Diagnostic {
            level,
            message: message.to_owned(),
            helps: Vec::new(),
            location: None,
        };
        assert(d@.helps =~= Seq::empty());
        d
    }

    /// An error diagnostic with the given message.
    pub fn error(message: &str) -> (d: Diagnostic)
        ensures
            d@ == (DiagnosticView {
                level: DiagnosticLevel::Error,
                message: message@,
                helps: Seq::empty(),
                location: None,
            }),
    {
        Diagnostic::new(DiagnosticLevel::Error, message)
    }

    /// A warning diagnostic with the given message.
    pub fn warn(message: &str) -> (d: Diagnostic)
        ensures
            d@ == (DiagnosticView {
                level: DiagnosticLevel::Warn,
                message: message@,
                helps: Seq::empty(),
                location: None,
            }),
    {
        Diagnostic::new(DiagnosticLevel::Warn, message)
    }

    /// Sets the span to `(start, end)`.
    pub fn with_location_span(self, start: usize, end: usize) -> (d: Diagnostic)
        ensures
            d@ == (DiagnosticView { location: Some((start as int, end as int)), ..self@ }),
    {
        let d = Diagnostic {
            level: self.level,
            message: self.message,
            helps: self.helps,
            location: Some((start, end)),
        };
        assert(d@.helps =~= self@.helps);
        d
    }

    /// Appends one help line.
    pub fn add_help(self, help: &str) -> (d: Diagnostic)
        ensures
            d@ == (DiagnosticView { helps: self@.helps.push(help@), ..self@ }),
    {
        let mut helps = self.helps;
        helps.push(help.to_owned());
        let d = Diagnostic {
            level: self.level,
            message: self.message,
            helps,
            location: self.location,
        };
        assert(d@.helps =~= self@.helps.push(help@));
        d
    }

    /// Moves the diagnostic onto the heap.
    pub fn as_boxed(self) -> (b: Box<Diagnostic>)
        ensures
            *b == self,
    {
        Box::new(self)
    }
}

} // verus!
