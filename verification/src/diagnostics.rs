//! Diagnostics as the user sees them: a header with the place, the message, and the
//! source snippet.

use vstd::prelude::*;
use vstd::string::*;
use crate::analysis::errorhandler::{errors_view, AnalyserError, AnalyserErrorView};
use crate::analysis::model::AnalyserView;
use crate::analysis::Analyser;
use crate::ast::Ast;
use crate::highlighter::{highlight_error, snippet, spec_red_underscore};
use crate::parser::ParserError;
use crate::span::Span;
use crate::stdlib::{natives_view, NativeFn};
use crate::text::{decimal, decimal_text};

verus! {

/// The header of a rendered diagnostic: the path, the line and the column, each in its
/// colour, and the word `ERROR`.
pub open spec fn header(path: Seq<char>, line: nat, column: nat) -> Seq<char> {
    "\x1b[38;5;4m"@ + path + "\x1b[0m:\x1b[38;5;5m"@ + decimal(line) + "\x1b[0m:\x1b[38;5;5m"@
        + decimal(column) + "\x1b[0m\x1b[1;31m ERROR\x1b[0m "@
}

/// A message about a place in the source as the user sees it: the header, the message,
/// an empty line, and the snippet of the source with the span in red.
pub open spec fn rendered_message(
    message: Seq<char>,
    span: Span,
    path: Seq<char>,
    source: Seq<char>,
) -> Seq<char> {
    header(path, span.line as nat, span.column as nat) + message + "\n\n"@ + snippet(
        source,
        span.start as int,
        span.end as int,
        spec_red_underscore(),
    ) + "\n"@
}

/// A diagnostic as the user sees it.
pub open spec fn rendered(error: AnalyserErrorView, path: Seq<char>, source: Seq<char>) -> Seq<
    char,
> {
    rendered_message(error.msg, error.span, path, source)
}

/// Renders a message about a place in the source `file_content` read from `file_path`.
pub fn render_message(message: &str, span: Span, file_path: &str, file_content: &str) -> (text:
    String)
    ensures
        text@ == rendered_message(message@, span, file_path@, file_content@),
{
    let line = decimal_text(span.line as u128);
    let column = decimal_text(span.column as u128);
    let mut text = String::from_str("\x1b[38;5;4m");
    text.append(file_path);
    text.append("\x1b[0m:\x1b[38;5;5m");
    text.append(line.as_str());
    text.append("\x1b[0m:\x1b[38;5;5m");
    text.append(column.as_str());
    text.append("\x1b[0m\x1b[1;31m ERROR\x1b[0m ");
    text.append(message);
    text.append("\n\n");
    let source = highlight_error(file_content, span.start, span.end);
    text.append(source.as_str());
    text.append("\n");
    assert(text@ =~= rendered_message(message@, span, file_path@, file_content@));
    text
}

impl ParserError {
    /// The failure as the user sees it, for the source `file_content` read from
    /// `file_path`.
    pub fn render(&self, file_path: &str, file_content: &str) -> (text: String)
        ensures
            text@ == rendered_message(self.message@, self.location, file_path@, file_content@),
    {
        render_message(self.message.as_str(), self.location, file_path, file_content)
    }
}

/// The first `count` diagnostics as the user sees them, one after the other.
pub open spec fn rendered_all(
    errors: Seq<AnalyserErrorView>,
    path: Seq<char>,
    source: Seq<char>,
    count: nat,
) -> Seq<char>
    decreases count,
{
    if count == 0 || count > errors.len() {
        Seq::empty()
    } else {
        rendered_all(errors, path, source, (count - 1) as nat) + rendered(
            errors[count - 1],
            path,
            source,
        )
    }
}

impl AnalyserError {
    /// The diagnostic in one line: the tag of its kind, a colon and the message.
    pub fn to_text(&self) -> (text: String)
        ensures
            text@ == self.kind.spec_label() + ": "@ + self.msg@,
    {
        let mut text = String::from_str(self.kind.label());
        text.append(": ");
        text.append(self.msg.as_str());
        text
    }

    /// The diagnostic as the user sees it, for the source `file_content` read from
    /// `file_path`.
    pub fn render(&self, file_path: &str, file_content: &str) -> (text: String)
        ensures
            text@ == rendered(self@, file_path@, file_content@),
    {
        render_message(self.msg.as_str(), self.span, file_path, file_content)
    }
}

/// The diagnostics of a check, in the order in which they were found.
#[derive(Debug, PartialEq, Eq)]
pub struct Diagnostics {
    pub diagnostics: Vec<AnalyserError>,
}

impl View for Diagnostics {
    type V = Seq<AnalyserErrorView>;

    open spec fn view(&self) -> Seq<AnalyserErrorView> {
        errors_view(self.diagnostics@)
    }
}

impl Diagnostics {
    pub fn new() -> (diagnostics: Self)
        ensures
            diagnostics@.len() == 0,
    {
        Self { diagnostics: Vec::new() }
    }

    /// Adds a diagnostic behind the others.
    pub fn emit(&mut self, diagnostic: AnalyserError)
        ensures
            final(self)@ == old(self)@.push(diagnostic@),
    {
        self.diagnostics.push(diagnostic);
        assert(self@ =~= old(self)@.push(diagnostic@));
    }

    /// The number of diagnostics.
    pub fn emit_all(&self) -> (count: usize)
        ensures
            count == self@.len(),
    {
        self.diagnostics.len()
    }

    /// All diagnostics as the user sees them, one after the other.
    pub fn render(&self, file_path: &str, file_content: &str) -> (text: String)
        ensures
            text@ == rendered_all(self@, file_path@, file_content@, self@.len()),
    {
        let mut text = String::new();
        let mut i: usize = 0;
        while i < self.diagnostics.len()
            invariant
                i <= self.diagnostics@.len(),
                text@ == rendered_all(self@, file_path@, file_content@, i as nat),
            decreases self.diagnostics@.len() - i,
        {
            let one = self.diagnostics[i].render(file_path, file_content);
            assert(self@[i as int] == self.diagnostics@[i as int]@);
            text.append(one.as_str());
            i += 1;
        }
        text
    }
}

/// The checker for one source file: it checks the tree of the file and keeps the
/// diagnostics for rendering.
#[derive(Debug, PartialEq, Eq)]
pub struct Checker {
    pub file_path: String,
    pub file_content: String,
    pub analyser: Analyser,
}

impl Checker {
    pub fn new(file_path: &str, file_content: &str, natives: Vec<NativeFn>) -> (checker: Self)
        ensures
            checker.file_path@ == file_path@,
            checker.file_content@ == file_content@,
            checker.analyser@ == AnalyserView::initial(natives_view(natives@)),
    {
        Self {
            file_path: String::from_str(file_path),
            file_content: String::from_str(file_content),
            analyser: Analyser::with_natives(&natives),
        }
    }

    /// Checks the tree and leaves the annotations in it. Returns `None` when the
    /// checker holds no diagnostic afterwards, else all its diagnostics in order.
    pub fn check(&mut self, ast: &mut Ast) -> (result: Option<Diagnostics>)
        requires
            old(self).analyser@.wf(),
        ensures
            final(self).analyser@ == old(self).analyser@.program(old(ast)@),
            final(self).file_path == old(self).file_path,
            final(self).file_content == old(self).file_content,
            crate::analysis::model::annotated_all(old(self).analyser@, old(ast)@, final(ast)@),
            result.is_none() == (final(self).analyser@.errors.len() == 0),
            result matches Some(diagnostics) ==> diagnostics@ == final(self).analyser@.errors,
    {
        match self.analyser.analyse(ast) {
            Ok(()) => None,
            Err(errors) => Some(Diagnostics { diagnostics: errors }),
        }
    }

    /// The diagnostics as the user sees them, for the file of this checker.
    pub fn report(&self, diagnostics: &Diagnostics) -> (text: String)
        ensures
            text@ == rendered_all(
                diagnostics@,
                self.file_path@,
                self.file_content@,
                diagnostics@.len(),
            ),
    {
        diagnostics.render(self.file_path.as_str(), self.file_content.as_str())
    }
}

} // verus!
