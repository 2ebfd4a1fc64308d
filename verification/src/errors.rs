//! What can go wrong while a text is preprocessed.

use crate::range::Range;
use vstd::prelude::*;

verus! {

/// A text and the range of the symbol that it was taken from: what each
/// error holds, as contracts see it.
pub struct Located {
    pub text: Seq<char>,
    pub range: Range,
}

/// An expansion met a name that no macro has.
#[derive(Debug)]
pub struct MacroNotFoundError {
    pub macro_name: String,
    pub range: Range,
}

/// A parameter of a macro is not one of `%0` to `%9`, or stands for no
/// argument.
#[derive(Debug)]
pub struct ParseIntError {
    pub text: String,
    pub range: Range,
}

/// The condition of an `#if` or `#elseif` cannot be evaluated.
#[derive(Debug)]
pub struct EvaluationError {
    pub text: String,
    pub range: Range,
}

impl View for MacroNotFoundError {
    type V = Located;

    open spec fn view(&self) -> Located {
        Located { text: self.macro_name@, range: self.range }
    }
}

impl DeepView for MacroNotFoundError {
    type V = Located;

    open spec fn deep_view(&self) -> Located {
        self@
    }
}

impl View for ParseIntError {
    type V = Located;

    open spec fn view(&self) -> Located {
        Located { text: self.text@, range: self.range }
    }
}

impl View for EvaluationError {
    type V = Located;

    open spec fn view(&self) -> Located {
        Located { text: self.text@, range: self.range }
    }
}

impl DeepView for EvaluationError {
    type V = Located;

    open spec fn deep_view(&self) -> Located {
        self@
    }
}

impl MacroNotFoundError {
    pub fn new(macro_name: String, range: Range) -> (error: MacroNotFoundError)
        ensures
            error@ == (Located { text: macro_name@, range }),
    {
        MacroNotFoundError { macro_name, range }
    }
}

impl Clone for MacroNotFoundError {
    fn clone(&self) -> (copy: MacroNotFoundError)
        ensures
            copy@ == self@,
    {
        MacroNotFoundError { macro_name: self.macro_name.clone(), range: self.range }
    }
}

impl ParseIntError {
    pub fn new(text: String, range: Range) -> (error: ParseIntError)
        ensures
            error@ == (Located { text: text@, range }),
    {
        ParseIntError { text, range }
    }
}

impl EvaluationError {
    pub fn new(text: String, range: Range) -> (error: EvaluationError)
        ensures
            error@ == (Located { text: text@, range }),
    {
        EvaluationError { text, range }
    }
}

/// Why an expansion stopped.
#[derive(Debug)]
pub enum ExpansionError {
    MacroNotFound(MacroNotFoundError),
    Parse(ParseIntError),
}

/// An expansion error as contracts see it.
pub enum ExpansionErrorView {
    MacroNotFound(Located),
    Parse(Located),
}

impl View for ExpansionError {
    type V = ExpansionErrorView;

    open spec fn view(&self) -> ExpansionErrorView {
        match self {
            ExpansionError::MacroNotFound(error) => ExpansionErrorView::MacroNotFound(error@),
            ExpansionError::Parse(error) => ExpansionErrorView::Parse(error@),
        }
    }
}

/// An `#else`, `#elseif` or `#endif` stands where no `#if` is open.
#[derive(Debug)]
pub struct StructuralError {
    /// The text of the directive.
    pub directive: String,
    pub range: Range,
}

/// The parameter list of a `#define` holds a symbol that has no place
/// in one.
#[derive(Debug)]
pub struct SyntaxError {
    pub text: String,
    pub range: Range,
}

impl View for StructuralError {
    type V = Located;

    open spec fn view(&self) -> Located {
        Located { text: self.directive@, range: self.range }
    }
}

impl View for SyntaxError {
    type V = Located;

    open spec fn view(&self) -> Located {
        Located { text: self.text@, range: self.range }
    }
}

impl StructuralError {
    pub fn new(directive: String, range: Range) -> (error: StructuralError)
        ensures
            error@ == (Located { text: directive@, range }),
    {
        StructuralError { directive, range }
    }
}

impl SyntaxError {
    pub fn new(text: String, range: Range) -> (error: SyntaxError)
        ensures
            error@ == (Located { text: text@, range }),
    {
        SyntaxError { text, range }
    }
}

/// Why preprocessing stopped before the end of the text.
#[derive(Debug)]
pub enum PreprocessError {
    /// An expansion met a name that no macro has.
    MacroNotFound(MacroNotFoundError),
    /// A parameter is not one of `%0` to `%9`, or stands for no argument.
    ParseInt(ParseIntError),
    /// A directive closes or continues an `#if` that is not open.
    Unbalanced(StructuralError),
    /// The parameter list of a `#define` cannot be read.
    Syntax(SyntaxError),
}

/// A preprocessing error as contracts see it.
pub enum PreprocessErrorView {
    MacroNotFound(Located),
    ParseInt(Located),
    Unbalanced(Located),
    Syntax(Located),
}

impl View for PreprocessError {
    type V = PreprocessErrorView;

    open spec fn view(&self) -> PreprocessErrorView {
        match self {
            PreprocessError::MacroNotFound(error) => PreprocessErrorView::MacroNotFound(error@),
            PreprocessError::ParseInt(error) => PreprocessErrorView::ParseInt(error@),
            PreprocessError::Unbalanced(error) => PreprocessErrorView::Unbalanced(error@),
            PreprocessError::Syntax(error) => PreprocessErrorView::Syntax(error@),
        }
    }
}

} // verus!
