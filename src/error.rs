use vstd::prelude::*;

verus! {

#[verifier::external_type_specification]
#[verifier::external_body]
pub struct ExIoError(std::io::Error);

/// What is wrong with an argument of a command.
#[derive(Debug, PartialEq, Eq, Structural, Hash, Copy, Clone)]
pub enum InvalidArgument {
    InvalidTimestamp,
    MissingArgument,
    InvalidId,
}

/// A failure met while reading one line of a cue sheet.
#[derive(Debug)]
pub enum ParseError {
    /// There is something wrong in the cue sheet
    SyntaxError(String),
    UnexpectedToken(String),
    InvalidArgument(InvalidArgument),
    /// There is nothing to parse or reaches eof
    Empty,
    /// Fails to read a file
    IoError(std::io::Error),
}

/// The mathematical value of a `ParseError`: the I/O cause is not modelled.
pub enum ParseErrorView {
    SyntaxError(Seq<char>),
    UnexpectedToken(Seq<char>),
    InvalidArgument(InvalidArgument),
    Empty,
    IoError,
}

impl View for ParseError {
    type V = ParseErrorView;

    open spec fn view(&self) -> ParseErrorView {
        match self {
            ParseError::SyntaxError(m) => ParseErrorView::SyntaxError(m@),
            ParseError::UnexpectedToken(m) => ParseErrorView::UnexpectedToken(m@),
            ParseError::InvalidArgument(a) => ParseErrorView::InvalidArgument(*a),
            ParseError::Empty => ParseErrorView::Empty,
            ParseError::IoError(_) => ParseErrorView::IoError,
        }
    }
}

/// The message of a syntax error about `content`.
pub open spec fn syntax_message(content: Seq<char>, description: Seq<char>) -> Seq<char> {
    content + ": "@ + description
}

impl ParseError {
    pub fn syntax_error(content: &str, description: &str) -> (r: Self)
        ensures
            r@ == ParseErrorView::SyntaxError(syntax_message(content@, description@)),
    {
        let mut m = String::from_str(content);
        m.append(": ");
        m.append(description);
        ParseError::SyntaxError(m)
    }

    pub fn unexpected_token(msg: &str) -> (r: Self)
        ensures
            r@ == ParseErrorView::UnexpectedToken(msg@),
    {
        ParseError::UnexpectedToken(String::from_str(msg))
    }

    pub fn err_msg(msg: &str) -> (r: Self)
        ensures
            r@ == ParseErrorView::SyntaxError(msg@),
    {
        ParseError::SyntaxError(String::from_str(msg))
    }
}

impl ParseError {
    pub(crate) fn is_empty_kind(&self) -> (r: bool)
        ensures
            r == (self@ == ParseErrorView::Empty),
    {
        match self {
            ParseError::Empty => true,
            _ => false,
        }
    }
}

impl PartialEq for ParseError {
    fn eq(&self, other: &Self) -> (r: bool)
        ensures
            r == (self@ == other@),
    {
        match self {
            ParseError::Empty => other.is_empty_kind(),
            ParseError::InvalidArgument(t) => match other {
                ParseError::InvalidArgument(t2) => *t == *t2,
                _ => false,
            },
            ParseError::SyntaxError(m) => match other {
                ParseError::SyntaxError(m2) => m.eq(m2),
                _ => false,
            },
            ParseError::UnexpectedToken(m) => match other {
                ParseError::UnexpectedToken(m2) => m.eq(m2),
                _ => false,
            },
            ParseError::IoError(_) => match other {
                ParseError::IoError(_) => true,
                _ => false,
            },
        }
    }
}

impl vstd::std_specs::cmp::PartialEqSpecImpl for ParseError {
    open spec fn obeys_eq_spec() -> bool {
        true
    }

    open spec fn eq_spec(&self, other: &ParseError) -> bool {
        self@ == other@
    }
}

/// A `ParseError` with the 1-based line on which it was met.
#[derive(Debug)]
pub struct Error {
    error: ParseError,
    at: Option<usize>,
}

impl View for Error {
    type V = (ParseErrorView, Option<usize>);

    closed spec fn view(&self) -> (ParseErrorView, Option<usize>) {
        (self.error@, self.at)
    }
}

impl Error {
    /// The error of kind `e` that names no line.
    pub closed spec fn from_parse_error_spec(e: ParseError) -> Error {
        Error { error: e, at: None }
    }

    pub fn new(error: ParseError, at: usize) -> (r: Self)
        ensures
            r@ == (error@, Some(at)),
    {
        Error { error, at: Some(at) }
    }

    pub fn from_parse_error(error: ParseError) -> (r: Self)
        ensures
            r@ == (error@, None::<usize>),
            r == Error::from_parse_error_spec(error),
    {
        Error { error, at: None }
    }

    pub fn kind(&self) -> (r: &ParseError)
        ensures
            r@ == self@.0,
    {
        &self.error
    }

    /// The line of the error; `pos` gives the same by value.
    pub fn at(&self) -> (r: &Option<usize>)
        ensures
            *r == self@.1,
    {
        &self.at
    }

    pub fn pos(&self) -> (r: Option<usize>)
        ensures
            r == self@.1,
    {
        self.at
    }

    pub(crate) fn set_pos(&mut self, pos: usize)
        ensures
            final(self)@ == (old(self)@.0, Some(pos)),
    {
        self.at = Some(pos);
    }
}

impl From<ParseError> for Error {
    fn from(e: ParseError) -> (r: Self)
        ensures
            r@ == (e@, None::<usize>),
            r == Error::from_parse_error_spec(e),
    {
        Error::from_parse_error(e)
    }
}

impl vstd::std_specs::convert::FromSpecImpl<ParseError> for Error {
    open spec fn obeys_from_spec() -> bool {
        true
    }

    open spec fn from_spec(e: ParseError) -> Error {
        Error::from_parse_error_spec(e)
    }
}

/// Errors compare by their kind alone, whatever line they name.
impl PartialEq for Error {
    fn eq(&self, other: &Self) -> (r: bool)
        ensures
            r == (self@.0 == other@.0),
    {
        self.error == other.error
    }
}

impl vstd::std_specs::cmp::PartialEqSpecImpl for Error {
    open spec fn obeys_eq_spec() -> bool {
        true
    }

    open spec fn eq_spec(&self, other: &Error) -> bool {
        self@.0 == other@.0
    }
}

} // verus!
