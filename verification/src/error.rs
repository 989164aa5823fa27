use vstd::prelude::*;

verus! {

/// The result of an operation that can fail with a compilation error.
pub type ParseResult<T> = Result<T, ParseError>;

/// The category of a failed native compilation, decoded from the numeric
/// error class of the native error record.
#[derive(Clone, Copy, Debug, PartialEq, Eq, Structural)]
pub enum ParseErrorKind {
    Unknown,
    Syntax,
    Token,
    Numeric,
    Symtab,
    Lexer,
    Helper,
}

/// The error class that the given numeric code of the native error record
/// stands for, if any.
pub open spec fn spec_kind_from_code(code: int) -> Option<ParseErrorKind> {
    if code == 0 {
        Some(ParseErrorKind::Unknown)
    } else if code == 1 {
        Some(ParseErrorKind::Syntax)
    } else if code == 2 {
        Some(ParseErrorKind::Token)
    } else if code == 3 {
        Some(ParseErrorKind::Numeric)
    } else if code == 4 {
        Some(ParseErrorKind::Symtab)
    } else if code == 5 {
        Some(ParseErrorKind::Lexer)
    } else {
        if code == 6 {
            Some(ParseErrorKind::Helper)
        } else {
            None
        }
    }
}

impl ParseErrorKind {
    /// Decodes the numeric error class of the native error record.
    pub fn from_code(code: i32) -> (r: Option<ParseErrorKind>)
        ensures
            r == spec_kind_from_code(code as int),
    {
        match code {
            0 => Some(ParseErrorKind::Unknown),
            1 => Some(ParseErrorKind::Syntax),
            2 => Some(ParseErrorKind::Token),
            3 => Some(ParseErrorKind::Numeric),
            4 => Some(ParseErrorKind::Symtab),
            5 => Some(ParseErrorKind::Lexer),
            6 => Some(ParseErrorKind::Helper),
            _ => None,
        }
    }
}

/// A rejected identifier: the name contains a null byte or a non-ASCII
/// byte. Detected locally, before the name ever reaches the native layer.
#[derive(Debug, PartialEq)]
pub struct InvalidName(pub String);

/// The pending error record of the native compiler, carried as plain
/// values. Valid only immediately after a failed compile.
#[derive(Debug)]
pub struct ErrorRecord {
    pub is_err: bool,
    pub mode: i32,
    pub token_type: String,
    pub token_value: String,
    pub diagnostic: String,
    pub error_line: String,
    pub line_no: usize,
    pub column_no: usize,
}

/// A structured, comparable native compilation failure.
#[derive(Debug, PartialEq)]
pub struct ParseError {
    pub kind: ParseErrorKind,
    pub token_type: String,
    pub token_value: String,
    pub message: String,
    pub line: String,
    pub line_no: usize,
    pub column_no: usize,
}

impl ParseError {
    /// A synthetic syntax-class error produced locally, without native
    /// involvement, for input rejected before compilation.
    pub fn simple_syntax(s: &str, msg: &str) -> (r: ParseError)
        ensures
            r.kind == ParseErrorKind::Syntax,
            r.token_type@ == Seq::<char>::empty(),
            r.token_value@ == s@,
            r.message@ == msg@,
            r.line@ == Seq::<char>::empty(),
            r.line_no == 1,
            r.column_no == 1,
    {
        ParseError {
            kind: ParseErrorKind::Syntax,
            token_type: String::new(),
            token_value: s.to_owned(),
            message: msg.to_owned(),
            line: String::new(),
            line_no: 1,
            column_no: 1,
        }
    }

    /// Decodes the native error record into a structured error, or nothing
    /// when the record reports no pending error. A set error flag together
    /// with an error class outside the known range would be an internal
    /// invariant violation of the native layer, so that case is excluded.
    pub fn from_record(rec: &ErrorRecord) -> (r: Option<ParseError>)
        requires
            rec.is_err ==> spec_kind_from_code(rec.mode as int) is Some,
        ensures
            match r {
                Some(e) => {
                    &&& rec.is_err
                    &&& Some(e.kind) == spec_kind_from_code(rec.mode as int)
                    &&& e.token_type@ == rec.token_type@
                    &&& e.token_value@ == rec.token_value@
                    &&& e.message@ == rec.diagnostic@
                    &&& e.line@ == rec.error_line@
                    &&& e.line_no == rec.line_no
                    &&& e.column_no == rec.column_no
                },
                None => !rec.is_err,
            },
    {
        if rec.is_err {
            let kind = match ParseErrorKind::from_code(rec.mode) {
                Some(k) => k,
                None => {
                    assert(false);
                    ParseErrorKind::Unknown
                },
            };
            Some(ParseError {
                kind,
                token_type: rec.token_type.clone(),
                token_value: rec.token_value.clone(),
                message: rec.diagnostic.clone(),
                line: rec.error_line.clone(),
                line_no: rec.line_no,
                column_no: rec.column_no,
            })
        } else {
            None
        }
    }

    /// The error used when an identifier or a formula is rejected before
    /// reaching the native layer.
    pub fn from_invalid_name(e: InvalidName) -> (r: ParseError)
        ensures
            r.kind == ParseErrorKind::Syntax,
            r.token_type@ == Seq::<char>::empty(),
            r.token_value@ == e.0@,
            r.message@ == "Non-ASCII character or null byte found in formula"@,
            r.line@ == Seq::<char>::empty(),
            r.line_no == 1,
            r.column_no == 1,
    {
        ParseError::simple_syntax(e.0.as_str(), "Non-ASCII character or null byte found in formula")
    }
}

impl Clone for ParseError {
    /// An exact copy, field for field.
    fn clone(&self) -> (r: Self)
        ensures
            r == *self,
    {
        ParseError {
            kind: self.kind,
            token_type: self.token_type.clone(),
            token_value: self.token_value.clone(),
            message: self.message.clone(),
            line: self.line.clone(),
            line_no: self.line_no,
            column_no: self.column_no,
        }
    }
}

} // verus!
