use vstd::prelude::*;

verus! {

/// Result of an interpreter step.
pub type BorthResult<T> = Result<T, BorthError>;

/// Failures of the language engine and of the program around it.
#[derive(Debug, Clone, Copy, PartialEq, Eq, Structural)]
pub enum BorthError {
    StackUnderflow,
    StackOverflow,
    InvalidWord,
    DivisionByZero,
    UnknownWord,
    IncompleteStatement,
    MissingArguments,
    TooManyArguments,
    BadArguments,
    CanNotReadFile,
    CanNotReadCode,
    CanNotWriteFile,
    CanNotWriteToOutput,
    RuntimeError,
}


/// Lower-case form of an ASCII capital; any other character is kept.
pub open spec fn ascii_lower(c: char) -> char {
    if 'A' <= c && c <= 'Z' {
        ((c as u32) + 32) as char
    } else {
        c
    }
}

/// Kebab-case of a CamelCase name: each capital becomes `-` and its lower
/// case, and the dashes at the start are dropped.
pub open spec fn kebab(s: Seq<char>) -> Seq<char> {
    trim_dashes(dash_capitals(s))
}

pub open spec fn dash_capitals(s: Seq<char>) -> Seq<char>
    decreases s.len(),
{
    if s.len() == 0 {
        Seq::empty()
    } else {
        let c = s.last();
        let tail = if 'A' <= c && c <= 'Z' {
            seq!['-', ascii_lower(c)]
        } else {
            seq![c]
        };
        dash_capitals(s.drop_last()) + tail
    }
}

pub open spec fn trim_dashes(s: Seq<char>) -> Seq<char>
    decreases s.len(),
{
    if s.len() > 0 && s[0] == '-' {
        trim_dashes(s.drop_first())
    } else {
        s
    }
}

impl BorthError {
    /// The variant's name, as written in the source.
    pub open spec fn spec_name(self) -> Seq<char> {
        match self {
            BorthError::StackUnderflow => "StackUnderflow"@,
            BorthError::StackOverflow => "StackOverflow"@,
            BorthError::InvalidWord => "InvalidWord"@,
            BorthError::DivisionByZero => "DivisionByZero"@,
            BorthError::UnknownWord => "UnknownWord"@,
            BorthError::IncompleteStatement => "IncompleteStatement"@,
            BorthError::MissingArguments => "MissingArguments"@,
            BorthError::TooManyArguments => "TooManyArguments"@,
            BorthError::BadArguments => "BadArguments"@,
            BorthError::CanNotReadFile => "CanNotReadFile"@,
            BorthError::CanNotReadCode => "CanNotReadCode"@,
            BorthError::CanNotWriteFile => "CanNotWriteFile"@,
            BorthError::CanNotWriteToOutput => "CanNotWriteToOutput"@,
            BorthError::RuntimeError => "RuntimeError"@,
        }
    }

    /// How the error is shown to the user: `?` for an unknown word, the
    /// kebab-cased name for every other error.
    pub open spec fn message(self) -> Seq<char> {
        match self {
            BorthError::UnknownWord => "?"@,
            _ => kebab(self.spec_name()),
        }
    }

    /// The variant's name.
    pub fn name(&self) -> (r: &'static str)
        ensures
            r@ == self.spec_name(),
    {
        match self {
            BorthError::StackUnderflow => "StackUnderflow",
            BorthError::StackOverflow => "StackOverflow",
            BorthError::InvalidWord => "InvalidWord",
            BorthError::DivisionByZero => "DivisionByZero",
            BorthError::UnknownWord => "UnknownWord",
            BorthError::IncompleteStatement => "IncompleteStatement",
            BorthError::MissingArguments => "MissingArguments",
            BorthError::TooManyArguments => "TooManyArguments",
            BorthError::BadArguments => "BadArguments",
            BorthError::CanNotReadFile => "CanNotReadFile",
            BorthError::CanNotReadCode => "CanNotReadCode",
            BorthError::CanNotWriteFile => "CanNotWriteFile",
            BorthError::CanNotWriteToOutput => "CanNotWriteToOutput",
            BorthError::RuntimeError => "RuntimeError",
        }
    }

    /// The text shown to the user for this error.
    pub fn to_string(&self) -> (r: String)
        ensures
            r@ == self.message(),
    {
        match self {
            BorthError::UnknownWord => String::from_str("?"),
            _ => to_kebabcase(String::from_str(self.name())),
        }
    }
}

/// Turns a CamelCase name into kebab-case (`StackUnderflow` becomes
/// `stack-underflow`).
pub fn to_kebabcase(str: String) -> (r: String)
    ensures
        r@ == kebab(str@),
{
    let chars = crate::text::chars_of(str.as_str());
    let mut dashed: Vec<char> = Vec::new();
    let mut i: usize = 0;
    while i < chars.len()
        invariant
            i <= chars.len(),
            chars@ == str@,
            dashed@ == dash_capitals(str@.take(i as int)),
        decreases chars.len() - i,
    {
        let c = chars[i];
        assert(str@.take(i + 1).drop_last() == str@.take(i as int));
        if 'A' <= c && c <= 'Z' {
            dashed.push('-');
            dashed.push(((c as u8) + 32) as char);
        } else {
            dashed.push(c);
        }
        i = i + 1;
    }
    assert(str@.take(chars.len() as int) == str@);
    let mut start: usize = 0;
    assert(dashed@.skip(0) == dashed@);
    while start < dashed.len() && dashed[start] == '-'
        invariant
            start <= dashed.len(),
            trim_dashes(dashed@) == trim_dashes(dashed@.skip(start as int)),
        decreases dashed.len() - start,
    {
        assert(dashed@.skip(start as int).drop_first() == dashed@.skip(start + 1));
        start = start + 1;
    }
    let mut r = String::new();
    let mut j: usize = start;
    while j < dashed.len()
        invariant
            start <= j <= dashed.len(),
            r@ == dashed@.subrange(start as int, j as int),
        decreases dashed.len() - j,
    {
        crate::text::push_char(&mut r, dashed[j]);
        assert(dashed@.subrange(start as int, j + 1) == dashed@.subrange(start as int, j as int).push(dashed@[j as int]));
        j = j + 1;
    }
    assert(dashed@.skip(start as int) == dashed@.subrange(start as int, dashed.len() as int));
    r
}

} // verus!
