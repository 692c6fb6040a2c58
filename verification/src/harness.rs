//! Value types of the integration-test harness: validated database
//! names, the errors of test database set-up, and path and URL wrappers.

use vstd::prelude::*;
use std::collections::VecDeque;

verus! {

/// Longest database name, in bytes, that PostgreSQL accepts.
pub const MAX_DATABASE_NAME_LEN: usize = 63;

/// Characters with the Unicode `White_Space` property.
pub open spec fn unicode_whitespace(c: char) -> bool {
    let u = c as u32;
    (0x09 <= u <= 0x0d) || u == 0x20 || u == 0x85 || u == 0xa0 || u == 0x1680
        || (0x2000 <= u <= 0x200a) || u == 0x2028 || u == 0x2029 || u == 0x202f || u == 0x205f
        || u == 0x3000
}

/// ASCII letters, ASCII digits and the underscore.
pub open spec fn name_char(c: char) -> bool {
    ('0' <= c <= '9') || ('A' <= c <= 'Z') || ('a' <= c <= 'z') || c == '_'
}

/// Whether `c` has the Unicode `White_Space` property.
pub fn is_whitespace(c: char) -> (b: bool)
    ensures
        b == unicode_whitespace(c),
{
    let u = c as u32;
    (0x09 <= u && u <= 0x0d) || u == 0x20 || u == 0x85 || u == 0xa0 || u == 0x1680
        || (0x2000 <= u && u <= 0x200a) || u == 0x2028 || u == 0x2029 || u == 0x202f || u == 0x205f
        || u == 0x3000
}

/// Whether `c` may stand in a database name.
pub fn is_name_char(c: char) -> (b: bool)
    ensures
        b == name_char(c),
{
    ('0' <= c && c <= '9') || ('A' <= c && c <= 'Z') || ('a' <= c && c <= 'z') || c == '_'
}

/// Validation errors of [`DatabaseName::new`].
#[derive(Clone, Copy, Debug, PartialEq, Eq, Structural)]
pub enum DatabaseNameError {
    /// The name is empty or holds only whitespace.
    Empty,
    /// The name is longer than 63 bytes.
    TooLong,
    /// The name holds a character other than an ASCII letter, digit or `_`.
    InvalidCharacters,
}

impl DatabaseNameError {
    /// Text of [`Self::message`].
    pub open spec fn spec_message(self) -> &'static str {
        match self {
            DatabaseNameError::Empty => "database name cannot be empty",
            DatabaseNameError::TooLong => "database name cannot exceed 63 characters",
            DatabaseNameError::InvalidCharacters => "database name contains invalid characters",
        }
    }

    /// Human-readable description of the error.
    pub fn message(&self) -> (m: &'static str)
        ensures
            m == self.spec_message(),
    {
        match self {
            DatabaseNameError::Empty => "database name cannot be empty",
            DatabaseNameError::TooLong => "database name cannot exceed 63 characters",
            DatabaseNameError::InvalidCharacters => "database name contains invalid characters",
        }
    }
}

/// Outcome of validating a database name.
pub open spec fn spec_validate_name(name: Seq<char>) -> Result<(), DatabaseNameError> {
    if forall|i: int| 0 <= i < name.len() ==> unicode_whitespace(#[trigger] name[i]) {
        Err(DatabaseNameError::Empty)
    } else if vstd::utf8::encode_utf8(name).len() > MAX_DATABASE_NAME_LEN {
        Err(DatabaseNameError::TooLong)
    } else if !(forall|i: int| 0 <= i < name.len() ==> name_char(#[trigger] name[i])) {
        Err(DatabaseNameError::InvalidCharacters)
    } else {
        Ok(())
    }
}

/// A validated PostgreSQL database name.
#[derive(Clone, Debug)]
pub struct DatabaseName(String);

impl DatabaseName {
    /// The characters of the name.
    pub closed spec fn spec_name(&self) -> Seq<char> {
        self.0@
    }

    /// Validate `name`: it must hold a non-whitespace character, be at
    /// most 63 bytes long, and hold only ASCII letters, digits and `_`.
    pub fn new(name: String) -> (r: Result<Self, DatabaseNameError>)
        ensures
            match spec_validate_name(name@) {
                Ok(()) => r matches Ok(n) && n.spec_name() == name@,
                Err(e) => r == Err::<Self, DatabaseNameError>(e),
            },
    {
        let s = name.as_str();
        let n = s.unicode_len();
        let mut i: usize = 0;
        let mut blank = true;
        while i < n
            invariant
                n == s@.len(),
                s@ == name@,
                i <= n,
                blank == forall|j: int| 0 <= j < i ==> unicode_whitespace(#[trigger] s@[j]),
            decreases n - i,
        {
            let c = s.get_char(i);
            if !is_whitespace(c) {
                blank = false;
            }
            i = i + 1;
            assert(blank == forall|j: int| 0 <= j < i ==> unicode_whitespace(#[trigger] s@[j])) by {
                if !blank && !unicode_whitespace(c) {
                    assert(!unicode_whitespace(s@[i - 1]));
                }
            }
        }
        if blank {
            return Err(DatabaseNameError::Empty);
        }
        if s.as_bytes().len() > MAX_DATABASE_NAME_LEN {
            return Err(DatabaseNameError::TooLong);
        }
        let mut k: usize = 0;
        while k < n
            invariant
                n == s@.len(),
                s@ == name@,
                k <= n,
                forall|j: int| 0 <= j < k ==> name_char(#[trigger] s@[j]),
                !(forall|j: int| 0 <= j < name@.len() ==> unicode_whitespace(#[trigger] name@[j])),
                vstd::utf8::encode_utf8(name@).len() <= MAX_DATABASE_NAME_LEN,
            decreases n - k,
        {
            let c = s.get_char(k);
            if !is_name_char(c) {
                assert(!name_char(s@[k as int]));
                return Err(DatabaseNameError::InvalidCharacters);
            }
            k = k + 1;
        }
        Ok(DatabaseName(name))
    }

    /// The name as a string slice.
    pub fn as_str(&self) -> (s: &str)
        ensures
            s@ == self.spec_name(),
    {
        self.0.as_str()
    }
}

/// A PostgreSQL server could not be reached.
#[derive(Clone, Copy, Debug, PartialEq, Eq)]
pub struct PostgresUnavailable;

impl PostgresUnavailable {
    /// Text of [`Self::message`].
    pub open spec fn spec_message(self) -> &'static str {
        "PostgreSQL server unreachable"
    }

    /// Human-readable description of the error.
    pub fn message(&self) -> (m: &'static str)
        ensures
            m == self.spec_message(),
    {
        "PostgreSQL server unreachable"
    }
}

/// Errors of test database set-up.
#[derive(Clone, Debug, PartialEq, Eq)]
pub enum PostgresTestDbError {
    /// The server is missing or unreachable.
    Unavailable(PostgresUnavailable),
    /// Set-up failed for another reason, described by the message.
    InitFailed(String),
}

impl PostgresTestDbError {
    /// The error for an unreachable server.
    pub fn from_unavailable(e: PostgresUnavailable) -> (r: Self)
        ensures
            r == PostgresTestDbError::Unavailable(e),
    {
        PostgresTestDbError::Unavailable(e)
    }

    /// Whether the error says the server is unavailable.
    pub fn is_unavailable(&self) -> (b: bool)
        ensures
            b == (*self is Unavailable),
    {
        match self {
            PostgresTestDbError::Unavailable(_) => true,
            PostgresTestDbError::InitFailed(_) => false,
        }
    }
}

/// Path to a Cargo manifest.
#[derive(Clone, Debug)]
pub struct ManifestPath(String);

impl ManifestPath {
    /// The characters of the path.
    pub closed spec fn spec_path(&self) -> Seq<char> {
        self.0@
    }

    /// Wrap a path.
    pub fn new(path: String) -> (p: Self)
        ensures
            p.spec_path() == path@,
    {
        ManifestPath(path)
    }

    /// The path as a string slice.
    pub fn as_str(&self) -> (s: &str)
        ensures
            s@ == self.spec_path(),
    {
        self.0.as_str()
    }
}

/// A database connection URL.
#[derive(Clone, Debug)]
pub struct DbUrl(String);

impl DbUrl {
    /// The characters of the URL.
    pub closed spec fn spec_url(&self) -> Seq<char> {
        self.0@
    }

    /// Wrap a URL.
    pub fn new(url: String) -> (u: Self)
        ensures
            u.spec_url() == url@,
    {
        DbUrl(url)
    }

    /// The URL as a string slice.
    pub fn as_str(&self) -> (s: &str)
        ensures
            s@ == self.spec_url(),
    {
        self.0.as_str()
    }
}

/// The reason `url::Url::parse` refused a string.
#[verifier::external_type_specification]
#[verifier::external_body]
pub struct ExUrlParseError(url::ParseError);

/// Whether `url::Url::parse` accepts the string as an absolute URL.
pub uninterp spec fn url_parses(s: Seq<char>) -> bool;

/// Runs `url::Url::parse` on `s` and keeps whether it succeeded, with the
/// error on failure. The contract claims only that success is a function of
/// the string; which error variant comes back is left unsaid.
#[verifier::external_body]
fn check_url(s: &str) -> (r: Result<(), url::ParseError>)
    ensures
        r is Ok <==> url_parses(s@),
{
    match url::Url::parse(s) {
        Ok(_) => Ok(()),
        Err(e) => Err(e),
    }
}

/// A PostgreSQL connection URL that parses as an absolute URL.
#[derive(Clone, Debug)]
pub struct DatabaseUrl(String);

impl DatabaseUrl {
    /// The characters of the URL.
    pub closed spec fn spec_url(&self) -> Seq<char> {
        self.0@
    }

    /// Accept `url` when it parses as an absolute URL, keeping it as written.
    pub fn parse(url: &str) -> (r: Result<Self, url::ParseError>)
        ensures
            r is Ok <==> url_parses(url@),
            r matches Ok(d) ==> d.spec_url() == url@,
    {
        match check_url(url) {
            Ok(()) => Ok(DatabaseUrl(url.to_owned())),
            Err(e) => Err(e),
        }
    }

    /// The URL as a string slice.
    pub fn as_str(&self) -> (s: &str)
        ensures
            s@ == self.spec_url(),
    {
        self.0.as_str()
    }
}

/// Keep `line` among the last `max_lines` lines of a diagnostic log: with
/// room to spare it is appended; when the log is full the oldest line
/// makes way; with no room at all nothing is kept.
pub fn record_diagnostic_line(lines: &mut VecDeque<String>, max_lines: usize, line: &str)
    ensures
        max_lines == 0 ==> final(lines)@ == old(lines)@,
        max_lines > 0 ==> {
            let kept = if old(lines)@.len() == max_lines { old(lines)@.drop_first() } else { old(lines)@ };
            &&& final(lines)@.len() == kept.len() + 1
            &&& final(lines)@.take(kept.len() as int) == kept
            &&& final(lines)@[kept.len() as int]@ == line@
        },
        old(lines)@.len() <= max_lines ==> final(lines)@.len() <= max_lines,
{
    if max_lines == 0 {
        return;
    }
    if lines.len() == max_lines {
        let _ = lines.pop_front();
    }
    let ghost kept = lines@;
    lines.push_back(line.to_owned());
    assert(lines@.take(kept.len() as int) =~= kept);
}

} // verus!
