use vstd::prelude::*;
use vstd::string::StrSliceExecFns;

verus! {

/// Shortest connection identifier, in characters.
pub const CONNECTION_ID_MIN_LEN: usize = 10;

/// Longest connection identifier, in characters.
pub const CONNECTION_ID_MAX_LEN: usize = 64;

/// Why an identifier was refused.
#[derive(Clone, Copy, Debug, PartialEq, Eq, Structural)]
pub enum IdentifierError {
    Empty,
    ContainsSeparator,
    InvalidLength { length: usize, min: usize, max: usize },
    InvalidCharacter,
}

/// The characters allowed in an identifier: ASCII letters and digits and
/// `._+-#[]<>`.
pub open spec fn valid_id_char(c: char) -> bool {
    ('a' <= c && c <= 'z') || ('A' <= c && c <= 'Z') || ('0' <= c && c <= '9') || c == '.' || c
        == '_' || c == '+' || c == '-' || c == '#' || c == '[' || c == ']' || c == '<' || c == '>'
}

/// The first rule that `s` breaks as an identifier of `min` to `max`
/// characters, if any.
pub open spec fn id_error(s: Seq<char>, min: usize, max: usize) -> Option<IdentifierError> {
    if s.len() == 0 {
        Some(IdentifierError::Empty)
    } else if s.contains('/') {
        Some(IdentifierError::ContainsSeparator)
    } else if s.len() < min || s.len() > max {
        Some(IdentifierError::InvalidLength { length: s.len() as usize, min, max })
    } else if exists|i: int| 0 <= i < s.len() && !valid_id_char(#[trigger] s[i]) {
        Some(IdentifierError::InvalidCharacter)
    } else {
        None
    }
}

pub open spec fn connection_id_error(s: Seq<char>) -> Option<IdentifierError> {
    id_error(s, CONNECTION_ID_MIN_LEN, CONNECTION_ID_MAX_LEN)
}

fn is_valid_id_char(c: char) -> (r: bool)
    ensures
        r == valid_id_char(c),
{
    ('a' <= c && c <= 'z') || ('A' <= c && c <= 'Z') || ('0' <= c && c <= '9') || c == '.' || c
        == '_' || c == '+' || c == '-' || c == '#' || c == '[' || c == ']' || c == '<' || c == '>'
}

/// Checks `id` against the identifier rules, in order: not empty, no `/`,
/// between `min` and `max` characters, only allowed characters.
pub fn validate_identifier(id: &str, min: usize, max: usize) -> (r: Result<(), IdentifierError>)
    ensures
        r is Ok <==> id_error(id@, min, max) is None,
        r matches Err(e) ==> id_error(id@, min, max) == Some(e),
{
    let n = id.unicode_len();
    if n == 0 {
        return Err(IdentifierError::Empty);
    }
    let mut i: usize = 0;
    while i < n
        invariant
            n == id@.len(),
            0 <= i <= n,
            forall|k: int| 0 <= k < i ==> id@[k] != '/',
        decreases n - i,
    {
        if id.get_char(i) == '/' {
            proof {
                assert(id@.contains('/'));
            }
            return Err(IdentifierError::ContainsSeparator);
        }
        i = i + 1;
    }
    assert(!id@.contains('/'));
    if n < min || n > max {
        return Err(IdentifierError::InvalidLength { length: n, min, max });
    }
    let mut i: usize = 0;
    while i < n
        invariant
            n == id@.len(),
            0 <= i <= n,
            forall|k: int| 0 <= k < i ==> valid_id_char(#[trigger] id@[k]),
            !id@.contains('/'),
            min <= n <= max,
        decreases n - i,
    {
        if !is_valid_id_char(id.get_char(i)) {
            assert(!valid_id_char(id@[i as int]));
            return Err(IdentifierError::InvalidCharacter);
        }
        i = i + 1;
    }
    Ok(())
}

/// The identifier of a connection; only `parse` makes one, so it always
/// obeys the identifier rules.
#[derive(Debug)]
pub struct ConnectionId {
    id: String,
}

impl View for ConnectionId {
    type V = Seq<char>;

    closed spec fn view(&self) -> Seq<char> {
        self.id@
    }
}

impl ConnectionId {
    #[verifier::type_invariant]
    spec fn inv(&self) -> bool {
        connection_id_error(self.id@) is None
    }

    /// Parses a connection identifier.
    pub fn parse(id: &str) -> (r: Result<ConnectionId, IdentifierError>)
        ensures
            r is Ok <==> connection_id_error(id@) is None,
            r matches Ok(c) ==> c@ == id@,
            r matches Err(e) ==> connection_id_error(id@) == Some(e),
    {
        match validate_identifier(id, CONNECTION_ID_MIN_LEN, CONNECTION_ID_MAX_LEN) {
            Ok(()) => Ok(ConnectionId { id: id.to_owned() }),
            Err(e) => Err(e),
        }
    }

    pub fn as_str(&self) -> (r: &str)
        ensures
            r@ == self@,
            connection_id_error(r@) is None,
    {
        proof {
            use_type_invariant(self);
        }
        self.id.as_str()
    }

    pub fn into_string(self) -> (r: String)
        ensures
            r@ == self@,
            connection_id_error(r@) is None,
    {
        proof {
            use_type_invariant(&self);
        }
        self.id
    }
}

} // verus!
