//! The authentication schemes that a client can present.
use vstd::prelude::*;

verus! {

/// The scheme of an `authorization` header.
#[derive(Debug, Clone, Copy, PartialEq, Eq, Structural)]
pub enum AuthType {
    Basic,
    Bearer,
}

/// The canonical name of a scheme, as it is written in a header.
pub open spec fn auth_type_name(t: AuthType) -> Seq<char> {
    match t {
        AuthType::Basic => seq!['B', 'a', 's', 'i', 'c'],
        AuthType::Bearer => seq!['B', 'e', 'a', 'r', 'e', 'r'],
    }
}

impl AuthType {
    /// The canonical name of the scheme.
    pub fn to_string(&self) -> (res: String)
        ensures
            res@ == auth_type_name(*self),
    {
        match self {
            AuthType::Basic => {
                let s = String::from_str("Basic");
                proof { reveal_strlit("Basic"); }
                s
            },
            AuthType::Bearer => {
                let s = String::from_str("Bearer");
                proof { reveal_strlit("Bearer"); }
                s
            },
        }
    }
}

/// The failure to read a scheme from its name.
#[derive(Debug, Clone, Copy, PartialEq, Eq, Structural)]
pub enum AuthTypeParseError {
    /// The text names no scheme.
    VariantNotFound,
}

/// `c` with an ASCII upper-case letter turned into lower case.
pub open spec fn ascii_lower(c: char) -> char {
    if 'A' <= c && c <= 'Z' {
        ((c as int) + 32) as char
    } else {
        c
    }
}

/// Whether two texts are equal up to the case of ASCII letters.
pub open spec fn eq_ignore_ascii_case_spec(a: Seq<char>, b: Seq<char>) -> bool {
    &&& a.len() == b.len()
    &&& forall|i: int| 0 <= i < a.len() ==> ascii_lower(#[trigger] a[i]) == ascii_lower(b[i])
}

/// The scheme that a text names: its canonical name in any case of ASCII letters.
pub open spec fn parse_auth_type_spec(s: Seq<char>) -> Result<AuthType, AuthTypeParseError> {
    if eq_ignore_ascii_case_spec(s, auth_type_name(AuthType::Basic)) {
        Ok(AuthType::Basic)
    } else if eq_ignore_ascii_case_spec(s, auth_type_name(AuthType::Bearer)) {
        Ok(AuthType::Bearer)
    } else {
        Err(AuthTypeParseError::VariantNotFound)
    }
}

fn ascii_lower_code(c: char) -> (res: u32)
    ensures
        res == ascii_lower(c) as u32,
{
    if 'A' <= c && c <= 'Z' {
        (c as u32) + 32
    } else {
        c as u32
    }
}

/// Whether two texts are equal up to the case of ASCII letters.
pub fn eq_ignore_ascii_case(a: &str, b: &str) -> (res: bool)
    ensures
        res == eq_ignore_ascii_case_spec(a@, b@),
{
    let n = a.unicode_len();
    let m = b.unicode_len();
    if n != m {
        return false;
    }
    let mut i: usize = 0;
    while i < n
        invariant
            n == a@.len(),
            m == b@.len(),
            n == m,
            i <= n,
            forall|j: int| 0 <= j < i ==> ascii_lower(#[trigger] a@[j]) == ascii_lower(b@[j]),
        decreases n - i,
    {
        let x = ascii_lower_code(a.get_char(i));
        let y = ascii_lower_code(b.get_char(i));
        if x != y {
            return false;
        }
        i = i + 1;
    }
    true
}

/// Reads a scheme from its name, in any case of ASCII letters.
pub fn parse_auth_type(s: &str) -> (res: Result<AuthType, AuthTypeParseError>)
    ensures
        res == parse_auth_type_spec(s@),
{
    proof {
        reveal_strlit("Basic");
        reveal_strlit("Bearer");
    }
    assert("Basic"@ =~= auth_type_name(AuthType::Basic));
    assert("Bearer"@ =~= auth_type_name(AuthType::Bearer));
    if eq_ignore_ascii_case(s, "Basic") {
        Ok(AuthType::Basic)
    } else if eq_ignore_ascii_case(s, "Bearer") {
        Ok(AuthType::Bearer)
    } else {
        Err(AuthTypeParseError::VariantNotFound)
    }
}

impl std::str::FromStr for AuthType {
    type Err = AuthTypeParseError;

    fn from_str(s: &str) -> (res: Result<AuthType, AuthTypeParseError>)
        ensures
            res == parse_auth_type_spec(s@),
    {
        parse_auth_type(s)
    }
}

/// Reading the canonical name of a scheme gives the scheme back.
pub proof fn lemma_auth_type_name_round_trip(t: AuthType)
    ensures
        parse_auth_type_spec(auth_type_name(t)) == Ok::<AuthType, AuthTypeParseError>(t),
{
    let basic = auth_type_name(AuthType::Basic);
    let bearer = auth_type_name(AuthType::Bearer);
    assert(eq_ignore_ascii_case_spec(basic, basic));
    assert(eq_ignore_ascii_case_spec(bearer, bearer));
    assert(!eq_ignore_ascii_case_spec(bearer, basic));
}

} // verus!
