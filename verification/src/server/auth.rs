//! How the server checks the credentials that a client presents: the
//! scheme and the credentials are read from the `authorization` header and
//! handed to a script.
use vstd::prelude::*;

use crate::common::{
    auth_type_name, lemma_auth_type_name_round_trip, parse_auth_type, parse_auth_type_spec,
    AuthType, AuthTypeParseError,
};
use crate::text::{
    concat, is_white_space, lemma_words_from_run, split_words, views, words_from, words_spec,
};

verus! {

/// Checks credentials with a script.
#[derive(Clone)]
pub struct AuthServiceImpl {
    auth_script_file: String,
}

/// Whether an `authorization` header can be read without running off its
/// end: it has a first word, and a second one where the first names a
/// scheme.
pub open spec fn header_is_complete(token: Seq<char>) -> bool {
    &&& words_spec(token).len() >= 1
    &&& parse_auth_type_spec(words_spec(token)[0]) is Ok ==> words_spec(token).len() >= 2
}

/// Reading the header that a client sends (the scheme's name, a space and
/// the credentials) gives back the scheme and the credentials, where the
/// credentials are not empty and hold no white space.
pub proof fn lemma_client_header_reads_back(t: AuthType, credentials: Seq<char>)
    requires
        credentials.len() > 0,
        forall|i: int| 0 <= i < credentials.len() ==> !is_white_space(#[trigger] credentials[i]),
    ensures
        ({
            let header = auth_type_name(t) + seq![' '] + credentials;
            &&& header_is_complete(header)
            &&& words_spec(header) == seq![auth_type_name(t), credentials]
            &&& parse_auth_type_spec(words_spec(header)[0]) == Ok::<AuthType, AuthTypeParseError>(t)
        }),
{
    let name = auth_type_name(t);
    let empty = Seq::<char>::empty();
    let rest = seq![' '] + credentials;
    assert(forall|i: int| 0 <= i < name.len() ==> !is_white_space(#[trigger] name[i]));
    assert(name + seq![' '] + credentials =~= name + rest);
    lemma_words_from_run(name, rest, empty);
    assert(empty + name =~= name);
    assert(rest[0] == ' ');
    assert(rest.drop_first() =~= credentials);
    assert(words_from(rest, name) == seq![name] + words_from(credentials, empty));
    lemma_words_from_run(credentials, empty, empty);
    assert(credentials + empty =~= credentials);
    assert(empty + credentials =~= credentials);
    assert(words_from(credentials, empty) == seq![credentials]);
    assert(seq![name] + seq![credentials] =~= seq![name, credentials]);
    lemma_auth_type_name_round_trip(t);
}

/// Whether a request is let through: it must carry an `authorization`
/// header that is valid text (`header`), and the check of its credentials
/// (`verdict`, where it was run) must have passed.
pub fn admit_request(header: Option<&str>, verdict: Option<bool>) -> (res: bool)
    ensures
        res == (header is Some && verdict == Some(true)),
{
    match header {
        Some(_) => match verdict {
            Some(v) => v,
            None => false,
        },
        None => false,
    }
}

impl AuthServiceImpl {
    /// The script that checks credentials.
    pub closed spec fn script(&self) -> Seq<char> {
        self.auth_script_file@
    }

    /// A service that checks credentials with the script `auth_script_file`.
    pub fn new(auth_script_file: String) -> (res: AuthServiceImpl)
        ensures
            res.script() == auth_script_file@,
    {
        AuthServiceImpl { auth_script_file }
    }

    /// Reads an `authorization` header: its first word names the scheme, in
    /// any case of ASCII letters, and its second word is the credentials.
    /// Fails where the first word names no scheme.
    pub fn read_authorization(&self, token: &str) -> (res: Result<(AuthType, String), AuthTypeParseError>)
        requires
            header_is_complete(token@),
        ensures
            match res {
                Ok((t, c)) => parse_auth_type_spec(words_spec(token@)[0]) == Ok::<AuthType, AuthTypeParseError>(t)
                    && c@ == words_spec(token@)[1],
                Err(e) => parse_auth_type_spec(words_spec(token@)[0]) == Err::<AuthType, AuthTypeParseError>(e),
            },
    {
        let header_parts = split_words(token);
        assert(views(header_parts@)[0] == header_parts@[0]@);
        let auth_type = match parse_auth_type(header_parts[0].as_str()) {
            Ok(t) => t,
            Err(e) => return Err(e),
        };
        assert(views(header_parts@)[1] == header_parts@[1]@);
        let credentials = header_parts[1].as_str().to_owned();
        Ok((auth_type, credentials))
    }

    /// The command that checks credentials kept in the file
    /// `credentials_path`: the script, then the scheme's name and the path,
    /// each in single quotes.
    pub fn verify_command(&self, auth_type: AuthType, credentials_path: &str) -> (res: String)
        ensures
            res@ == self.script() + seq![' ', '\''] + auth_type_name(auth_type) + seq!['\'', ' ', '\'']
                + credentials_path@ + seq!['\''],
    {
        let mut s = concat(self.auth_script_file.as_str(), " '");
        let name = auth_type.to_string();
        s.append(name.as_str());
        s.append("' '");
        s.append(credentials_path);
        s.append("'");
        proof {
            reveal_strlit(" '");
            reveal_strlit("' '");
            reveal_strlit("'");
        }
        assert(s@ =~= self.script() + seq![' ', '\''] + auth_type_name(auth_type) + seq!['\'', ' ', '\'']
                + credentials_path@ + seq!['\'']);
        s
    }
}

impl Default for AuthServiceImpl {
    fn default() -> (res: AuthServiceImpl)
        ensures
            res.script() == Seq::<char>::empty(),
    {
        AuthServiceImpl { auth_script_file: String::new() }
    }
}

} // verus!
