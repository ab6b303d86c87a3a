//! The access predicate of a gated image set: a presented credential is let
//! through exactly when it is the configured one.
use vstd::prelude::*;
use vstd::string::StringExecFns;

verus! {

/// The HTTP status of a refused request.
pub const UNAUTHORIZED: u16 = 401;

/// Why a request was refused: always for want of the right credential.
#[derive(Debug, Clone, Copy, PartialEq, Eq, Structural)]
pub struct Denied {
    pub status: u16,
}

/// Where a deployment has its requests carry the credential.
#[derive(Debug, Clone, Copy, PartialEq, Eq, Structural)]
pub enum CredentialSource {
    /// In the `Authorization` header, as `Token`, a space and the token.
    Header,
    /// In a query parameter, as the bare token.
    Query,
}

/// The check of one gated set. It holds the text that an `Authorization`
/// header must carry: the word `Token`, a space and the secret.
#[derive(Debug, PartialEq, Eq)]
pub struct CheckToken {
    expected: String,
}

/// The `Authorization` header text that goes with the token `token`.
pub open spec fn header_for(token: Seq<char>) -> Seq<char> {
    "Token "@ + token
}

impl Clone for CheckToken {
    fn clone(&self) -> (r: Self)
        ensures
            r == *self,
    {
        CheckToken { expected: self.expected.clone() }
    }
}

impl CheckToken {
    /// The header text that this check lets through.
    pub closed spec fn expected_header(&self) -> Seq<char> {
        self.expected@
    }

    /// The check for the secret `token`.
    pub fn new(token: &str) -> (r: Self)
        ensures
            r.expected_header() == header_for(token@),
    {
        CheckToken { expected: String::from_str("Token ").concat(token) }
    }

    /// Decides on a request by its `Authorization` header, if it has one:
    /// `Ok` exactly when the header is present and equals the expected text,
    /// letter for letter; otherwise the refusal, with status 401.
    pub fn validate(&self, authorization: Option<&String>) -> (r: Result<(), Denied>)
        ensures
            r is Ok <==> authorization is Some && authorization.unwrap()@ == self.expected_header(),
            r is Err ==> r == Err::<(), Denied>(Denied { status: UNAUTHORIZED }),
    {
        match authorization {
            Some(actual) => {
                if *actual == self.expected {
                    Ok(())
                } else {
                    Err(Denied { status: UNAUTHORIZED })
                }
            },
            None => Err(Denied { status: UNAUTHORIZED }),
        }
    }

    /// Decides on what a request presents at the place that `source` names:
    /// `Ok` exactly when something is presented there and it is the right
    /// header text, or the right bare token; otherwise the refusal, with
    /// status 401.
    pub fn check(&self, source: CredentialSource, presented: Option<&String>) -> (r: Result<(), Denied>)
        ensures
            r is Ok <==> presented is Some && match source {
                CredentialSource::Header => presented.unwrap()@ == self.expected_header(),
                CredentialSource::Query => header_for(presented.unwrap()@) == self.expected_header(),
            },
            r is Err ==> r == Err::<(), Denied>(Denied { status: UNAUTHORIZED }),
    {
        match source {
            CredentialSource::Header => self.validate(presented),
            CredentialSource::Query => match presented {
                Some(token) => self.validate_query(token.as_str()),
                None => Err(Denied { status: UNAUTHORIZED }),
            },
        }
    }

    /// Decides on a request that presents a bare token, as a query parameter
    /// does: `Ok` exactly when the header text that goes with it is the
    /// expected one; otherwise the refusal, with status 401.
    pub fn validate_query(&self, token: &str) -> (r: Result<(), Denied>)
        ensures
            r is Ok <==> header_for(token@) == self.expected_header(),
            r is Err ==> r == Err::<(), Denied>(Denied { status: UNAUTHORIZED }),
    {
        let presented = String::from_str("Token ").concat(token);
        if presented == self.expected {
            Ok(())
        } else {
            Err(Denied { status: UNAUTHORIZED })
        }
    }
}

/// Two tokens go with the same header text only if they are the same token:
/// a check made for `secret` lets a bare token through exactly when it is
/// `secret`, and a header exactly when it is `Token`, a space and `secret`.
pub proof fn only_the_secret_passes(secret: Seq<char>, presented: Seq<char>)
    ensures
        header_for(presented) == header_for(secret) <==> presented == secret,
{
    let prefix = "Token "@;
    if header_for(presented) == header_for(secret) {
        assert(header_for(presented).subrange(prefix.len() as int, header_for(presented).len() as int)
            =~= presented);
        assert(header_for(secret).subrange(prefix.len() as int, header_for(secret).len() as int)
            =~= secret);
    }
}

} // verus!
