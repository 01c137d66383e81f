//! Auth header configuration for remote MCP servers.
use vstd::prelude::*;
use crate::text::{ascii_lower, ascii_lowercase, chars_of, push_str, to_ascii_lowercase};

verus! {

/// How to authenticate to a remote MCP server. `None` for `header_name` means
/// the standard `Authorization: Bearer <token>` form; a custom name (e.g.
/// `X-Api-Key`) sends the raw token as that header's value.
pub struct McpAuth {
    pub header_name: Option<String>,
    pub token: String,
}

/// View of an [`McpAuth`]: the header name's characters, if one is set, and
/// the token's.
pub struct AuthView {
    pub header_name: Option<Seq<char>>,
    pub token: Seq<char>,
}

impl View for McpAuth {
    type V = AuthView;

    open spec fn view(&self) -> AuthView {
        AuthView {
            header_name: match self.header_name {
                Some(n) => Some(n@),
                None => None,
            },
            token: self.token@,
        }
    }
}

/// Two texts are equal once ASCII letters are folded to lower case.
pub open spec fn eq_ignore_ascii_case(a: Seq<char>, b: Seq<char>) -> bool {
    to_ascii_lowercase(a) == to_ascii_lowercase(b)
}

/// The `(name, value)` header that authenticates a request: the standard
/// `Authorization: Bearer <token>` when no name is set or the name is
/// `authorization` in any ASCII case, else the raw token under the custom
/// name.
pub open spec fn auth_header(auth: AuthView) -> (Seq<char>, Seq<char>) {
    match auth.header_name {
        None => ("Authorization"@, "Bearer "@ + auth.token),
        Some(name) => if eq_ignore_ascii_case(name, "authorization"@) {
            (name, "Bearer "@ + auth.token)
        } else {
            (name, auth.token)
        },
    }
}

/// What `{:?}` writes for a string: the text quoted, with `Debug` escapes.
pub uninterp spec fn debug_quoted(s: Seq<char>) -> Seq<char>;

/// The `Debug` rendering of the auth settings, with the token replaced by
/// `<redacted>`.
pub open spec fn redacted_text(auth: AuthView) -> Seq<char> {
    "McpAuth { header_name: "@ + match auth.header_name {
        None => "None"@,
        Some(name) => "Some("@ + debug_quoted(name) + ")"@,
    } + ", token: \"<redacted>\" }"@
}

/// `<str as Debug>::fmt` through `format!("{:?}")`: the quoted, escaped
/// form of a string, the named `debug_quoted` of its characters.
#[verifier::external_body]
fn debug_str(s: &str) -> (r: String)
    ensures
        r@ == debug_quoted(s@),
{
    format!("{:?}", s)
}

/// Whether two character slices are equal.
fn chars_equal(a: &[char], b: &[char]) -> (r: bool)
    ensures
        r == (a@ == b@),
{
    if a.len() != b.len() {
        return false;
    }
    let mut i: usize = 0;
    while i < a.len()
        invariant
            a@.len() == b@.len(),
            i <= a@.len(),
            forall|j: int| 0 <= j < i ==> a@[j] == b@[j],
        decreases a@.len() - i,
    {
        if a[i] != b[i] {
            return false;
        }
        i = i + 1;
    }
    assert(a@ =~= b@);
    true
}

/// Whether two strings are equal once ASCII letters are folded to lower case.
pub fn str_eq_ignore_ascii_case(a: &str, b: &str) -> (r: bool)
    ensures
        r == eq_ignore_ascii_case(a@, b@),
{
    let x = ascii_lowercase(chars_of(a).as_slice());
    let y = ascii_lowercase(chars_of(b).as_slice());
    chars_equal(x.as_slice(), y.as_slice())
}

impl McpAuth {
    /// Standard `Authorization: Bearer <token>`.
    pub fn bearer(token: &str) -> (r: Self)
        ensures
            r@.header_name is None,
            r@.token == token@,
    {
        McpAuth { header_name: None, token: token.to_owned() }
    }

    /// The `(header name, header value)` pair to attach to every request.
    pub fn header(&self) -> (r: (String, String))
        ensures
            (r.0@, r.1@) == auth_header(self@),
    {
        match &self.header_name {
            None => {
                let mut value = "Bearer ".to_owned();
                push_str(&mut value, self.token.as_str());
                ("Authorization".to_owned(), value)
            },
            Some(name) => {
                if str_eq_ignore_ascii_case(name.as_str(), "authorization") {
                    let mut value = "Bearer ".to_owned();
                    push_str(&mut value, self.token.as_str());
                    (name.clone(), value)
                } else {
                    (name.clone(), self.token.clone())
                }
            },
        }
    }

    /// The `Debug` text of these settings: the header name as it is, the
    /// token never.
    pub fn redacted_debug(&self) -> (r: String)
        ensures
            r@ == redacted_text(self@),
    {
        let mut out = "McpAuth { header_name: ".to_owned();
        match &self.header_name {
            None => push_str(&mut out, "None"),
            Some(name) => {
                push_str(&mut out, "Some(");
                let quoted = debug_str(name.as_str());
                push_str(&mut out, quoted.as_str());
                push_str(&mut out, ")");
            },
        }
        push_str(&mut out, ", token: \"<redacted>\" }");
        assert(out@ =~= redacted_text(self@));
        out
    }
}

/// The header carries the token: as its whole value, or after `Bearer `.
pub proof fn law_header_carries_token(auth: AuthView)
    ensures
        auth_header(auth).1 == auth.token || auth_header(auth).1 == "Bearer "@ + auth.token,
{
}

/// A configured header name is used as it is; without one the header is
/// `Authorization`.
pub proof fn law_header_name_is_configured(auth: AuthView)
    ensures
        auth_header(auth).0 == match auth.header_name {
            Some(n) => n,
            None => "Authorization"@,
        },
{
}

/// A configured header name that reads `authorization` once ASCII letters
/// are folded to lower case (`Authorization`, `AUTHORIZATION`, ...) gets the
/// value `Bearer <token>`; any other configured name gets the raw token.
pub proof fn law_bearer_iff_authorization(auth: AuthView, n: Seq<char>)
    requires
        auth.header_name == Some(n),
    ensures
        auth_header(auth).0 == n,
        to_ascii_lowercase(n) == "authorization"@ ==> auth_header(auth).1 == "Bearer "@
            + auth.token,
        to_ascii_lowercase(n) != "authorization"@ ==> auth_header(auth).1 == auth.token,
        auth_header(auth).1 == "Bearer "@ + auth.token <==> to_ascii_lowercase(n)
            == "authorization"@,
{
    reveal_strlit("authorization");
    reveal_strlit("Bearer ");
    let a = "authorization"@;
    assert(a.len() == 13);
    assert forall|i: int| 0 <= i < a.len() implies #[trigger] ascii_lower(a[i]) == a[i] by {
        assert(!('A' <= a[i] && a[i] <= 'Z'));
    }
    assert(to_ascii_lowercase(a) =~= a);
    assert(("Bearer "@ + auth.token).len() == auth.token.len() + 7);
}

/// The redacted `Debug` text does not depend on the token: settings that
/// differ only in their token render the same.
pub proof fn law_debug_ignores_token(a: AuthView, b: AuthView)
    requires
        a.header_name == b.header_name,
    ensures
        redacted_text(a) == redacted_text(b),
{
}

} // verus!
