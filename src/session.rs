//! The single-sign-on handshake: the login form and the check that the
//! cookie store received the authentication cookie.
use vstd::prelude::*;

use crate::codec::chars_of;

verus! {

/// The endpoint the login form is posted to.
pub const SAP_LOGIN_FORM_REQUEST_URL: &'static str = "https://hana-prd-ap-4.ssu.ac.kr:8443/sap/bc/webdynpro/sap";

/// The browser user agent sent with every request.
pub const DEFAULT_USER_AGENT: &'static str = "Mozilla/5.0 (Windows NT 10.0; Win64; x64) AppleWebKit/537.36 (KHTML, like Gecko) Chrome/116.0.0.0 Safari/537.36";

/// The name of the single-sign-on cookie.
pub const SSO_COOKIE_NAME: &'static str = "MYSAPSSO2";

/// Why no session was made.
#[derive(Debug, PartialEq, Eq)]
pub enum USaintSessionError {
    /// A credential was not found where it was looked for; holds its name.
    EnvVarError(String),
    /// The transport failed; holds its message.
    RequestError(String),
    /// The login went through, but the authentication cookie did not come.
    MissingMYSAPSSO2Cookie,
}

/// A user id and password, held for the login only.
pub struct Credentials {
    pub id: String,
    pub password: String,
}

/// The login form for the user `id` with `password`.
pub open spec fn login_form(id: Seq<char>, password: Seq<char>) -> Seq<(Seq<char>, Seq<char>)> {
    seq![("sap-user"@, id), ("sap-password"@, password), ("sap-system-login"@, "onLogin"@)]
}

/// A cookie starts at position `i` of a `Cookie` header: at its start, or
/// right after a `"; "` that separates two `name=value` pairs.
pub open spec fn pair_starts_at(header: Seq<char>, i: int) -> bool {
    i == 0 || (2 <= i <= header.len() && header[i - 2] == ';' && header[i - 1] == ' ')
}

/// The pair starting at `i` is named `name`: `name` and then `=`.
pub open spec fn cookie_named_at(header: Seq<char>, name: Seq<char>, i: int) -> bool {
    &&& pair_starts_at(header, i)
    &&& 0 <= i
    &&& i + name.len() < header.len()
    &&& header.subrange(i, i + name.len()) == name
    &&& header[i + name.len()] == '='
}

/// Split on `"; "` into `name=value` pairs, `header` holds a pair whose name
/// is `name`.
pub open spec fn has_cookie(header: Seq<char>, name: Seq<char>) -> bool {
    exists|i: int| #[trigger] cookie_named_at(header, name, i)
}

/// The cookies of the login endpoint hold the authentication cookie.
pub open spec fn has_sso_cookie(cookies: Option<Seq<char>>) -> bool {
    cookies matches Some(c) && has_cookie(c, SSO_COOKIE_NAME@)
}

impl Credentials {
    /// Credentials of `id` and `password`.
    pub fn new(id: String, password: String) -> (r: Self)
        ensures
            r.id@ == id@,
            r.password@ == password@,
    {
        Credentials { id, password }
    }

    /// The form posted to the login endpoint.
    pub fn login_form(&self) -> (r: Vec<(String, String)>)
        ensures
            r.deep_view() == login_form(self.id@, self.password@),
    {
        let mut r: Vec<(String, String)> = Vec::new();
        r.push((String::from_str("sap-user"), self.id.clone()));
        r.push((String::from_str("sap-password"), self.password.clone()));
        r.push((String::from_str("sap-system-login"), String::from_str("onLogin")));
        assert(r.deep_view() =~= login_form(self.id@, self.password@));
        r
    }
}

fn matches_at(s: &Vec<char>, pattern: &Vec<char>, i: usize) -> (r: bool)
    requires
        i + pattern.len() <= s.len(),
    ensures
        r == (s@.subrange(i as int, i + pattern.len()) == pattern@),
{
    let mut k: usize = 0;
    while k < pattern.len()
        invariant
            k <= pattern.len(),
            i + pattern.len() <= s.len(),
            forall|j: int| 0 <= j < k ==> s@[i + j] == pattern@[j],
        decreases pattern.len() - k,
    {
        if s[i + k] != pattern[k] {
            assert(s@.subrange(i as int, i + pattern.len())[k as int] != pattern@[k as int]);
            return false;
        }
        k = k + 1;
    }
    assert(s@.subrange(i as int, i + pattern.len()) =~= pattern@);
    true
}

/// Whether the `Cookie` header `header` holds a cookie named `name`, for a
/// name holding neither `=` nor `"; "`.
pub fn has_cookie_named(header: &str, name: &str) -> (r: bool)
    ensures
        r == has_cookie(header@, name@),
{
    let h = chars_of(header);
    let n = chars_of(name);
    if n.len() >= h.len() {
        assert forall|i: int| !cookie_named_at(header@, name@, i) by {}
        return false;
    }
    let count = h.len() - n.len();
    let mut i: usize = 0;
    while i < count
        invariant
            h@ == header@,
            n@ == name@,
            count == h.len() - n.len(),
            i <= count,
            forall|j: int| 0 <= j < i ==> !#[trigger] cookie_named_at(header@, name@, j),
        decreases count - i,
    {
        let starts = i == 0 || (i >= 2 && h[i - 2] == ';' && h[i - 1] == ' ');
        if starts && matches_at(&h, &n, i) && h[i + n.len()] == '=' {
            assert(cookie_named_at(header@, name@, i as int));
            return true;
        }
        i = i + 1;
    }
    assert forall|j: int| !cookie_named_at(header@, name@, j) by {
        if 0 <= j && j < i {
        }
    }
    false
}

/// Decides the login from the `Cookie` header that the store makes for the
/// login endpoint afterwards: it succeeded exactly where the header holds a
/// cookie named `MYSAPSSO2`.
pub fn check_sso_cookie(cookies: Option<&str>) -> (r: Result<(), USaintSessionError>)
    ensures
        r is Ok <==> has_sso_cookie(
            match cookies {
                Some(c) => Some(c@),
                None => None,
            },
        ),
        r matches Err(e) ==> e == USaintSessionError::MissingMYSAPSSO2Cookie,
{
    match cookies {
        Some(c) => {
            if has_cookie_named(c, SSO_COOKIE_NAME) {
                Ok(())
            } else {
                Err(USaintSessionError::MissingMYSAPSSO2Cookie)
            }
        },
        None => Err(USaintSessionError::MissingMYSAPSSO2Cookie),
    }
}

} // verus!
