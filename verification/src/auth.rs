//! Header-injection authentication: a template with `{{name}}` placeholders
//! rendered from variables, and a configuration that compiles to the static
//! outbound headers attached to every request.

use vstd::prelude::*;

use base64::Engine;

use crate::chars;
use crate::execute::pairs_view;

verus! {

/// A template for an authentication value, with `{{name}}` placeholders.
#[derive(Debug)]
pub struct AuthTemplate {
    pub template: String,
    pub variables: Vec<(String, String)>,
}

/// The rendering of a template under variables, applied in order: each
/// variable replaces every `{{name}}` placeholder with its value.
pub open spec fn spec_render(t: Seq<char>, vars: Seq<(Seq<char>, Seq<char>)>) -> Seq<char>
    decreases vars.len(),
{
    if vars.len() == 0 {
        t
    } else {
        spec_render(
            chars::spec_replace(t, "{{"@ + vars[0].0 + "}}"@, vars[0].1),
            vars.drop_first(),
        )
    }
}

impl AuthTemplate {
    /// A template with no variables yet.
    pub fn new(template: String) -> (r: AuthTemplate)
        ensures
            r.template@ == template@,
            r.variables@.len() == 0,
    {
        AuthTemplate { template, variables: Vec::new() }
    }

    /// The template with the variable bound: a fresh key is added, and
    /// rebinding a key replaces its value in place, so the newest binding
    /// is the one a later rendering uses.
    pub fn set_variable(self, key: &str, value: &str) -> (r: AuthTemplate)
        ensures
            r.template@ == self.template@,
            pairs_view(r.variables@) == spec_pairs_insert(
                pairs_view(self.variables@),
                key@,
                value@,
            ),
    {
        let mut vars = self.variables;
        pairs_insert(&mut vars, key.to_owned(), value.to_owned());
        AuthTemplate { template: self.template, variables: vars }
    }

    /// Renders the template, matching `spec_render`: every variable's
    /// placeholder is replaced by its value, in binding order.
    #[verifier::loop_isolation(false)]
    pub fn render(&self) -> (r: String)
        ensures
            r@ == spec_render(self.template@, pairs_view(self.variables@)),
    {
        let ghost vars = pairs_view(self.variables@);
        let mut result = self.template.clone();
        let mut i: usize = 0;
        proof {
            assert(vars.skip(0) =~= vars);
        }
        while i < self.variables.len()
            invariant
                i <= self.variables@.len(),
                vars.len() == self.variables@.len(),
                spec_render(self.template@, vars) == spec_render(result@, vars.skip(i as int)),
            decreases self.variables@.len() - i,
        {
            let ghost rest = vars.skip(i as int);
            proof {
                assert(rest[0] == vars[i as int]);
                assert(vars[i as int] == (self.variables@[i as int].0@,
                self.variables@[i as int].1@));
                assert(rest.drop_first() =~= vars.skip(i as int + 1));
            }
            let mut placeholder = "{{".to_owned();
            placeholder.append(self.variables[i].0.as_str());
            placeholder.append("}}");
            proof {
                reveal_strlit("{{");
                assert(placeholder@ =~= "{{"@ + self.variables@[i as int].0@ + "}}"@);
                assert(placeholder@.len() > 0);
            }
            result = chars::replace_all(
                result.as_str(),
                placeholder.as_str(),
                self.variables[i].1.as_str(),
            );
            i = i + 1;
        }
        proof {
            assert(vars.skip(i as int) =~= Seq::<(Seq<char>, Seq<char>)>::empty());
        }
        result
    }
}

/// The authentication scheme in use.
#[derive(Debug, Clone, Copy, PartialEq, Eq, Structural)]
pub enum AuthType {
    Bearer,
    Basic,
    ApiKey,
    OAuth2,
}

/// An authentication configuration: a scheme, its credentials, and any
/// extra static headers.
#[derive(Debug)]
pub struct AuthConfig {
    pub auth_type: AuthType,
    pub token: Option<String>,
    pub username: Option<String>,
    pub password: Option<String>,
    pub api_key: Option<String>,
    pub headers: Vec<(String, String)>,
}

impl Default for AuthConfig {
    /// A bearer configuration with nothing set.
    fn default() -> (r: AuthConfig)
        ensures
            r.auth_type == AuthType::Bearer,
            r.token is None,
            r.username is None,
            r.password is None,
            r.api_key is None,
            r.headers@.len() == 0,
    {
        AuthConfig {
            auth_type: AuthType::Bearer,
            token: None,
            username: None,
            password: None,
            api_key: None,
            headers: Vec::new(),
        }
    }
}

/// What `base64`'s standard engine encodes a string's bytes to: a function
/// of the characters alone.
pub uninterp spec fn base64_of(s: Seq<char>) -> Seq<char>;

/// Relies on the standard padded engine of `base64`: the encoding of the
/// string's bytes, which depends on its characters alone; an empty string
/// encodes to an empty string.
#[verifier::external_body]
pub(crate) fn b64_encode(s: &str) -> (r: String)
    ensures
        r@ == base64_of(s@),
        s@.len() == 0 ==> r@.len() == 0,
{
    base64::engine::general_purpose::STANDARD.encode(s)
}

/// Inserting a header: replaces the first pair under that name in place, or
/// appends a new pair.
pub open spec fn spec_pairs_insert(
    pairs: Seq<(Seq<char>, Seq<char>)>,
    k: Seq<char>,
    v: Seq<char>,
) -> Seq<(Seq<char>, Seq<char>)>
    decreases pairs.len(),
{
    if pairs.len() == 0 {
        seq![(k, v)]
    } else if pairs[0].0 == k {
        seq![(k, v)] + pairs.drop_first()
    } else {
        seq![pairs[0]] + spec_pairs_insert(pairs.drop_first(), k, v)
    }
}

/// Inserts a header pair, matching `spec_pairs_insert`.
#[verifier::loop_isolation(false)]
fn pairs_insert(pairs: &mut Vec<(String, String)>, k: String, v: String)
    ensures
        pairs_view(final(pairs)@) == spec_pairs_insert(pairs_view(old(pairs)@), k@, v@),
{
    let ghost p0 = pairs_view(pairs@);
    let mut i: usize = 0;
    proof {
        assert(p0.skip(0) =~= p0);
        assert(p0.subrange(0, 0) + spec_pairs_insert(p0.skip(0), k@, v@) =~= spec_pairs_insert(
            p0,
            k@,
            v@,
        ));
    }
    while i < pairs.len()
        invariant
            i <= pairs@.len(),
            p0 == pairs_view(pairs@),
            p0.len() == pairs@.len(),
            forall|j: int| 0 <= j < i ==> p0[j].0 != k@,
            spec_pairs_insert(p0, k@, v@) =~= p0.subrange(0, i as int) + spec_pairs_insert(
                p0.skip(i as int),
                k@,
                v@,
            ),
        decreases pairs@.len() - i,
    {
        let ghost rest = p0.skip(i as int);
        proof {
            assert(rest[0] == p0[i as int]);
            assert(p0[i as int] == (pairs@[i as int].0@, pairs@[i as int].1@));
        }
        if chars::str_eq(pairs[i].0.as_str(), k.as_str()) {
            pairs.set(i, (k, v));
            proof {
                let p1 = pairs_view(pairs@);
                assert(spec_pairs_insert(rest, k@, v@) =~= seq![(k@, v@)] + rest.drop_first());
                assert(p1 =~= p0.subrange(0, i as int) + (seq![(k@, v@)] + rest.drop_first()));
            }
            return ;
        }
        i = i + 1;
        proof {
            assert(rest.drop_first() =~= p0.skip(i as int));
            assert(p0.subrange(0, i as int - 1) + seq![rest[0]] =~= p0.subrange(0, i as int));
            assert(p0.subrange(0, i as int - 1) + (seq![rest[0]] + spec_pairs_insert(
                p0.skip(i as int),
                k@,
                v@,
            )) =~= p0.subrange(0, i as int) + spec_pairs_insert(p0.skip(i as int), k@, v@));
        }
    }
    proof {
        assert(p0.skip(i as int) =~= Seq::<(Seq<char>, Seq<char>)>::empty());
    }
    pairs.push((k, v));
    proof {
        let p1 = pairs_view(pairs@);
        assert(p1 =~= p0.subrange(0, i as int) + seq![(k@, v@)]);
    }
}

/// The outbound headers a configuration compiles to: its extra headers,
/// with the scheme's authorization header inserted when its credentials are
/// present.
pub open spec fn spec_to_headers(c: AuthConfig) -> Seq<(Seq<char>, Seq<char>)> {
    let base = pairs_view(c.headers@);
    match c.auth_type {
        AuthType::Bearer => match c.token {
            Some(t) => spec_pairs_insert(base, "Authorization"@, "Bearer "@ + t@),
            None => base,
        },
        AuthType::Basic => match (c.username, c.password) {
            (Some(u), Some(p)) => spec_pairs_insert(
                base,
                "Authorization"@,
                "Basic "@ + base64_of(u@ + ":"@ + p@),
            ),
            _ => base,
        },
        AuthType::ApiKey => match c.api_key {
            Some(k) => spec_pairs_insert(base, "Authorization"@, k@),
            None => base,
        },
        AuthType::OAuth2 => match c.token {
            Some(t) => spec_pairs_insert(base, "Authorization"@, "Bearer "@ + t@),
            None => base,
        },
    }
}

impl AuthConfig {
    /// A bearer-token configuration.
    pub fn bearer(token: String) -> (r: AuthConfig)
        ensures
            r.auth_type == AuthType::Bearer,
            r.token matches Some(t) && t@ == token@,
            r.username is None,
            r.password is None,
            r.api_key is None,
            r.headers@.len() == 0,
    {
        AuthConfig { auth_type: AuthType::Bearer, token: Some(token), ..Default::default() }
    }

    /// A basic-credentials configuration.
    pub fn basic(username: String, password: String) -> (r: AuthConfig)
        ensures
            r.auth_type == AuthType::Basic,
            r.username matches Some(u) && u@ == username@,
            r.password matches Some(p) && p@ == password@,
            r.token is None,
            r.api_key is None,
            r.headers@.len() == 0,
    {
        AuthConfig {
            auth_type: AuthType::Basic,
            username: Some(username),
            password: Some(password),
            ..Default::default()
        }
    }

    /// An API-key configuration.
    pub fn api_key(key: String) -> (r: AuthConfig)
        ensures
            r.auth_type == AuthType::ApiKey,
            r.api_key matches Some(k) && k@ == key@,
            r.token is None,
            r.username is None,
            r.password is None,
            r.headers@.len() == 0,
    {
        AuthConfig { auth_type: AuthType::ApiKey, api_key: Some(key), ..Default::default() }
    }

    /// The configuration with the header bound: a fresh name is added, and
    /// rebinding a name replaces its value in place, so header names stay
    /// unique.
    pub fn add_header(self, key: String, value: String) -> (r: AuthConfig)
        ensures
            r.auth_type == self.auth_type,
            r.token == self.token,
            r.username == self.username,
            r.password == self.password,
            r.api_key == self.api_key,
            pairs_view(r.headers@) == spec_pairs_insert(pairs_view(self.headers@), key@, value@),
    {
        let mut headers = self.headers;
        pairs_insert(&mut headers, key, value);
        AuthConfig {
            auth_type: self.auth_type,
            token: self.token,
            username: self.username,
            password: self.password,
            api_key: self.api_key,
            headers,
        }
    }

    /// Compiles the configuration to outbound headers, matching
    /// `spec_to_headers`.
    pub fn to_headers(&self) -> (r: Vec<(String, String)>)
        ensures
            pairs_view(r@) == spec_to_headers(*self),
    {
        let mut headers: Vec<(String, String)> = Vec::new();
        let mut i: usize = 0;
        proof {
            assert(pairs_view(headers@) =~= pairs_view(self.headers@).subrange(0, 0));
        }
        while i < self.headers.len()
            invariant
                i <= self.headers@.len(),
                pairs_view(headers@) =~= pairs_view(self.headers@).subrange(0, i as int),
            decreases self.headers@.len() - i,
        {
            let ghost before = headers@;
            headers.push((self.headers[i].0.clone(), self.headers[i].1.clone()));
            proof {
                assert(pairs_view(headers@) =~= pairs_view(before).push(
                    (self.headers@[i as int].0@, self.headers@[i as int].1@),
                ));
                assert(pairs_view(headers@) =~= pairs_view(self.headers@).subrange(
                    0,
                    i as int + 1,
                ));
            }
            i = i + 1;
        }
        proof {
            assert(pairs_view(self.headers@).subrange(0, i as int) =~= pairs_view(self.headers@));
        }
        match self.auth_type {
            AuthType::Bearer => {
                match &self.token {
                    Some(t) => {
                        let mut value = "Bearer ".to_owned();
                        value.append(t.as_str());
                        proof {
                            assert(value@ =~= "Bearer "@ + t@);
                        }
                        pairs_insert(&mut headers, "Authorization".to_owned(), value);
                    },
                    None => {},
                }
            },
            AuthType::Basic => {
                match (&self.username, &self.password) {
                    (Some(u), Some(p)) => {
                        let mut creds = u.clone();
                        creds.append(":");
                        creds.append(p.as_str());
                        proof {
                            assert(creds@ =~= u@ + ":"@ + p@);
                        }
                        let encoded = b64_encode(creds.as_str());
                        let mut value = "Basic ".to_owned();
                        value.append(encoded.as_str());
                        proof {
                            assert(value@ =~= "Basic "@ + base64_of(u@ + ":"@ + p@));
                        }
                        pairs_insert(&mut headers, "Authorization".to_owned(), value);
                    },
                    _ => {},
                }
            },
            AuthType::ApiKey => {
                match &self.api_key {
                    Some(k) => {
                        pairs_insert(&mut headers, "Authorization".to_owned(), k.clone());
                    },
                    None => {},
                }
            },
            AuthType::OAuth2 => {
                match &self.token {
                    Some(t) => {
                        let mut value = "Bearer ".to_owned();
                        value.append(t.as_str());
                        proof {
                            assert(value@ =~= "Bearer "@ + t@);
                        }
                        pairs_insert(&mut headers, "Authorization".to_owned(), value);
                    },
                    None => {},
                }
            },
        }
        headers
    }
}

} // verus!
