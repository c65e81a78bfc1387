//! The authorize state machine. GET validates the request, detects an
//! existing session (silent re-authentication) and otherwise issues a login
//! form with a CSRF token; POST verifies the CSRF double-submit, checks the
//! credentials with timing-equalized verification, establishes a session
//! and mints a one-time authorization code.

use vstd::prelude::*;

#[allow(unused_imports)]
use vstd::string::StringExecFns;
#[allow(unused_imports)]
use vstd::string::StrSliceExecFns;

use crate::config::Config;
use crate::crypto::csrf::generate_csrf_token;
use crate::crypto::csrf::verify_csrf_token;
use crate::crypto::password::{dummy_verify, password_matches, verify_password};
use crate::encoding::{secret_hash, secret_hash_of, url_encode, urlenc_of};
use crate::models::{Client, Realm};
use crate::rng::generate_random_token;
use crate::server::error::{app_bad_request, app_not_found, AppError};
use crate::server::{realm_not_found_msg, realm_not_found_of};
use crate::store::{
    client_in, has_client_id, has_live_session, has_realm_name, has_username,
    lemma_client_in_unique, lemma_live_session_unique, lemma_realm_named_unique,
    lemma_user_named_unique, live_session_of, realm_named, user_named, Store,
};
use crate::strutil::{char_range, contains_str, starts_with};

verus! {

/// Query parameters of GET authorize.
pub struct AuthorizeQuery {
    pub response_type: String,
    pub client_id: String,
    pub redirect_uri: String,
    pub scope: Option<String>,
    pub state: Option<String>,
    pub code_challenge: Option<String>,
    pub code_challenge_method: Option<String>,
    pub nonce: Option<String>,
}

/// Form fields of POST authorize: the OAuth parameters carried through the
/// login form as hidden fields, plus the credentials and the CSRF echo.
pub struct AuthorizeForm {
    pub csrf_token: String,
    pub username: String,
    pub password: String,
    pub client_id: String,
    pub redirect_uri: String,
    pub response_type: String,
    pub scope: String,
    pub state: String,
    pub code_challenge: String,
    pub code_challenge_method: String,
    pub nonce: Option<String>,
}

/// The error-page message for a malformed authorize request.
pub open spec fn invalid_params_msg(q: AuthorizeQuery) -> Seq<char> {
    if q.response_type@ != "code"@ {
        "unsupported response_type"@
    } else if !(q.code_challenge matches Some(c) && c@.len() > 0) {
        "code_challenge is required (PKCE)"@
    } else if q.code_challenge_method is None {
        "code_challenge_method is required (must be S256)"@
    } else {
        "only S256 code_challenge_method is supported"@
    }
}

/// A well-formed authorize request: response_type is `code`, a non-empty
/// PKCE challenge is present, and the challenge method is exactly `S256`.
pub open spec fn params_valid(q: AuthorizeQuery) -> bool {
    &&& q.response_type@ == "code"@
    &&& q.code_challenge matches Some(c) && c@.len() > 0
    &&& q.code_challenge_method matches Some(m) && m@ == "S256"@
}

/// Validate the authorize query parameters; PKCE is mandatory, not
/// optional. The error is the message shown on the error page.
pub fn validate_authorize_params(q: &AuthorizeQuery) -> (r: Result<(), String>)
    ensures
        r is Ok <==> params_valid(*q),
        q.response_type@ != "code"@ ==> (r matches Err(m) && m@ == "unsupported response_type"@),
        q.response_type@ == "code"@ && !(q.code_challenge matches Some(c) && c@.len() > 0) ==> (
        r matches Err(m) && m@ == "code_challenge is required (PKCE)"@),
        q.response_type@ == "code"@ && (q.code_challenge matches Some(c) && c@.len() > 0)
            && q.code_challenge_method is None ==> (r matches Err(m) && m@
            == "code_challenge_method is required (must be S256)"@),
        q.response_type@ == "code"@ && (q.code_challenge matches Some(c) && c@.len() > 0) && (
        q.code_challenge_method matches Some(m) && m@ != "S256"@) ==> (r matches Err(m2) && m2@
            == "only S256 code_challenge_method is supported"@),
        r matches Err(m) ==> m@ == invalid_params_msg(*q),
{
    if !crate::strutil::str_eq(q.response_type.as_str(), "code") {
        return Err(String::from_str("unsupported response_type"));
    }
    let challenge_ok = match &q.code_challenge {
        Some(c) => !c.as_str().is_empty(),
        None => false,
    };
    if !challenge_ok {
        return Err(String::from_str("code_challenge is required (PKCE)"));
    }
    match &q.code_challenge_method {
        Some(m) => {
            if crate::strutil::str_eq(m.as_str(), "S256") {
                Ok(())
            } else {
                Err(String::from_str("only S256 code_challenge_method is supported"))
            }
        },
        None => Err(String::from_str("code_challenge_method is required (must be S256)")),
    }
}

/// A cookie-header space: the optional whitespace around cookie pairs.
pub open spec fn is_cookie_space(c: char) -> bool {
    c == ' ' || c == '\t'
}

/// The string without its leading cookie spaces.
pub open spec fn trim_start_spec(s: Seq<char>) -> Seq<char>
    decreases s.len(),
{
    if s.len() > 0 && is_cookie_space(s[0]) {
        trim_start_spec(s.skip(1))
    } else {
        s
    }
}

/// The string without its trailing cookie spaces.
pub open spec fn trim_end_spec(s: Seq<char>) -> Seq<char>
    decreases s.len(),
{
    if s.len() > 0 && is_cookie_space(s.last()) {
        trim_end_spec(s.drop_last())
    } else {
        s
    }
}

/// The string without surrounding cookie spaces.
pub open spec fn trimmed(s: Seq<char>) -> Seq<char> {
    trim_end_spec(trim_start_spec(s))
}

proof fn lemma_trim_start_at(s: Seq<char>, k: int)
    requires
        0 <= k <= s.len(),
        forall|j: int| 0 <= j < k ==> is_cookie_space(s[j]),
        k < s.len() ==> !is_cookie_space(s[k]),
    ensures
        trim_start_spec(s) == s.skip(k),
    decreases k,
{
    if k == 0 {
        if s.len() > 0 && is_cookie_space(s[0]) {
            assert(false);
        }
        assert(s.skip(0) =~= s);
    } else {
        assert(is_cookie_space(s[0]));
        lemma_trim_start_at(s.skip(1), k - 1);
        assert(s.skip(1).skip(k - 1) =~= s.skip(k));
    }
}

proof fn lemma_trim_end_at(s: Seq<char>, k: int)
    requires
        0 <= k <= s.len(),
        forall|j: int| k <= j < s.len() ==> is_cookie_space(s[j]),
        k > 0 ==> !is_cookie_space(s[k - 1]),
    ensures
        trim_end_spec(s) == s.take(k),
    decreases s.len() - k,
{
    if k == s.len() {
        if s.len() > 0 && is_cookie_space(s.last()) {
            assert(false);
        }
        assert(s.take(k) =~= s);
    } else {
        assert(is_cookie_space(s.last()));
        lemma_trim_end_at(s.drop_last(), k);
        assert(s.drop_last().take(k) =~= s.take(k));
    }
}

/// The string without surrounding spaces and tabs — the optional
/// whitespace a Cookie header may carry around its pairs. Other Unicode
/// whitespace is deliberately left alone: it cannot appear in a
/// well-formed Cookie header.
pub fn trim_cookie_space(s: &str) -> (r: String)
    ensures
        r@ == trimmed(s@),
{
    let len = s.unicode_len();
    let mut start: usize = 0;
    while start < len && (s.get_char(start) == ' ' || s.get_char(start) == '\t')
        invariant
            start <= len,
            len == s@.len(),
            forall|j: int| 0 <= j < start ==> is_cookie_space(s@[j]),
        decreases len - start,
    {
        start = start + 1;
    }
    let mut end: usize = len;
    while end > start && (s.get_char(end - 1) == ' ' || s.get_char(end - 1) == '\t')
        invariant
            start <= end <= len,
            len == s@.len(),
            forall|j: int| 0 <= j < start ==> is_cookie_space(s@[j]),
            start < len ==> !is_cookie_space(s@[start as int]),
            forall|j: int| end <= j < len ==> is_cookie_space(s@[j]),
        decreases end,
    {
        end = end - 1;
    }
    let r = char_range(s, start, end);
    proof {
        lemma_trim_start_at(s@, start as int);
        let t = s@.skip(start as int);
        if end > start {
            lemma_trim_end_at(t, end - start);
        } else {
            lemma_trim_end_at(t, 0);
        }
        assert(t.take(end - start) =~= s@.subrange(start as int, end as int));
    }
    r
}

/// The index of the first `;` in the string, or its length.
pub open spec fn find_semi(s: Seq<char>) -> int
    decreases s.len(),
{
    if s.len() == 0 {
        0
    } else if s[0] == ';' {
        0
    } else {
        1 + find_semi(s.skip(1))
    }
}

proof fn lemma_find_semi_at(s: Seq<char>, k: int)
    requires
        0 <= k <= s.len(),
        forall|j: int| 0 <= j < k ==> s[j] != ';',
        k < s.len() ==> s[k] == ';',
    ensures
        find_semi(s) == k,
    decreases k,
{
    if k == 0 {
    } else {
        lemma_find_semi_at(s.skip(1), k - 1);
    }
}

/// The value of the named cookie in a Cookie header: the first
/// `;`-separated part which, after trimming, starts with `name=`.
pub open spec fn cookie_value_of(s: Seq<char>, name: Seq<char>) -> Option<Seq<char>>
    decreases s.len(),
{
    let k = find_semi(s);
    if !(0 <= k <= s.len()) {
        None
    } else {
        let part = trimmed(s.take(k));
        let prefix = name.push('=');
        if part.len() >= prefix.len() && part.take(prefix.len() as int) == prefix {
            Some(part.skip(prefix.len() as int))
        } else if k == s.len() {
            None
        } else {
            cookie_value_of(s.skip(k + 1), name)
        }
    }
}

/// Extract a cookie value from a Cookie header by name.
pub fn extract_cookie(cookies: &str, name: &str) -> (r: Option<String>)
    ensures
        match cookie_value_of(cookies@, name@) {
            Some(v) => r matches Some(rv) && rv@ == v,
            None => r is None,
        },
    decreases cookies@.len(),
{
    let len = cookies.unicode_len();
    let mut k: usize = 0;
    while k < len && cookies.get_char(k) != ';'
        invariant
            k <= len,
            len == cookies@.len(),
            forall|j: int| 0 <= j < k ==> cookies@[j] != ';',
        decreases len - k,
    {
        k = k + 1;
    }
    proof {
        lemma_find_semi_at(cookies@, k as int);
    }
    let part_raw = cookies.substring_char(0, k);
    let part = trim_cookie_space(part_raw);
    let name_len = name.unicode_len();
    let part_len = part.as_str().unicode_len();
    let is_match = part_len > name_len && starts_with(part.as_str(), name) && part.as_str()
        .get_char(name_len) == '=';
    proof {
        let pv = part@;
        let prefix = name@.push('=');
        if is_match {
            assert(pv.take(prefix.len() as int) =~= prefix);
        } else if pv.len() >= prefix.len() && pv.take(prefix.len() as int) == prefix {
            assert(pv.subrange(0, name@.len() as int) =~= prefix.take(name@.len() as int));
            assert(prefix.take(name@.len() as int) =~= name@);
            assert(pv.take(prefix.len() as int)[name@.len() as int] == pv[name@.len() as int]);
            assert(prefix[name@.len() as int] == '=');
            assert(pv[name@.len() as int] == '=');
            assert(false);
        }
    }
    if is_match {
        let value = char_range(part.as_str(), name_len + 1, part_len);
        proof {
            assert(part@.subrange(name_len + 1 as int, part_len as int) =~= part@.skip(
                name@.push('=').len() as int,
            ));
        }
        return Some(value);
    }
    if k == len {
        return None;
    }
    let rest = cookies.substring_char(k + 1, len);
    extract_cookie(rest, name)
}

/// The CSRF cookie name of a realm.
pub open spec fn csrf_cookie_name_of(realm: Seq<char>) -> Seq<char> {
    "anz_csrf_"@ + realm
}

/// Build the CSRF cookie name of a realm.
pub fn csrf_cookie_name(realm: &str) -> (r: String)
    ensures
        r@ == csrf_cookie_name_of(realm@),
{
    let mut out = String::from_str("anz_csrf_");
    out.append(realm);
    proof {
        assert(out@ =~= csrf_cookie_name_of(realm@));
    }
    out
}

/// The session cookie name of a realm.
pub open spec fn session_cookie_name_of(realm: Seq<char>) -> Seq<char> {
    "anz_session_"@ + realm
}

/// Build the session cookie name of a realm.
pub fn session_cookie_name(realm: &str) -> (r: String)
    ensures
        r@ == session_cookie_name_of(realm@),
{
    let mut out = String::from_str("anz_session_");
    out.append(realm);
    proof {
        assert(out@ =~= session_cookie_name_of(realm@));
    }
    out
}

/// The Set-Cookie value carrying a CSRF token, HttpOnly and scoped to the
/// realm path.
pub open spec fn csrf_cookie_of(realm: Seq<char>, token: Seq<char>) -> Seq<char> {
    "anz_csrf_"@ + realm + "="@ + token + "; HttpOnly; SameSite=Lax; Path=/realms/"@ + realm
}

/// Build the Set-Cookie value carrying a CSRF token.
pub fn csrf_cookie_string(realm: &str, token: &str) -> (r: String)
    ensures
        r@ == csrf_cookie_of(realm@, token@),
{
    let mut out = String::from_str("anz_csrf_");
    out.append(realm);
    out.append("=");
    out.append(token);
    out.append("; HttpOnly; SameSite=Lax; Path=/realms/");
    out.append(realm);
    proof {
        assert(out@ =~= csrf_cookie_of(realm@, token@));
    }
    out
}

/// The Set-Cookie value carrying a session token, HttpOnly, scoped to the
/// realm path, with Max-Age equal to the session lifetime.
pub open spec fn session_cookie_of(realm: Seq<char>, token: Seq<char>, max_age: nat) -> Seq<char> {
    "anz_session_"@ + realm + "="@ + token + "; HttpOnly; SameSite=Lax; Path=/realms/"@ + realm
        + "; Max-Age="@ + crate::strutil::dec_digits(max_age)
}

/// Build the Set-Cookie value carrying a session token.
pub fn session_cookie_string(realm: &str, token: &str, max_age: u64) -> (r: String)
    ensures
        r@ == session_cookie_of(realm@, token@, max_age as nat),
{
    let mut out = String::from_str("anz_session_");
    out.append(realm);
    out.append("=");
    out.append(token);
    out.append("; HttpOnly; SameSite=Lax; Path=/realms/");
    out.append(realm);
    out.append("; Max-Age=");
    let age = crate::strutil::u64_to_dec(max_age);
    out.append(age.as_str());
    proof {
        assert(out@ =~= session_cookie_of(realm@, token@, max_age as nat));
    }
    out
}

/// The Set-Cookie value clearing the realm's CSRF cookie.
pub open spec fn clear_csrf_cookie_of(realm: Seq<char>) -> Seq<char> {
    "anz_csrf_"@ + realm + "=; HttpOnly; SameSite=Lax; Path=/realms/"@ + realm + "; Max-Age=0"@
}

/// Build the Set-Cookie value clearing the realm's CSRF cookie.
pub fn clear_csrf_cookie_string(realm: &str) -> (r: String)
    ensures
        r@ == clear_csrf_cookie_of(realm@),
{
    let mut out = String::from_str("anz_csrf_");
    out.append(realm);
    out.append("=; HttpOnly; SameSite=Lax; Path=/realms/");
    out.append(realm);
    out.append("; Max-Age=0");
    proof {
        assert(out@ =~= clear_csrf_cookie_of(realm@));
    }
    out
}

/// The redirect URL delivering an authorization code to the client:
/// `redirect_uri?code=...&state=...`, both values percent-encoded.
pub open spec fn code_redirect_of(
    redirect_uri: Seq<char>,
    raw_code: Seq<char>,
    state: Seq<char>,
) -> Seq<char> {
    redirect_uri + "?code="@ + urlenc_of(raw_code) + "&state="@ + urlenc_of(state)
}

/// The model of the login page: every OAuth parameter is carried through
/// as a hidden field so the POST can reconstruct the original request.
pub struct LoginFormView {
    pub realm_name: String,
    pub error_message: Option<String>,
    pub csrf_token: String,
    pub client_id: String,
    pub redirect_uri: String,
    pub response_type: String,
    pub scope: String,
    pub state: String,
    pub code_challenge: String,
    pub code_challenge_method: String,
    pub nonce: Option<String>,
}

/// The outcome of GET authorize.
pub enum AuthorizeGetOutcome {
    /// Malformed parameters: an error page with this message.
    InvalidRequest(String),
    /// A protocol error response.
    Error(AppError),
    /// A live session was found: redirect to the client with a fresh code.
    Redirect { location: String, raw_code: String },
    /// No session: render the login form and set the CSRF cookie.
    LoginForm { view: LoginFormView, csrf_cookie: String },
}

/// The outcome of POST authorize.
pub enum AuthorizePostOutcome {
    /// A protocol error response.
    Error(AppError),
    /// Re-render the login form with a generic error and a fresh CSRF
    /// token; nothing reveals why the attempt failed.
    LoginError { view: LoginFormView, csrf_cookie: String },
    /// Credentials accepted: a session cookie, the cleared CSRF cookie,
    /// and the redirect carrying the one-time code.
    Success {
        location: String,
        raw_code: String,
        session_token: String,
        session_cookie: String,
        clear_csrf_cookie: String,
    },
}

/// The requested scope, defaulting to `openid`.
pub open spec fn scope_of(q: AuthorizeQuery) -> Seq<char> {
    match q.scope {
        Some(s) => s@,
        None => "openid"@,
    }
}

/// The client state parameter, defaulting to empty.
pub open spec fn state_of(q: AuthorizeQuery) -> Seq<char> {
    match q.state {
        Some(s) => s@,
        None => Seq::empty(),
    }
}

/// The PKCE challenge parameter, defaulting to empty.
pub open spec fn challenge_of(q: AuthorizeQuery) -> Seq<char> {
    match q.code_challenge {
        Some(c) => c@,
        None => Seq::empty(),
    }
}

/// The PKCE challenge method parameter, defaulting to empty.
pub open spec fn method_of(q: AuthorizeQuery) -> Seq<char> {
    match q.code_challenge_method {
        Some(m) => m@,
        None => Seq::empty(),
    }
}

/// The view of an optional Cookie header.
pub open spec fn header_view(h: Option<&str>) -> Option<Seq<char>> {
    match h {
        Some(s) => Some(s@),
        None => None,
    }
}

/// The realm's session token carried by the Cookie header, if any.
pub open spec fn session_token_of(cookie: Option<Seq<char>>, realm: Seq<char>) -> Option<Seq<char>> {
    match cookie {
        Some(h) => cookie_value_of(h, session_cookie_name_of(realm)),
        None => None,
    }
}

/// The CSRF token expected from the Cookie header: the realm's CSRF
/// cookie value, when the cookie is present. The double-submit gate is
/// passed only when this is present and the submitted token equals it, so
/// a request without the cookie never passes, whatever it submits.
pub open spec fn csrf_expected_of(cookie: Option<Seq<char>>, realm: Seq<char>) -> Option<Seq<char>> {
    match cookie {
        Some(h) => cookie_value_of(h, csrf_cookie_name_of(realm)),
        None => None,
    }
}

/// Does the Cookie header resolve to a live session of the realm?
pub open spec fn silent_session_ok(
    pre: Store,
    realm_obj: Realm,
    cookie: Option<Seq<char>>,
    realm: Seq<char>,
    now: i64,
) -> bool {
    session_token_of(cookie, realm) matches Some(tok) && has_live_session(
        pre.sessions@,
        realm_obj.id@,
        secret_hash_of(tok),
        now,
    )
}

/// Is the URI an exact member of the client's registered redirect URIs?
pub open spec fn uri_registered(c: Client, uri: Seq<char>) -> bool {
    exists|i: int| 0 <= i < c.redirect_uris@.len() && c.redirect_uris@[i]@ == uri
}

/// The submitted credentials resolve to a user of the realm whose stored
/// hash matches the password.
pub open spec fn credentials_ok(pre: Store, realm_id: Seq<char>, form: AuthorizeForm) -> bool {
    has_username(pre.users@, realm_id, form.username@) && password_matches(
        form.password@,
        user_named(pre.users@, realm_id, form.username@).password_hash@,
    )
}

/// The login form re-rendered after a failed POST: it echoes every form
/// field, shows exactly this generic message, and carries a fresh CSRF
/// token bound to its cookie.
pub open spec fn login_error_view_ok(
    view: LoginFormView,
    cookie: Seq<char>,
    realm: Seq<char>,
    form: AuthorizeForm,
    msg: Seq<char>,
) -> bool {
    &&& view.realm_name@ == realm
    &&& view.error_message matches Some(m) && m@ == msg
    &&& view.csrf_token@.len() == 43
    &&& cookie == csrf_cookie_of(realm, view.csrf_token@)
    &&& view.client_id@ == form.client_id@
    &&& view.redirect_uri@ == form.redirect_uri@
    &&& view.response_type@ == form.response_type@
    &&& view.scope@ == form.scope@
    &&& view.state@ == form.state@
    &&& view.code_challenge@ == form.code_challenge@
    &&& view.code_challenge_method@ == form.code_challenge_method@
    &&& view.nonce == form.nonce
}

/// Mint an authorization code and build the redirect: 32 random bytes as
/// the raw code, its SHA-256 hex hash persisted with the request's
/// redirect_uri, scope and PKCE challenge, expiring after the configured
/// code lifetime. The raw code leaves only in the returned redirect URL.
pub fn generate_auth_code_redirect_inner(
    store: &mut Store,
    config: &Config,
    realm_id: &str,
    client_id: &str,
    redirect_uri: &str,
    scope: &str,
    code_challenge: &str,
    state_param: &str,
    user_id: &str,
    now: i64,
) -> (r: Result<(String, String), AppError>)
    requires
        old(store).wf(),
        0 <= now,
        config.lifetimes_fit(now),
    ensures
        final(store).wf(),
        !(r is Ok) ==> *final(store) == *old(store),
        r matches Err(e) ==> e is Internal,
        r matches Ok(ok) ==> {
            let c = final(store).auth_codes@.last();
            &&& ok.1@.len() == 43
            &&& ok.0@ == code_redirect_of(redirect_uri@, ok.1@, state_param@)
            &&& final(store).auth_codes@ == old(store).auth_codes@.push(c)
            &&& c.realm_id@ == realm_id@
            &&& c.client_id@ == client_id@
            &&& c.user_id@ == user_id@
            &&& c.code_hash@ == secret_hash_of(ok.1@)
            &&& c.redirect_uri@ == redirect_uri@
            &&& c.scopes@ == scope@
            &&& c.code_challenge@ == code_challenge@
            &&& c.expires_at == now + config.auth_code_lifetime_secs
            &&& !c.used
        },
        final(store).realms == old(store).realms,
        final(store).signing_keys == old(store).signing_keys,
        final(store).users == old(store).users,
        final(store).clients == old(store).clients,
        final(store).refresh_tokens == old(store).refresh_tokens,
        final(store).sessions == old(store).sessions,
{
    let raw_code = generate_random_token();
    let code_hash = secret_hash(raw_code.as_str());
    let expires_at = now + (config.auth_code_lifetime_secs as i64);
    let inserted = store.insert_auth_code(
        realm_id,
        client_id,
        user_id,
        code_hash.as_str(),
        redirect_uri,
        scope,
        code_challenge,
        expires_at,
    );
    match inserted {
        Ok(_) => {},
        Err(_) => {
            return Err(AppError::Internal(String::from_str("authorization code not stored")));
        },
    }
    let mut location = String::from_str(redirect_uri);
    location.append("?code=");
    let enc_code = url_encode(raw_code.as_str());
    location.append(enc_code.as_str());
    location.append("&state=");
    let enc_state = url_encode(state_param);
    location.append(enc_state.as_str());
    proof {
        assert(location@ =~= code_redirect_of(redirect_uri@, raw_code@, state_param@));
    }
    Ok((location, raw_code))
}

/// What GET authorize guarantees, as a relation between the store before
/// the call, the request, the outcome, and the store after it.
pub open spec fn authorize_get_post(
    pre: Store,
    config: Config,
    realm: Seq<char>,
    q: AuthorizeQuery,
    cookie: Option<Seq<char>>,
    now: i64,
    r: AuthorizeGetOutcome,
    post: Store,
) -> bool {
    let rlm = realm_named(pre.realms@, realm);
    let cl = client_in(pre.clients@, rlm.id@, q.client_id@);
    &&& post.wf()
    &&& !params_valid(q) ==> (r matches AuthorizeGetOutcome::InvalidRequest(m) && m@
        == invalid_params_msg(q)) && post == pre
    &&& params_valid(q) && !has_realm_name(pre.realms@, realm) ==> (r matches
        AuthorizeGetOutcome::Error(e) && app_not_found(e, realm_not_found_of(realm))) && post == pre
    &&& params_valid(q) && has_realm_name(pre.realms@, realm) && !has_client_id(
        pre.clients@,
        rlm.id@,
        q.client_id@,
    ) ==> (r matches AuthorizeGetOutcome::Error(e) && app_bad_request(e, "unknown client_id"@))
        && post == pre
    &&& params_valid(q) && has_realm_name(pre.realms@, realm) && has_client_id(
        pre.clients@,
        rlm.id@,
        q.client_id@,
    ) && !uri_registered(cl, q.redirect_uri@) ==> (r matches AuthorizeGetOutcome::Error(e)
        && app_bad_request(e, "redirect_uri not registered"@)) && post == pre
    &&& params_valid(q) && has_realm_name(pre.realms@, realm) && has_client_id(
        pre.clients@,
        rlm.id@,
        q.client_id@,
    ) && uri_registered(cl, q.redirect_uri@) && silent_session_ok(pre, rlm, cookie, realm, now)
        ==> {
        ||| (r matches AuthorizeGetOutcome::Redirect { location, raw_code } && {
            let sess = live_session_of(
                pre.sessions@,
                rlm.id@,
                secret_hash_of(session_token_of(cookie, realm)->Some_0),
                now,
            );
            let c = post.auth_codes@.last();
            &&& raw_code@.len() == 43
            &&& location@ == code_redirect_of(q.redirect_uri@, raw_code@, state_of(q))
            &&& post.auth_codes@ == pre.auth_codes@.push(c)
            &&& c.realm_id@ == rlm.id@
            &&& c.client_id@ == q.client_id@
            &&& c.user_id@ == sess.user_id@
            &&& c.code_hash@ == secret_hash_of(raw_code@)
            &&& c.redirect_uri@ == q.redirect_uri@
            &&& c.scopes@ == scope_of(q)
            &&& c.code_challenge@ == challenge_of(q)
            &&& c.expires_at == now + config.auth_code_lifetime_secs
            &&& !c.used
            &&& post.sessions == pre.sessions
            &&& post.refresh_tokens == pre.refresh_tokens
        })
        ||| (r matches AuthorizeGetOutcome::Error(e) && e is Internal)
    }
    &&& params_valid(q) && has_realm_name(pre.realms@, realm) && has_client_id(
        pre.clients@,
        rlm.id@,
        q.client_id@,
    ) && uri_registered(cl, q.redirect_uri@) && !silent_session_ok(pre, rlm, cookie, realm, now)
        ==> (r matches AuthorizeGetOutcome::LoginForm { view, csrf_cookie } && {
        &&& view.realm_name@ == realm
        &&& view.error_message is None
        &&& view.csrf_token@.len() == 43
        &&& csrf_cookie@ == csrf_cookie_of(realm, view.csrf_token@)
        &&& view.client_id@ == q.client_id@
        &&& view.redirect_uri@ == q.redirect_uri@
        &&& view.response_type@ == q.response_type@
        &&& view.scope@ == scope_of(q)
        &&& view.state@ == state_of(q)
        &&& view.code_challenge@ == challenge_of(q)
        &&& view.code_challenge_method@ == method_of(q)
        &&& view.nonce == q.nonce
    }) && post == pre
    &&& post.realms == pre.realms
    &&& post.signing_keys == pre.signing_keys
    &&& post.users == pre.users
    &&& post.clients == pre.clients
}

/// GET authorize: validate the request, resolve realm and client, require
/// the redirect URI to be registered byte-for-byte, then either mint a
/// code against a live session (silent re-authentication) or issue the
/// login form with a fresh CSRF token.
pub fn authorize_get(
    store: &mut Store,
    config: &Config,
    realm: &str,
    q: &AuthorizeQuery,
    cookie_header: Option<&str>,
    now: i64,
) -> (r: AuthorizeGetOutcome)
    requires
        old(store).wf(),
        0 <= now,
        config.lifetimes_fit(now),
    ensures
        authorize_get_post(
            *old(store),
            *config,
            realm@,
            *q,
            header_view(cookie_header),
            now,
            r,
            *final(store),
        ),
{
    match validate_authorize_params(q) {
        Ok(_) => {},
        Err(msg) => {
            return AuthorizeGetOutcome::InvalidRequest(msg);
        },
    }
    let realm_id = match store.get_realm_by_name(realm) {
        Some(rec) => {
            proof {
                let i = choose|i: int|
                    0 <= i < store.realms@.len() && *rec == store.realms@[i]
                        && store.realms@[i].name@ == realm@;
                lemma_realm_named_unique(store.realms@, realm@, i);
            }
            rec.id.clone()
        },
        None => {
            return AuthorizeGetOutcome::Error(AppError::NotFound(realm_not_found_msg(realm)));
        },
    };
    let registered = match store.get_client_by_client_id(realm_id.as_str(), q.client_id.as_str()) {
        Some(client) => {
            proof {
                let i = choose|i: int|
                    0 <= i < store.clients@.len() && *client == store.clients@[i]
                        && store.clients@[i].realm_id@ == realm_id@ && store.clients@[i].client_id@
                        == q.client_id@;
                lemma_client_in_unique(store.clients@, realm_id@, q.client_id@, i);
            }
            contains_str(&client.redirect_uris, q.redirect_uri.as_str())
        },
        None => {
            return AuthorizeGetOutcome::Error(
                AppError::BadRequest(String::from_str("unknown client_id")),
            );
        },
    };
    if !registered {
        return AuthorizeGetOutcome::Error(
            AppError::BadRequest(String::from_str("redirect_uri not registered")),
        );
    }
    let session_user: Option<String> = match cookie_header {
        Some(h) => {
            let name = session_cookie_name(realm);
            match extract_cookie(h, name.as_str()) {
                Some(tok) => {
                    let token_hash = secret_hash(tok.as_str());
                    match store.get_session_by_token_hash(realm_id.as_str(), token_hash.as_str(), now) {
                        Some(sess) => {
                            proof {
                                let i = choose|i: int|
                                    0 <= i < store.sessions@.len() && *sess == store.sessions@[i]
                                        && crate::store::session_live(
                                        store.sessions@[i],
                                        realm_id@,
                                        token_hash@,
                                        now,
                                    );
                                lemma_live_session_unique(
                                    store.sessions@,
                                    realm_id@,
                                    token_hash@,
                                    now,
                                    i,
                                );
                            }
                            Some(sess.user_id.clone())
                        },
                        None => None,
                    }
                },
                None => None,
            }
        },
        None => None,
    };
    match session_user {
        Some(user_id) => {
            let scope = match &q.scope {
                Some(s) => s.clone(),
                None => String::from_str("openid"),
            };
            let state_param = match &q.state {
                Some(s) => s.clone(),
                None => String::new(),
            };
            let challenge = match &q.code_challenge {
                Some(c) => c.clone(),
                None => String::new(),
            };
            let minted = generate_auth_code_redirect_inner(
                store,
                config,
                realm_id.as_str(),
                q.client_id.as_str(),
                q.redirect_uri.as_str(),
                scope.as_str(),
                challenge.as_str(),
                state_param.as_str(),
                user_id.as_str(),
                now,
            );
            match minted {
                Ok(ok) => AuthorizeGetOutcome::Redirect { location: ok.0, raw_code: ok.1 },
                Err(e) => AuthorizeGetOutcome::Error(e),
            }
        },
        None => {
            let csrf_token = generate_csrf_token();
            let csrf_cookie = csrf_cookie_string(realm, csrf_token.as_str());
            let view = LoginFormView {
                realm_name: String::from_str(realm),
                error_message: None,
                csrf_token,
                client_id: q.client_id.clone(),
                redirect_uri: q.redirect_uri.clone(),
                response_type: q.response_type.clone(),
                scope: match &q.scope {
                    Some(s) => s.clone(),
                    None => String::from_str("openid"),
                },
                state: match &q.state {
                    Some(s) => s.clone(),
                    None => String::new(),
                },
                code_challenge: match &q.code_challenge {
                    Some(c) => c.clone(),
                    None => String::new(),
                },
                code_challenge_method: match &q.code_challenge_method {
                    Some(m) => m.clone(),
                    None => String::new(),
                },
                nonce: match &q.nonce {
                    Some(n) => Some(n.clone()),
                    None => None,
                },
            };
            AuthorizeGetOutcome::LoginForm { view, csrf_cookie }
        },
    }
}

/// What POST authorize guarantees: the CSRF double-submit gates
/// everything, credential failures are indistinguishable, and success
/// establishes one session and one fresh one-time code.
pub open spec fn authorize_post_post(
    pre: Store,
    config: Config,
    realm: Seq<char>,
    form: AuthorizeForm,
    cookie: Option<Seq<char>>,
    now: i64,
    r: AuthorizePostOutcome,
    post: Store,
) -> bool {
    let rlm = realm_named(pre.realms@, realm);
    let cl = client_in(pre.clients@, rlm.id@, form.client_id@);
    let csrf_ok = csrf_expected_of(cookie, realm) matches Some(v) && form.csrf_token@ == v;
    &&& post.wf()
    &&& !has_realm_name(pre.realms@, realm) ==> (r matches AuthorizePostOutcome::Error(e)
        && app_not_found(e, realm_not_found_of(realm))) && post == pre
    &&& has_realm_name(pre.realms@, realm) && !csrf_ok ==> (r matches
        AuthorizePostOutcome::LoginError { view, csrf_cookie } && login_error_view_ok(
        view,
        csrf_cookie@,
        realm,
        form,
        "Invalid request. Please try again."@,
    )) && post == pre
    &&& has_realm_name(pre.realms@, realm) && csrf_ok && !has_client_id(
        pre.clients@,
        rlm.id@,
        form.client_id@,
    ) ==> (r matches AuthorizePostOutcome::Error(e) && app_bad_request(e, "unknown client_id"@))
        && post == pre
    &&& has_realm_name(pre.realms@, realm) && csrf_ok && has_client_id(
        pre.clients@,
        rlm.id@,
        form.client_id@,
    ) && !uri_registered(cl, form.redirect_uri@) ==> (r matches AuthorizePostOutcome::Error(e)
        && app_bad_request(e, "redirect_uri not registered"@)) && post == pre
    &&& has_realm_name(pre.realms@, realm) && csrf_ok && has_client_id(
        pre.clients@,
        rlm.id@,
        form.client_id@,
    ) && uri_registered(cl, form.redirect_uri@) && !credentials_ok(pre, rlm.id@, form) ==> (r
        matches AuthorizePostOutcome::LoginError { view, csrf_cookie } && login_error_view_ok(
        view,
        csrf_cookie@,
        realm,
        form,
        "Invalid username or password"@,
    )) && post == pre
    &&& has_realm_name(pre.realms@, realm) && csrf_ok && has_client_id(
        pre.clients@,
        rlm.id@,
        form.client_id@,
    ) && uri_registered(cl, form.redirect_uri@) && credentials_ok(pre, rlm.id@, form) ==> {
        ||| (r matches AuthorizePostOutcome::Success {
            location,
            raw_code,
            session_token,
            session_cookie,
            clear_csrf_cookie,
        } && {
            let u = user_named(pre.users@, rlm.id@, form.username@);
            let s = post.sessions@.last();
            let c = post.auth_codes@.last();
            &&& session_token@.len() == 43
            &&& session_cookie@ == session_cookie_of(
                realm,
                session_token@,
                config.session_lifetime_secs as nat,
            )
            &&& clear_csrf_cookie@ == clear_csrf_cookie_of(realm)
            &&& raw_code@.len() == 43
            &&& location@ == code_redirect_of(form.redirect_uri@, raw_code@, form.state@)
            &&& post.sessions@ == pre.sessions@.push(s)
            &&& s.realm_id@ == rlm.id@
            &&& s.user_id@ == u.id@
            &&& s.session_token_hash@ == secret_hash_of(session_token@)
            &&& s.expires_at == now + config.session_lifetime_secs
            &&& s.created_at == now
            &&& post.auth_codes@ == pre.auth_codes@.push(c)
            &&& c.realm_id@ == rlm.id@
            &&& c.client_id@ == form.client_id@
            &&& c.user_id@ == u.id@
            &&& c.code_hash@ == secret_hash_of(raw_code@)
            &&& c.redirect_uri@ == form.redirect_uri@
            &&& c.scopes@ == form.scope@
            &&& c.code_challenge@ == form.code_challenge@
            &&& c.expires_at == now + config.auth_code_lifetime_secs
            &&& !c.used
        })
        ||| (r matches AuthorizePostOutcome::Error(e) && e is Internal)
    }
    &&& post.realms == pre.realms
    &&& post.signing_keys == pre.signing_keys
    &&& post.users == pre.users
    &&& post.clients == pre.clients
    &&& post.refresh_tokens == pre.refresh_tokens
}

/// Re-render the login form with a generic error message and a fresh CSRF
/// token; the message never says why the attempt failed.
fn render_login_error(realm: &str, form: &AuthorizeForm, error_msg: &str) -> (r:
    AuthorizePostOutcome)
    ensures
        r matches AuthorizePostOutcome::LoginError { view, csrf_cookie } && login_error_view_ok(
            view,
            csrf_cookie@,
            realm@,
            *form,
            error_msg@,
        ),
{
    let csrf_token = generate_csrf_token();
    let csrf_cookie = csrf_cookie_string(realm, csrf_token.as_str());
    let view = LoginFormView {
        realm_name: String::from_str(realm),
        error_message: Some(String::from_str(error_msg)),
        csrf_token,
        client_id: form.client_id.clone(),
        redirect_uri: form.redirect_uri.clone(),
        response_type: form.response_type.clone(),
        scope: form.scope.clone(),
        state: form.state.clone(),
        code_challenge: form.code_challenge.clone(),
        code_challenge_method: form.code_challenge_method.clone(),
        nonce: match &form.nonce {
            Some(n) => Some(n.clone()),
            None => None,
        },
    };
    AuthorizePostOutcome::LoginError { view, csrf_cookie }
}

/// POST authorize: verify the CSRF double-submit in constant time,
/// re-validate client and redirect URI, check the credentials (performing
/// a dummy verification when the username is unknown, so both failure
/// paths take the same time), then establish a session and mint the
/// one-time code.
pub fn authorize_post(
    store: &mut Store,
    config: &Config,
    realm: &str,
    form: &AuthorizeForm,
    cookie_header: Option<&str>,
    now: i64,
) -> (r: AuthorizePostOutcome)
    requires
        old(store).wf(),
        0 <= now,
        config.lifetimes_fit(now),
    ensures
        authorize_post_post(
            *old(store),
            *config,
            realm@,
            *form,
            header_view(cookie_header),
            now,
            r,
            *final(store),
        ),
{
    let realm_id = match store.get_realm_by_name(realm) {
        Some(rec) => {
            proof {
                let i = choose|i: int|
                    0 <= i < store.realms@.len() && *rec == store.realms@[i]
                        && store.realms@[i].name@ == realm@;
                lemma_realm_named_unique(store.realms@, realm@, i);
            }
            rec.id.clone()
        },
        None => {
            return AuthorizePostOutcome::Error(AppError::NotFound(realm_not_found_msg(realm)));
        },
    };
    let csrf_ok = match cookie_header {
        Some(h) => {
            let name = csrf_cookie_name(realm);
            match extract_cookie(h, name.as_str()) {
                Some(v) => verify_csrf_token(form.csrf_token.as_str(), v.as_str()),
                None => false,
            }
        },
        None => false,
    };
    if !csrf_ok {
        return render_login_error(realm, form, "Invalid request. Please try again.");
    }
    let registered = match store.get_client_by_client_id(realm_id.as_str(), form.client_id.as_str())
        {
        Some(client) => {
            proof {
                let i = choose|i: int|
                    0 <= i < store.clients@.len() && *client == store.clients@[i]
                        && store.clients@[i].realm_id@ == realm_id@ && store.clients@[i].client_id@
                        == form.client_id@;
                lemma_client_in_unique(store.clients@, realm_id@, form.client_id@, i);
            }
            contains_str(&client.redirect_uris, form.redirect_uri.as_str())
        },
        None => {
            return AuthorizePostOutcome::Error(
                AppError::BadRequest(String::from_str("unknown client_id")),
            );
        },
    };
    if !registered {
        return AuthorizePostOutcome::Error(
            AppError::BadRequest(String::from_str("redirect_uri not registered")),
        );
    }
    let user = match store.get_user_by_username(realm_id.as_str(), form.username.as_str()) {
        Some(u) => {
            proof {
                let i = choose|i: int|
                    0 <= i < store.users@.len() && *u == store.users@[i]
                        && store.users@[i].realm_id@ == realm_id@ && store.users@[i].username@
                        == form.username@;
                lemma_user_named_unique(store.users@, realm_id@, form.username@, i);
            }
            Some(u.dup())
        },
        None => None,
    };
    let authenticated = match &user {
        Some(u) => verify_password(form.password.as_str(), u.password_hash.as_str()),
        None => {
            dummy_verify();
            false
        },
    };
    if !authenticated {
        return render_login_error(realm, form, "Invalid username or password");
    }
    let user = match user {
        Some(u) => u,
        None => {
            return AuthorizePostOutcome::Error(
                AppError::Internal(String::from_str("user not found")),
            );
        },
    };
    let session_token = generate_random_token();
    let session_token_hash = secret_hash(session_token.as_str());
    let session_expires = now + (config.session_lifetime_secs as i64);
    let created = store.create_session(
        realm_id.as_str(),
        user.id.as_str(),
        session_token_hash.as_str(),
        session_expires,
        now,
    );
    match created {
        Ok(_) => {},
        Err(_) => {
            return AuthorizePostOutcome::Error(
                AppError::Internal(String::from_str("session not stored")),
            );
        },
    }
    let session_cookie = session_cookie_string(
        realm,
        session_token.as_str(),
        config.session_lifetime_secs,
    );
    let minted = generate_auth_code_redirect_inner(
        store,
        config,
        realm_id.as_str(),
        form.client_id.as_str(),
        form.redirect_uri.as_str(),
        form.scope.as_str(),
        form.code_challenge.as_str(),
        form.state.as_str(),
        user.id.as_str(),
        now,
    );
    match minted {
        Ok(ok) => AuthorizePostOutcome::Success {
            location: ok.0,
            raw_code: ok.1,
            session_token,
            session_cookie,
            clear_csrf_cookie: clear_csrf_cookie_string(realm),
        },
        Err(e) => AuthorizePostOutcome::Error(e),
    }
}


} // verus!
