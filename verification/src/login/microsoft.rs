use vstd::prelude::*;
use crate::consts::LOCAL_WEBSERVER_URL;
use crate::consts::microsoft::TENANT;
use crate::event::{ErrorEventPayload, error_payload};
use crate::foreign::{
    pairs_view, pkce_challenge_s256, spec_pkce_s256, spec_url_with_params,
    url_with_params,
};
use crate::login::requests::{MicrosoftTokenForm, MicrosoftTokenFormView, MicrosoftTokenResponse};
use crate::text::{concat, opt_view};
use crate::time::Instant;
use vstd::utf8::encode_utf8;

verus! {

/// The URI to which Microsoft's login redirects.
pub open spec fn redirect_uri() -> Seq<char> {
    LOCAL_WEBSERVER_URL@ + "/microsoft-auth"@
}

/// The address of the authorization page of the tenant.
pub open spec fn authorize_endpoint() -> Seq<char> {
    "https://login.microsoftonline.com/"@ + TENANT@ + "/oauth2/v2.0/authorize"@
}

/// The query parameters of the authorization page.
pub open spec fn auth_url_params(client_id: Seq<char>, state: Seq<char>, code_challenge: Seq<char>) -> Seq<(Seq<char>, Seq<char>)> {
    seq![
        ("client_id"@, client_id),
        ("response_type"@, "code"@),
        ("redirect_url"@, LOCAL_WEBSERVER_URL@),
        ("redirect_uri"@, redirect_uri()),
        ("scope"@, "XboxLive.signin offline_access"@),
        ("code_challenge_method"@, "S256"@),
        ("code_challenge"@, code_challenge),
        ("state"@, state),
    ]
}

fn pair(name: &str, value: &str) -> (p: (String, String))
    ensures
        p.0@ == name@,
        p.1@ == value@,
{
    (name.to_owned(), value.to_owned())
}

/// The address of Microsoft's login page for the application `client_id`,
/// with the PKCE `code_challenge` and the opaque `state`.
pub fn generate_microsoft_auth_url(client_id: &str, state: &str, code_challenge: &str) -> (r: Result<String, url::ParseError>)
    ensures
        match r {
            Ok(u) => spec_url_with_params(authorize_endpoint(), auth_url_params(client_id@, state@, code_challenge@)) == Some(u@),
            Err(_) => spec_url_with_params(authorize_endpoint(), auth_url_params(client_id@, state@, code_challenge@)) is None,
        },
{
    let base = concat("https://login.microsoftonline.com/", TENANT);
    let base = concat(base.as_str(), "/oauth2/v2.0/authorize");
    let redirect = concat(LOCAL_WEBSERVER_URL, "/microsoft-auth");
    let mut params: Vec<(String, String)> = Vec::new();
    params.push(pair("client_id", client_id));
    params.push(pair("response_type", "code"));
    params.push(pair("redirect_url", LOCAL_WEBSERVER_URL));
    params.push(pair("redirect_uri", redirect.as_str()));
    params.push(pair("scope", "XboxLive.signin offline_access"));
    params.push(pair("code_challenge_method", "S256"));
    params.push(pair("code_challenge", code_challenge));
    params.push(pair("state", state));
    assert(pairs_view(params@) =~= auth_url_params(client_id@, state@, code_challenge@));
    url_with_params(base.as_str(), &params)
}

/// The form that exchanges an authorization code for a token.
pub open spec fn authorization_code_form(client_id: Seq<char>, code: Seq<char>, verifier: Seq<char>) -> MicrosoftTokenFormView {
    MicrosoftTokenFormView {
        tenant: TENANT@,
        client_id,
        scope: None,
        code: Some(code),
        refresh_token: None,
        redirect_uri: redirect_uri(),
        grant_type: "authorization_code"@,
        code_verifier: Some(verifier),
        client_secret: None,
    }
}

/// The form that exchanges a refresh token for a new access token.
pub open spec fn refresh_token_form(client_id: Seq<char>, refresh_token: Seq<char>) -> MicrosoftTokenFormView {
    MicrosoftTokenFormView {
        tenant: TENANT@,
        client_id,
        scope: None,
        code: None,
        refresh_token: Some(refresh_token),
        redirect_uri: redirect_uri(),
        grant_type: "refresh_token"@,
        code_verifier: None,
        client_secret: None,
    }
}

/// The login page's address carries the client id, the PKCE challenge and
/// the state that it is given, and the redirect URI to which the token
/// requests that follow hold: the code exchange and the refresh send the
/// same redirect URI as the login page asks Microsoft to redirect to.
pub proof fn lemma_login_address_carries_its_inputs(
    client_id: Seq<char>,
    state: Seq<char>,
    challenge: Seq<char>,
    code: Seq<char>,
    verifier: Seq<char>,
    refresh_token: Seq<char>,
)
    ensures
        auth_url_params(client_id, state, challenge).contains(("client_id"@, client_id)),
        auth_url_params(client_id, state, challenge).contains(("code_challenge"@, challenge)),
        auth_url_params(client_id, state, challenge).contains(("state"@, state)),
        auth_url_params(client_id, state, challenge).contains(
            ("redirect_uri"@, authorization_code_form(client_id, code, verifier).redirect_uri),
        ),
        auth_url_params(client_id, state, challenge).contains(
            ("redirect_uri"@, refresh_token_form(client_id, refresh_token).redirect_uri),
        ),
{
    let p = auth_url_params(client_id, state, challenge);
    assert(p[0] == ("client_id"@, client_id));
    assert(p[3] == ("redirect_uri"@, authorization_code_form(client_id, code, verifier).redirect_uri));
    assert(p[3] == ("redirect_uri"@, refresh_token_form(client_id, refresh_token).redirect_uri));
    assert(p[6] == ("code_challenge"@, challenge));
    assert(p[7] == ("state"@, state));
}

/// The code exchange sends the code it is given and the verifier of the
/// login, and asks for an authorization-code grant; the refresh sends the
/// refresh token it is given.
pub proof fn lemma_token_forms_carry_their_inputs(
    client_id: Seq<char>,
    code: Seq<char>,
    verifier: Seq<char>,
    refresh_token: Seq<char>,
)
    ensures
        authorization_code_form(client_id, code, verifier).client_id == client_id,
        authorization_code_form(client_id, code, verifier).code == Some(code),
        authorization_code_form(client_id, code, verifier).code_verifier == Some(verifier),
        refresh_token_form(client_id, refresh_token).client_id == client_id,
        refresh_token_form(client_id, refresh_token).refresh_token == Some(refresh_token),
{
}

/// A token stored with the expiry computed from a response received at
/// `now` is due for a refresh only after that expiry: in particular not at
/// `now` itself.
pub proof fn lemma_received_token_is_fresh(d: MicrosoftLoginData, now: Instant, later: Instant, token: String, expires_in: u32)
    requires
        now.can_add_secs(expires_in),
        d.access_token == Some((token, Instant { secs: (now.secs + expires_in) as i64, nanos: now.nanos })),
    ensures
        !d.spec_needs_refresh(now),
        d.spec_needs_refresh(later) <==> (later.secs > now.secs + expires_in || (later.secs == now.secs + expires_in
            && later.nanos > now.nanos)),
{
}

/// What the launcher knows of the user's Microsoft login: the PKCE pair of
/// a login under way, the access token with the instant it expires, and
/// the refresh token.
pub struct MicrosoftLoginData {
    pub challenge: Option<String>,
    pub verifier: Option<String>,
    pub access_token: Option<(String, Instant)>,
    pub refresh_token: Option<String>,
}

impl Default for MicrosoftLoginData {
    fn default() -> (d: Self)
        ensures
            d.challenge is None,
            d.verifier is None,
            d.access_token is None,
            d.refresh_token is None,
    {
        MicrosoftLoginData { challenge: None, verifier: None, access_token: None, refresh_token: None }
    }
}

/// What the refresh of the access token calls for.
pub enum RefreshStep {
    /// The access token has not expired: nothing to do.
    UpToDate,
    /// The access token is missing or expired, and there is no refresh token.
    NoRefreshToken,
    /// Send this form to the token endpoint.
    Request(MicrosoftTokenForm),
}

impl MicrosoftLoginData {
    /// Whether the access token is missing or expired at `now`.
    pub open spec fn spec_needs_refresh(self, now: Instant) -> bool {
        match self.access_token {
            Some((_, expiry)) => expiry.spec_before(now),
            None => true,
        }
    }

    /// The access token, if any.
    pub fn access_token(&self) -> (r: Option<String>)
        ensures
            opt_view(r) == match self.access_token {
                Some((token, _)) => Some(token@),
                None => None,
            },
    {
        match &self.access_token {
            Some((token, _)) => Some(token.clone()),
            None => None,
        }
    }

    /// Whether the access token is missing or expired at `now`.
    pub fn needs_refresh(&self, now: &Instant) -> (r: bool)
        ensures
            r == self.spec_needs_refresh(*now),
    {
        match &self.access_token {
            Some((_, expiry)) => expiry.before(now),
            None => true,
        }
    }

    /// What refreshing the access token at `now` calls for: nothing while it
    /// is valid; else a request with the refresh token, where there is one.
    pub fn refresh_step(&self, now: &Instant, client_id: &str) -> (r: RefreshStep)
        ensures
            match r {
                RefreshStep::UpToDate => !self.spec_needs_refresh(*now),
                RefreshStep::NoRefreshToken => self.spec_needs_refresh(*now) && self.refresh_token is None,
                RefreshStep::Request(form) => self.spec_needs_refresh(*now) && match self.refresh_token {
                    Some(t) => form@ == refresh_token_form(client_id@, t@),
                    None => false,
                },
            },
    {
        if !self.needs_refresh(now) {
            return RefreshStep::UpToDate;
        }
        match &self.refresh_token {
            None => RefreshStep::NoRefreshToken,
            Some(t) => RefreshStep::Request(MicrosoftTokenForm {
                tenant: TENANT.to_owned(),
                client_id: client_id.to_owned(),
                scope: None,
                code: None,
                refresh_token: Some(t.clone()),
                redirect_uri: concat(LOCAL_WEBSERVER_URL, "/microsoft-auth"),
                grant_type: "refresh_token".to_owned(),
                code_verifier: None,
                client_secret: None,
            }),
        }
    }

    /// Whether chrono can compute the expiry of the token of `response`
    /// received at `now`.
    pub open spec fn expiry_computable(response: MicrosoftTokenResponse, now: Instant) -> bool {
        match response {
            MicrosoftTokenResponse::Success { expires_in, .. } => now.can_add_secs(expires_in),
            _ => true,
        }
    }

    /// Takes in the answer to a refresh received at `now`: a new access
    /// token replaces the old one and expires `expires_in` seconds after
    /// `now`; an error answer changes nothing.
    pub fn apply_refresh_response(&mut self, response: MicrosoftTokenResponse, now: &Instant)
        requires
            Self::expiry_computable(response, *now),
        ensures
            final(self).challenge == old(self).challenge,
            final(self).verifier == old(self).verifier,
            final(self).refresh_token == old(self).refresh_token,
            match response {
                MicrosoftTokenResponse::Success { access_token, expires_in, .. } =>
                    final(self).access_token == Some((access_token, Instant { secs: (now.secs + expires_in) as i64, nanos: now.nanos })),
                _ => final(self).access_token == old(self).access_token,
            },
    {
        match response {
            MicrosoftTokenResponse::Success { access_token, expires_in, .. } => {
                self.access_token = Some((access_token, now.plus_secs(expires_in)));
            },
            _ => {},
        }
    }

    /// The form that exchanges the authorization `code` for a token, with
    /// the verifier of the login under way; `None` where no login is under
    /// way.
    pub fn authorization_form(&self, code: &str, client_id: &str) -> (r: Option<MicrosoftTokenForm>)
        ensures
            match r {
                Some(form) => match self.verifier {
                    Some(v) => form@ == authorization_code_form(client_id@, code@, v@),
                    None => false,
                },
                None => self.verifier is None,
            },
    {
        match &self.verifier {
            None => None,
            Some(v) => Some(MicrosoftTokenForm {
                tenant: TENANT.to_owned(),
                client_id: client_id.to_owned(),
                scope: None,
                code: Some(code.to_owned()),
                refresh_token: None,
                redirect_uri: concat(LOCAL_WEBSERVER_URL, "/microsoft-auth"),
                grant_type: "authorization_code".to_owned(),
                code_verifier: Some(v.clone()),
                client_secret: None,
            }),
        }
    }

    /// Takes in the answer to an authorization received at `now`: a
    /// success stores the access token, expiring `expires_in` seconds after
    /// `now`, and the refresh token (or its absence); an error answer
    /// changes nothing and is reported as "Microsoft login failed", with
    /// the error and its description.
    pub fn apply_authorization_response(&mut self, response: MicrosoftTokenResponse, now: &Instant) -> (r: Option<ErrorEventPayload>)
        requires
            Self::expiry_computable(response, *now),
        ensures
            final(self).challenge == old(self).challenge,
            final(self).verifier == old(self).verifier,
            match response {
                MicrosoftTokenResponse::Success { access_token, expires_in, refresh_token, .. } => {
                    &&& r is None
                    &&& final(self).access_token == Some((access_token, Instant { secs: (now.secs + expires_in) as i64, nanos: now.nanos }))
                    &&& final(self).refresh_token == refresh_token
                },
                MicrosoftTokenResponse::Error { error, error_description, .. } => {
                    &&& final(self).access_token == old(self).access_token
                    &&& final(self).refresh_token == old(self).refresh_token
                    &&& r matches Some(p) && p.name@ == "Microsoft login failed"@
                        && p.description@ == error@ + ": "@ + error_description@
                },
            },
    {
        match response {
            MicrosoftTokenResponse::Success { access_token, expires_in, refresh_token, .. } => {
                self.access_token = Some((access_token, now.plus_secs(expires_in)));
                self.refresh_token = refresh_token;
                None
            },
            MicrosoftTokenResponse::Error { error, error_description, .. } => {
                let head = concat(error.as_str(), ": ");
                let description = concat(head.as_str(), error_description.as_str());
                Some(error_payload("Microsoft login failed", description.as_str()))
            },
        }
    }

    /// Starts a login with the PKCE pair `challenge` and `verifier`: where
    /// the login page's address can be built, the pair is kept for the rest
    /// of the login and the address is returned; else nothing changes.
    pub fn begin_login_with(&mut self, challenge: String, verifier: String, client_id: &str) -> (r: Result<String, url::ParseError>)
        ensures
            final(self).access_token == old(self).access_token,
            final(self).refresh_token == old(self).refresh_token,
            match r {
                Ok(u) => {
                    &&& spec_url_with_params(authorize_endpoint(), auth_url_params(client_id@, ""@, challenge@)) == Some(u@)
                    &&& final(self).challenge == Some(challenge)
                    &&& final(self).verifier == Some(verifier)
                },
                Err(_) => {
                    &&& spec_url_with_params(authorize_endpoint(), auth_url_params(client_id@, ""@, challenge@)) is None
                    &&& final(self).challenge == old(self).challenge
                    &&& final(self).verifier == old(self).verifier
                },
            },
    {
        let url = generate_microsoft_auth_url(client_id, "", challenge.as_str());
        match url {
            Ok(u) => {
                self.challenge = Some(challenge);
                self.verifier = Some(verifier);
                Ok(u)
            },
            Err(e) => Err(e),
        }
    }

    /// Starts a login with the PKCE code verifier `verifier` (drawn at
    /// random by the caller) and the S256 challenge made of it (see
    /// [`Self::begin_login_with`]): the challenge that the login page's
    /// address carries is the one made of the verifier kept for the token
    /// request.  It fails only where the `url` crate refuses the login
    /// page's address built with that challenge.  The verifier takes 43 to
    /// 128 bytes, as PKCE asks (`oauth2` panics on any other).
    pub fn begin_login(&mut self, verifier: String, client_id: &str) -> (r: Result<String, url::ParseError>)
        requires
            43 <= encode_utf8(verifier@).len() <= 128,
        ensures
            final(self).access_token == old(self).access_token,
            final(self).refresh_token == old(self).refresh_token,
            match r {
                Ok(u) => {
                    &&& final(self).challenge matches Some(c) && c@ == spec_pkce_s256(verifier@) && c@.len() == 43
                    &&& final(self).verifier == Some(verifier)
                    &&& spec_url_with_params(authorize_endpoint(), auth_url_params(client_id@, ""@, spec_pkce_s256(verifier@))) == Some(u@)
                },
                Err(_) => {
                    &&& final(self).challenge == old(self).challenge
                    &&& final(self).verifier == old(self).verifier
                    &&& spec_url_with_params(authorize_endpoint(), auth_url_params(client_id@, ""@, spec_pkce_s256(verifier@))) is None
                },
            },
    {
        let challenge = pkce_challenge_s256(verifier.as_str());
        self.begin_login_with(challenge, verifier, client_id)
    }
}

} // verus!
