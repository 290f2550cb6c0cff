use vstd::prelude::*;
use crate::foreign::{pairs_view, spec_urlencode, urlencode};
use crate::text::{concat, opt_view};

verus! {

/// What Microsoft's token endpoint answers.
pub enum MicrosoftTokenResponse {
    Success {
        access_token: String,
        token_type: String,
        expires_in: u32,
        scope: Option<String>,
        refresh_token: Option<String>,
    },
    Error {
        error: String,
        error_description: String,
        error_codes: Vec<u32>,
        timestamp: String,
        trace_id: String,
        correlation_id: String,
    },
}

/// The form sent to Microsoft's token endpoint.
pub struct MicrosoftTokenForm {
    pub tenant: String,
    pub client_id: String,
    pub scope: Option<String>,
    pub code: Option<String>,
    pub refresh_token: Option<String>,
    pub redirect_uri: String,
    pub grant_type: String,
    pub code_verifier: Option<String>,
    pub client_secret: Option<String>,
}

pub struct MicrosoftTokenFormView {
    pub tenant: Seq<char>,
    pub client_id: Seq<char>,
    pub scope: Option<Seq<char>>,
    pub code: Option<Seq<char>>,
    pub refresh_token: Option<Seq<char>>,
    pub redirect_uri: Seq<char>,
    pub grant_type: Seq<char>,
    pub code_verifier: Option<Seq<char>>,
    pub client_secret: Option<Seq<char>>,
}

impl View for MicrosoftTokenForm {
    type V = MicrosoftTokenFormView;

    open spec fn view(&self) -> MicrosoftTokenFormView {
        MicrosoftTokenFormView {
            tenant: self.tenant@,
            client_id: self.client_id@,
            scope: opt_view(self.scope),
            code: opt_view(self.code),
            refresh_token: opt_view(self.refresh_token),
            redirect_uri: self.redirect_uri@,
            grant_type: self.grant_type@,
            code_verifier: opt_view(self.code_verifier),
            client_secret: opt_view(self.client_secret),
        }
    }
}

/// The pair for an optional field: none where it is absent.
pub open spec fn optional_pair(name: Seq<char>, value: Option<Seq<char>>) -> Seq<(Seq<char>, Seq<char>)> {
    match value {
        Some(v) => seq![(name, v)],
        None => Seq::empty(),
    }
}

/// The `name=value` pairs of a form, in the order of its fields, the absent
/// optional fields left out.
pub open spec fn form_pairs(f: MicrosoftTokenFormView) -> Seq<(Seq<char>, Seq<char>)> {
    seq![("tenant"@, f.tenant), ("client_id"@, f.client_id)]
        + optional_pair("scope"@, f.scope)
        + optional_pair("code"@, f.code)
        + optional_pair("refresh_token"@, f.refresh_token)
        + seq![("redirect_uri"@, f.redirect_uri), ("grant_type"@, f.grant_type)]
        + optional_pair("code_verifier"@, f.code_verifier)
        + optional_pair("client_secret"@, f.client_secret)
}

proof fn lemma_contains_in_concat(a: Seq<(Seq<char>, Seq<char>)>, b: Seq<(Seq<char>, Seq<char>)>, x: (Seq<char>, Seq<char>))
    ensures
        a.contains(x) ==> (a + b).contains(x),
        b.contains(x) ==> (a + b).contains(x),
{
    if a.contains(x) {
        let i = choose|i: int| 0 <= i < a.len() && a[i] == x;
        assert((a + b)[i] == x);
    }
    if b.contains(x) {
        let i = choose|i: int| 0 <= i < b.len() && b[i] == x;
        assert((a + b)[a.len() + i] == x);
    }
}

/// Every field of a token form that is present is sent with its value: the
/// four fields that are always there, and each optional field that holds a
/// value.
pub proof fn lemma_form_pairs_carry_every_field(f: MicrosoftTokenFormView)
    ensures
        form_pairs(f).contains(("tenant"@, f.tenant)),
        form_pairs(f).contains(("client_id"@, f.client_id)),
        form_pairs(f).contains(("redirect_uri"@, f.redirect_uri)),
        form_pairs(f).contains(("grant_type"@, f.grant_type)),
        f.scope matches Some(v) ==> form_pairs(f).contains(("scope"@, v)),
        f.code matches Some(v) ==> form_pairs(f).contains(("code"@, v)),
        f.refresh_token matches Some(v) ==> form_pairs(f).contains(("refresh_token"@, v)),
        f.code_verifier matches Some(v) ==> form_pairs(f).contains(("code_verifier"@, v)),
        f.client_secret matches Some(v) ==> form_pairs(f).contains(("client_secret"@, v)),
{
    let p0 = seq![("tenant"@, f.tenant), ("client_id"@, f.client_id)];
    let p1 = optional_pair("scope"@, f.scope);
    let p2 = optional_pair("code"@, f.code);
    let p3 = optional_pair("refresh_token"@, f.refresh_token);
    let p4 = seq![("redirect_uri"@, f.redirect_uri), ("grant_type"@, f.grant_type)];
    let p5 = optional_pair("code_verifier"@, f.code_verifier);
    let p6 = optional_pair("client_secret"@, f.client_secret);
    assert(p0[0] == ("tenant"@, f.tenant));
    assert(p0[1] == ("client_id"@, f.client_id));
    assert(p4[0] == ("redirect_uri"@, f.redirect_uri));
    assert(p4[1] == ("grant_type"@, f.grant_type));
    if let Some(v) = f.scope { assert(p1[0] == ("scope"@, v)); }
    if let Some(v) = f.code { assert(p2[0] == ("code"@, v)); }
    if let Some(v) = f.refresh_token { assert(p3[0] == ("refresh_token"@, v)); }
    if let Some(v) = f.code_verifier { assert(p5[0] == ("code_verifier"@, v)); }
    if let Some(v) = f.client_secret { assert(p6[0] == ("client_secret"@, v)); }
    let q1 = p0 + p1;
    let q2 = q1 + p2;
    let q3 = q2 + p3;
    let q4 = q3 + p4;
    let q5 = q4 + p5;
    let q6 = q5 + p6;
    assert(q6 == form_pairs(f));
    assert forall|x: (Seq<char>, Seq<char>)| #![trigger q6.contains(x)] p0.contains(x) || p1.contains(x) || p2.contains(x)
        || p3.contains(x) || p4.contains(x) || p5.contains(x) || p6.contains(x) implies q6.contains(x) by {
        lemma_contains_in_concat(p0, p1, x);
        lemma_contains_in_concat(q1, p2, x);
        lemma_contains_in_concat(q2, p3, x);
        lemma_contains_in_concat(q3, p4, x);
        lemma_contains_in_concat(q4, p5, x);
        lemma_contains_in_concat(q5, p6, x);
    }
    assert(q6.contains(("tenant"@, f.tenant)));
    assert(q6.contains(("client_id"@, f.client_id)));
    assert(q6.contains(("redirect_uri"@, f.redirect_uri)));
    assert(q6.contains(("grant_type"@, f.grant_type)));
    if let Some(v) = f.scope { assert(q6.contains(("scope"@, v))); }
    if let Some(v) = f.code { assert(q6.contains(("code"@, v))); }
    if let Some(v) = f.refresh_token { assert(q6.contains(("refresh_token"@, v))); }
    if let Some(v) = f.code_verifier { assert(q6.contains(("code_verifier"@, v))); }
    if let Some(v) = f.client_secret { assert(q6.contains(("client_secret"@, v))); }
}

/// Whether `x` is a field of the form `f` with its value: one of the four
/// fields that are always there, or an optional field that holds the value.
pub open spec fn is_field_of(f: MicrosoftTokenFormView, x: (Seq<char>, Seq<char>)) -> bool {
    ||| x == ("tenant"@, f.tenant)
    ||| x == ("client_id"@, f.client_id)
    ||| x == ("redirect_uri"@, f.redirect_uri)
    ||| x == ("grant_type"@, f.grant_type)
    ||| x.0 == "scope"@ && f.scope == Some(x.1)
    ||| x.0 == "code"@ && f.code == Some(x.1)
    ||| x.0 == "refresh_token"@ && f.refresh_token == Some(x.1)
    ||| x.0 == "code_verifier"@ && f.code_verifier == Some(x.1)
    ||| x.0 == "client_secret"@ && f.client_secret == Some(x.1)
}

proof fn lemma_all_in_concat(f: MicrosoftTokenFormView, a: Seq<(Seq<char>, Seq<char>)>, b: Seq<(Seq<char>, Seq<char>)>)
    requires
        forall|i: int| 0 <= i < a.len() ==> is_field_of(f, #[trigger] a[i]),
        forall|i: int| 0 <= i < b.len() ==> is_field_of(f, #[trigger] b[i]),
    ensures
        forall|i: int| 0 <= i < (a + b).len() ==> is_field_of(f, #[trigger] (a + b)[i]),
{
    assert forall|i: int| 0 <= i < (a + b).len() implies is_field_of(f, #[trigger] (a + b)[i]) by {
        if i < a.len() {
            assert((a + b)[i] == a[i]);
        } else {
            assert((a + b)[i] == b[i - a.len()]);
        }
    }
}

/// Nothing but the form's fields is sent: every pair is a field of the
/// form with its value, so an absent optional field is not sent at all.
pub proof fn lemma_form_pairs_are_fields(f: MicrosoftTokenFormView)
    ensures
        forall|i: int| 0 <= i < form_pairs(f).len() ==> is_field_of(f, #[trigger] form_pairs(f)[i]),
{
    let p0 = seq![("tenant"@, f.tenant), ("client_id"@, f.client_id)];
    let p1 = optional_pair("scope"@, f.scope);
    let p2 = optional_pair("code"@, f.code);
    let p3 = optional_pair("refresh_token"@, f.refresh_token);
    let p4 = seq![("redirect_uri"@, f.redirect_uri), ("grant_type"@, f.grant_type)];
    let p5 = optional_pair("code_verifier"@, f.code_verifier);
    let p6 = optional_pair("client_secret"@, f.client_secret);
    assert forall|i: int| 0 <= i < p0.len() implies is_field_of(f, #[trigger] p0[i]) by {}
    assert forall|i: int| 0 <= i < p1.len() implies is_field_of(f, #[trigger] p1[i]) by {}
    assert forall|i: int| 0 <= i < p2.len() implies is_field_of(f, #[trigger] p2[i]) by {}
    assert forall|i: int| 0 <= i < p3.len() implies is_field_of(f, #[trigger] p3[i]) by {}
    assert forall|i: int| 0 <= i < p4.len() implies is_field_of(f, #[trigger] p4[i]) by {}
    assert forall|i: int| 0 <= i < p5.len() implies is_field_of(f, #[trigger] p5[i]) by {}
    assert forall|i: int| 0 <= i < p6.len() implies is_field_of(f, #[trigger] p6[i]) by {}
    lemma_all_in_concat(f, p0, p1);
    lemma_all_in_concat(f, p0 + p1, p2);
    lemma_all_in_concat(f, p0 + p1 + p2, p3);
    lemma_all_in_concat(f, p0 + p1 + p2 + p3, p4);
    lemma_all_in_concat(f, p0 + p1 + p2 + p3 + p4, p5);
    lemma_all_in_concat(f, p0 + p1 + p2 + p3 + p4 + p5, p6);
    assert(p0 + p1 + p2 + p3 + p4 + p5 + p6 == form_pairs(f));
}

fn push_optional(pairs: &mut Vec<(String, String)>, name: &str, value: &Option<String>)
    ensures
        pairs_view(final(pairs)@) == pairs_view(old(pairs)@) + optional_pair(name@, opt_view(*value)),
{
    let ghost before = pairs_view(pairs@);
    match value {
        Some(v) => {
            pairs.push((name.to_owned(), v.clone()));
            assert(pairs_view(pairs@) =~= before + seq![(name@, v@)]);
        },
        None => {
            assert(before + Seq::<(Seq<char>, Seq<char>)>::empty() =~= before);
        },
    }
}

impl MicrosoftTokenForm {
    /// The `name=value` pairs of the form, in the order of its fields.
    pub fn pairs(&self) -> (r: Vec<(String, String)>)
        ensures
            pairs_view(r@) == form_pairs(self@),
    {
        let mut r: Vec<(String, String)> = Vec::new();
        r.push(("tenant".to_owned(), self.tenant.clone()));
        r.push(("client_id".to_owned(), self.client_id.clone()));
        assert(pairs_view(r@) =~= seq![("tenant"@, self.tenant@), ("client_id"@, self.client_id@)]);
        push_optional(&mut r, "scope", &self.scope);
        push_optional(&mut r, "code", &self.code);
        push_optional(&mut r, "refresh_token", &self.refresh_token);
        let ghost before = pairs_view(r@);
        r.push(("redirect_uri".to_owned(), self.redirect_uri.clone()));
        r.push(("grant_type".to_owned(), self.grant_type.clone()));
        assert(pairs_view(r@) =~= before + seq![("redirect_uri"@, self.redirect_uri@), ("grant_type"@, self.grant_type@)]);
        push_optional(&mut r, "code_verifier", &self.code_verifier);
        push_optional(&mut r, "client_secret", &self.client_secret);
        assert(pairs_view(r@) =~= form_pairs(self@));
        r
    }

    /// The form as an `application/x-www-form-urlencoded` body.
    pub fn encode(&self) -> (r: String)
        ensures
            r@ == spec_urlencode(form_pairs(self@)),
    {
        let pairs = self.pairs();
        match urlencode(&pairs) {
            Ok(body) => body,
            Err(_) => String::new(),
        }
    }
}

/// The content type of the body of a token request.
pub const FORM_CONTENT_TYPE: &'static str = "application/x-www-form-urlencoded";

/// Everything that a request to Microsoft's token endpoint sends: it is
/// posted to `url` with `content_type` and `body`.
pub struct TokenRequest {
    pub url: String,
    pub content_type: String,
    pub body: String,
}

/// The URL of the token endpoint of a tenant.
pub open spec fn token_endpoint(tenant: Seq<char>) -> Seq<char> {
    "https://login.microsoftonline.com/"@ + tenant + "/oauth2/v2.0/token"@
}

/// The request that asks `tenant`'s token endpoint for a token with `form`.
pub fn microsoft_token_request(tenant: &str, form: &MicrosoftTokenForm) -> (r: TokenRequest)
    ensures
        r.url@ == token_endpoint(tenant@),
        r.content_type@ == FORM_CONTENT_TYPE@,
        r.body@ == spec_urlencode(form_pairs(form@)),
{
    let prefix = concat("https://login.microsoftonline.com/", tenant);
    let url = concat(prefix.as_str(), "/oauth2/v2.0/token");
    TokenRequest { url, content_type: FORM_CONTENT_TYPE.to_owned(), body: form.encode() }
}

/// What Xbox Live answers to an authentication.
pub struct XBoxLiveAuthenticationResponse {
    pub issue_instant: String,
    pub not_after: String,
    pub token: String,
    pub display_claims: XBoxLiveAuthenticationDisplayClaims,
}

pub struct XBoxLiveAuthenticationDisplayClaims {
    pub xui: Vec<XBoxLiveAuthenticationClaim>,
}

pub struct XBoxLiveAuthenticationClaim {
    pub uhs: String,
}

/// The properties of an Xbox Live authentication.
pub struct XBoxLiveAuthProps {
    pub auth_method: String,
    pub site_name: String,
    pub rps_ticket: String,
}

/// The body of an Xbox Live authentication.
pub struct XBoxLiveAuthForm {
    pub properties: XBoxLiveAuthProps,
    pub relying_party: String,
    pub token_type: String,
}

/// Where Xbox Live authenticates a user.
pub const XBOX_LIVE_AUTH_URL: &'static str = "https://user.auth.xboxlive.com/user/authenticate";

/// The body that authenticates with Xbox Live the holder of a Microsoft
/// access token.
pub fn xbox_live_auth_form(access_token: &str) -> (f: XBoxLiveAuthForm)
    ensures
        f.properties.auth_method@ == "RPS"@,
        f.properties.site_name@ == "user.auth.xboxlive.com"@,
        f.properties.rps_ticket@ == "d="@ + access_token@,
        f.relying_party@ == "http://auth.xboxlive.com"@,
        f.token_type@ == "JWT"@,
{
    XBoxLiveAuthForm {
        properties: XBoxLiveAuthProps {
            auth_method: "RPS".to_owned(),
            site_name: "user.auth.xboxlive.com".to_owned(),
            rps_ticket: concat("d=", access_token),
        },
        relying_party: "http://auth.xboxlive.com".to_owned(),
        token_type: "JWT".to_owned(),
    }
}

/// The token and the user hash of an Xbox Live authentication: the hash of
/// the first claim, or `None` where there is no claim.
pub fn xbox_token_and_user_hash(response: &XBoxLiveAuthenticationResponse) -> (r: Option<(String, String)>)
    ensures
        match r {
            Some((token, hash)) => response.display_claims.xui@.len() > 0 && token@ == response.token@
                && hash@ == response.display_claims.xui@[0].uhs@,
            None => response.display_claims.xui@.len() == 0,
        },
{
    if response.display_claims.xui.len() == 0 {
        None
    } else {
        Some((response.token.clone(), response.display_claims.xui[0].uhs.clone()))
    }
}

} // verus!
