//! Declarations of the outside types that the library carries, and the
//! functions of outside crates (and of std, where vstd gives no
//! specification) that it calls, each with the contract that the rest of
//! the library relies on.

use vstd::prelude::*;
use serde_json::Error as JsonError;
use reqwest::Error as ReqwestError;
use serde_urlencoded::ser::Error as UrlencodedError;
use crate::update::hash::HashAlgorithm;
use crate::routing::QUERY_PARAM_PATTERN;
use crate::text::is_separator;
use vstd::utf8::encode_utf8;

verus! {

/// `std::io::Error`, carried opaquely inside [`crate::update::error::Error`].
#[verifier::external_type_specification]
#[verifier::external_body]
pub struct ExIoError(std::io::Error);

/// `std::path::StripPrefixError`, carried opaquely.
#[verifier::external_type_specification]
#[verifier::external_body]
pub struct ExStripPrefixError(std::path::StripPrefixError);

/// `std::str::Utf8Error`, carried opaquely.
#[verifier::external_type_specification]
#[verifier::external_body]
pub struct ExUtf8Error(std::str::Utf8Error);

/// `url::ParseError`, the error of the `url` crate's parser, carried opaquely.
#[verifier::external_type_specification]
#[verifier::external_body]
pub struct ExUrlParseError(url::ParseError);

/// `serde_json::Error`, carried opaquely.
#[verifier::external_type_specification]
#[verifier::external_body]
pub struct ExJsonError(JsonError);

/// `reqwest::Error`, carried opaquely.
#[verifier::external_type_specification]
#[verifier::external_body]
pub struct ExReqwestError(ReqwestError);

} // verus!

verus! {

/// The views of a list of string pairs.
pub open spec fn pairs_view(pairs: Seq<(String, String)>) -> Seq<(Seq<char>, Seq<char>)> {
    pairs.map_values(|p: (String, String)| (p.0@, p.1@))
}

// ---------------------------------------------------------------- std

/// What `str::to_lowercase` returns for a string.
pub uninterp spec fn spec_to_lowercase(s: Seq<char>) -> Seq<char>;

/// Calls `str::to_lowercase`; the result is named [`spec_to_lowercase`]
/// (Unicode lower-casing is left unstated).
#[verifier::external_body]
pub fn to_lowercase(s: &str) -> (res: String)
    ensures
        res@ == spec_to_lowercase(s@),
{
    s.to_lowercase()
}

/// Whether `Path::join` appends `path` to `base` on every build target:
/// `path` has no root (it does not start with a separator) and no drive
/// prefix (a character and a `:` at its start), and `base` does not start
/// with two separators (as a verbatim prefix does, under which joining also
/// resolves `..`).
pub open spec fn joins_below(base: Seq<char>, path: Seq<char>) -> bool {
    &&& path.len() > 0 ==> !is_separator(path[0])
    &&& path.len() >= 2 ==> path[1] != ':'
    &&& base.len() >= 2 ==> !(is_separator(base[0]) && is_separator(base[1]))
}

/// What `Path::join` gives (as text) for a base path and a path joined to
/// it.  Paths are split with the separators and prefixes of the build
/// target, so the name stands for one target's `Path`; it is fixed within a
/// build.
pub uninterp spec fn spec_path_join(base: Seq<char>, path: Seq<char>) -> Seq<char>;

/// Calls `std::path::Path::join` on two UTF-8 paths; joining two UTF-8
/// paths gives a UTF-8 path, so the result is returned as text.  The result
/// is named [`spec_path_join`].  Where `path` is appended (see
/// [`joins_below`]), the result starts with `base` as `Path::starts_with`
/// sees it: appending adds components after those of `base`.
#[verifier::external_body]
pub fn path_join(base: &str, path: &str) -> (res: String)
    ensures
        res@ == spec_path_join(base@, path@),
        joins_below(base@, path@) ==> spec_path_starts_with(res@, base@),
{
    std::path::Path::new(base).join(path).to_string_lossy().into_owned()
}

/// Whether `Path::starts_with` holds of two paths (a prefix of whole
/// components).  Components are read with the build target's separators
/// and prefixes; the name is fixed within a build.
pub uninterp spec fn spec_path_starts_with(path: Seq<char>, base: Seq<char>) -> bool;

/// Calls `std::path::Path::starts_with`; the result is named
/// [`spec_path_starts_with`].  A path starts with itself: its components
/// are a prefix of themselves.
#[verifier::external_body]
pub fn path_starts_with(path: &str, base: &str) -> (res: bool)
    ensures
        res == spec_path_starts_with(path@, base@),
        path@ == base@ ==> res,
{
    std::path::Path::new(path).starts_with(base)
}

/// Whether two paths are equal as `std::path::Path` compares them
/// (component by component).  Components are read with the build target's
/// separators and prefixes; the name is fixed within a build.
pub uninterp spec fn spec_path_eq(a: Seq<char>, b: Seq<char>) -> bool;

/// Calls `PartialEq::eq` of `std::path::Path`; the result is named
/// [`spec_path_eq`].  `Path` is `Eq`, so the comparison is reflexive and
/// symmetric, which the last two clauses state of this call.
#[verifier::external_body]
pub fn path_eq(a: &str, b: &str) -> (res: bool)
    ensures
        res == spec_path_eq(a@, b@),
        a@ == b@ ==> res,
        res == spec_path_eq(b@, a@),
{
    std::path::Path::new(a) == std::path::Path::new(b)
}

} // verus!

verus! {

// ---------------------------------------------------------------- ring

/// The digest that `ring::digest::digest` computes of some data with an algorithm.
pub uninterp spec fn spec_digest(algorithm: HashAlgorithm, data: Seq<u8>) -> Seq<u8>;

/// The most bytes that `ring` digests without panicking: its algorithms
/// count the input in a 64-bit number of bits.
pub open spec fn digest_input_limit() -> nat {
    0x2000_0000_0000_0000
}

/// Calls `ring::digest::digest` with the algorithm of `ring` that
/// `algorithm` names, and returns the digest's bytes, named [`spec_digest`].
/// `ring` panics on an input of 2^61 bytes or more, which `requires` leaves out.
#[verifier::external_body]
pub fn digest(algorithm: HashAlgorithm, data: &[u8]) -> (res: Vec<u8>)
    requires
        data@.len() < digest_input_limit(),
    ensures
        res@ == spec_digest(algorithm, data@),
{
    let algorithm = match algorithm {
        HashAlgorithm::Sha256 => &ring::digest::SHA256,
        HashAlgorithm::Sha384 => &ring::digest::SHA384,
        HashAlgorithm::Sha512 => &ring::digest::SHA512,
        HashAlgorithm::Sha512_256 => &ring::digest::SHA512_256,
    };
    ring::digest::digest(algorithm, data).as_ref().to_vec()
}

// ---------------------------------------------------------------- base32

/// What `base32::decode` returns for a text in the Crockford alphabet.
pub uninterp spec fn spec_crockford_decode(text: Seq<char>) -> Option<Seq<u8>>;

/// Calls `base32::decode` with the Crockford alphabet; the result is named
/// [`spec_crockford_decode`].
#[verifier::external_body]
pub fn crockford_decode(text: &str) -> (res: Option<Vec<u8>>)
    ensures
        match res {
            Some(v) => spec_crockford_decode(text@) == Some(v@),
            None => spec_crockford_decode(text@) is None,
        },
{
    base32::decode(base32::Alphabet::Crockford, text)
}

// ---------------------------------------------------------------- url

/// The text of the URL that `url::Url::parse(base)` and then `Url::join(input)`
/// give, or `None` where either fails.
pub uninterp spec fn spec_join_url(base: Seq<char>, input: Seq<char>) -> Option<Seq<char>>;

/// Parses `base` with `url::Url::parse`, resolves `input` against it with
/// `url::Url::join`, and returns the resulting URL's text; the result is
/// named [`spec_join_url`], and the error of either call is handed back.
#[verifier::external_body]
pub fn join_url(base: &str, input: &str) -> (res: Result<String, url::ParseError>)
    ensures
        match res {
            Ok(u) => spec_join_url(base@, input@) == Some(u@),
            Err(_) => spec_join_url(base@, input@) is None,
        },
{
    match url::Url::parse(base) {
        Ok(b) => b.join(input).map(String::from),
        Err(e) => Err(e),
    }
}

/// The text of the URL that `url::Url::parse_with_params` builds from a
/// base URL and query parameters, or `None` where the base does not parse.
pub uninterp spec fn spec_url_with_params(input: Seq<char>, params: Seq<(Seq<char>, Seq<char>)>) -> Option<Seq<char>>;

/// Calls `url::Url::parse_with_params` and returns the URL's text; the
/// result is named [`spec_url_with_params`].
#[verifier::external_body]
pub fn url_with_params(input: &str, params: &Vec<(String, String)>) -> (res: Result<String, url::ParseError>)
    ensures
        match res {
            Ok(u) => spec_url_with_params(input@, pairs_view(params@)) == Some(u@),
            Err(_) => spec_url_with_params(input@, pairs_view(params@)) is None,
        },
{
    url::Url::parse_with_params(input, params.iter()).map(String::from)
}

// ---------------------------------------------------------------- serde_urlencoded

/// `serde_urlencoded::ser::Error`, carried opaquely.
#[verifier::external_type_specification]
#[verifier::external_body]
pub struct ExUrlencodedError(UrlencodedError);

/// The `application/x-www-form-urlencoded` text that
/// `serde_urlencoded::to_string` makes of a sequence of string pairs.
pub uninterp spec fn spec_urlencode(pairs: Seq<(Seq<char>, Seq<char>)>) -> Seq<char>;

/// Calls `serde_urlencoded::to_string` on a sequence of string pairs.  Its
/// source serialises a sequence of two-element tuples of strings as
/// `key=value` pairs without ever failing, so the result is always `Ok`, and
/// its text is named [`spec_urlencode`].
#[verifier::external_body]
pub fn urlencode(pairs: &Vec<(String, String)>) -> (res: Result<String, UrlencodedError>)
    ensures
        match res {
            Ok(s) => s@ == spec_urlencode(pairs_view(pairs@)),
            Err(_) => false,
        },
{
    serde_urlencoded::to_string(pairs)
}

// ---------------------------------------------------------------- regex

/// What `regex::Regex::captures` finds in a text with the regular
/// expression `pattern`: `None` where it does not match, else the texts of
/// its first two capture groups (each `None` where the group did not take
/// part in the match).
pub uninterp spec fn spec_regex_captures(pattern: Seq<char>, text: Seq<char>) -> Option<(Option<Seq<char>>, Option<Seq<char>>)>;

/// The views of an optional pair of optional texts.
pub open spec fn captures_view(c: Option<(Option<String>, Option<String>)>) -> Option<(Option<Seq<char>>, Option<Seq<char>>)> {
    match c {
        Some((a, b)) => Some((
            match a { Some(x) => Some(x@), None => None },
            match b { Some(x) => Some(x@), None => None },
        )),
        None => None,
    }
}

/// Compiles `pattern` with `regex::Regex::new` and calls
/// `regex::Regex::captures` on `text`, returning the texts of the first two
/// capture groups; the result is named [`spec_regex_captures`].
/// `Regex::new` fails on an invalid pattern (and the call would then
/// panic), so `requires` admits only the query-parameter pattern, which is
/// valid.
#[verifier::external_body]
pub fn regex_captures(pattern: &str, text: &str) -> (res: Option<(Option<String>, Option<String>)>)
    requires
        pattern@ == QUERY_PARAM_PATTERN@,
    ensures
        captures_view(res) == spec_regex_captures(pattern@, text@),
{
    let regex = regex::Regex::new(pattern).unwrap();
    regex.captures(text).map(|m| (m.get(1).map(|g| g.as_str().to_owned()), m.get(2).map(|g| g.as_str().to_owned())))
}

// ---------------------------------------------------------------- oauth2

/// The S256 code challenge that `oauth2::PkceCodeChallenge::from_code_verifier_sha256`
/// makes of a PKCE code verifier: the SHA-256 digest of the verifier's text,
/// in URL-safe base64 without padding.
pub uninterp spec fn spec_pkce_s256(verifier: Seq<char>) -> Seq<char>;

/// Calls `oauth2::PkceCodeChallenge::from_code_verifier_sha256` on the
/// verifier `verifier` and returns the challenge's text, named
/// [`spec_pkce_s256`]; a SHA-256 digest is 32 bytes, which URL-safe base64
/// without padding writes in 43 characters.  The function panics on a
/// verifier of fewer than 43 or more than 128 bytes, which `requires`
/// leaves out.
#[verifier::external_body]
pub fn pkce_challenge_s256(verifier: &str) -> (res: String)
    requires
        43 <= encode_utf8(verifier@).len() <= 128,
    ensures
        res@ == spec_pkce_s256(verifier@),
        res@.len() == 43,
{
    let verifier = oauth2::PkceCodeVerifier::new(verifier.to_owned());
    oauth2::PkceCodeChallenge::from_code_verifier_sha256(&verifier).as_str().to_owned()
}

} // verus!
