use vstd::prelude::*;

use crate::rate_limit::RateLimiter;

verus! {

/// Requests a client may make within one window on the authentication
/// surface.
pub const DEFAULT_MAX_REQUESTS: usize = 100;

/// Length of the rate-limit window, in milliseconds.
pub const DEFAULT_WINDOW_MS: u64 = 60000;

/// The key a development client presents in `X-API-Key`.
pub const DEV_API_KEY: &'static str = "dev-api-key-12345";

/// The response headers every answer carries, name and value.
pub open spec fn header_table() -> Seq<(Seq<char>, Seq<char>)> {
    seq![
        ("Content-Security-Policy"@, "default-src 'self'; script-src 'self' 'unsafe-inline'; style-src 'self' 'unsafe-inline' https://fonts.googleapis.com; font-src 'self' https://fonts.gstatic.com; img-src 'self' data: https:; connect-src 'self' http://localhost:3000"@),
        ("X-Frame-Options"@, "DENY"@),
        ("X-Content-Type-Options"@, "nosniff"@),
        ("X-XSS-Protection"@, "1; mode=block"@),
        ("Referrer-Policy"@, "strict-origin-when-cross-origin"@),
        ("Permissions-Policy"@, "camera=(), microphone=(), geolocation=()"@),
        ("X-API-Version"@, "v1.0"@),
    ]
}

/// The security headers to set on every response.
pub fn security_headers() -> (r: Vec<(&'static str, &'static str)>)
    ensures
        r@.map_values(|p: (&'static str, &'static str)| (p.0@, p.1@)) == header_table(),
{
    let r = vec![
        ("Content-Security-Policy", "default-src 'self'; script-src 'self' 'unsafe-inline'; style-src 'self' 'unsafe-inline' https://fonts.googleapis.com; font-src 'self' https://fonts.gstatic.com; img-src 'self' data: https:; connect-src 'self' http://localhost:3000"),
        ("X-Frame-Options", "DENY"),
        ("X-Content-Type-Options", "nosniff"),
        ("X-XSS-Protection", "1; mode=block"),
        ("Referrer-Policy", "strict-origin-when-cross-origin"),
        ("Permissions-Policy", "camera=(), microphone=(), geolocation=()"),
        ("X-API-Version", "v1.0"),
    ];
    assert(r@.map_values(|p: (&'static str, &'static str)| (p.0@, p.1@)) =~= header_table());
    r
}

/// The answer to a request carrying the header values `api_key` and
/// `requested_with`: 401 without the development key, 400 without the
/// `XMLHttpRequest` marker (a guard against cross-site requests), else
/// admitted.
pub fn check_api_key(api_key: Option<String>, requested_with: Option<String>) -> (r: Result<(), u16>)
    ensures
        !(api_key.is_some() && api_key.unwrap()@ == DEV_API_KEY@) ==> r == Err::<(), u16>(401),
        api_key.is_some() && api_key.unwrap()@ == DEV_API_KEY@ && !(requested_with.is_some()
            && requested_with.unwrap()@ == "XMLHttpRequest"@) ==> r == Err::<(), u16>(400),
        api_key.is_some() && api_key.unwrap()@ == DEV_API_KEY@ && requested_with.is_some()
            && requested_with.unwrap()@ == "XMLHttpRequest"@ ==> r == Ok::<(), u16>(()),
{
    let expected_key = DEV_API_KEY.to_owned();
    let key_ok = match &api_key {
        Some(k) => k.eq(&expected_key),
        None => false,
    };
    if !key_ok {
        return Err(401);
    }
    let marker = "XMLHttpRequest".to_owned();
    let marker_ok = match &requested_with {
        Some(v) => v.eq(&marker),
        None => false,
    };
    if !marker_ok {
        return Err(400);
    }
    Ok(())
}

/// Installs the response headers and the rate limit on the router.
pub struct SecurityInitializer;

impl SecurityInitializer {
    pub fn name(&self) -> (r: String)
        ensures
            r@ == "security"@,
    {
        "security".to_owned()
    }

    /// The admission gate for every route, with the default limit and window.
    pub fn rate_limiter(&self) -> (r: RateLimiter)
        ensures
            r.wf(),
            r.limit() == DEFAULT_MAX_REQUESTS,
            r.window_length() == DEFAULT_WINDOW_MS,
            forall|c: Seq<char>| r.history(c) == Seq::<u64>::empty(),
    {
        RateLimiter::new(DEFAULT_MAX_REQUESTS, DEFAULT_WINDOW_MS)
    }
}

} // verus!
