//! The scheme rule for endpoint texts: a bare `host:port` gets the scheme that the configured
//! transport speaks, an explicit scheme always stands.
use vstd::prelude::*;
use vstd::string::*;

use crate::text::{joined, starts_with};

verus! {

/// True of an endpoint that names its scheme itself.
pub open spec fn has_scheme(endpoint: Seq<char>) -> bool {
    "http://"@.is_prefix_of(endpoint) || "https://"@.is_prefix_of(endpoint)
}

/// The URI that an endpoint stands for.
pub open spec fn normalized(endpoint: Seq<char>, tls: bool) -> Seq<char> {
    if has_scheme(endpoint) {
        endpoint
    } else if tls {
        "https://"@ + endpoint
    } else {
        "http://"@ + endpoint
    }
}

/// Applies the scheme rule to an endpoint.
///
/// - An explicit `http://...` or `https://...` is returned as it is, whatever `tls` says.
/// - A bare `host:port` becomes `https://host:port` where `tls` is set, else `http://host:port`.
pub fn normalize_uri(endpoint: &str, tls: bool) -> (r: String)
    ensures
        r@ == normalized(endpoint@, tls),
{
    if starts_with(endpoint, "http://") || starts_with(endpoint, "https://") {
        String::from_str(endpoint)
    } else if tls {
        joined("https://", endpoint)
    } else {
        joined("http://", endpoint)
    }
}

/// Tells whether a URI is opened over TLS.
pub fn speaks_tls(uri: &str) -> (r: bool)
    ensures
        r == "https://"@.is_prefix_of(uri@),
{
    starts_with(uri, "https://")
}

/// An endpoint is opened over TLS where it says so, and a bare one where the configured transport
/// does: an explicit `http://` stays in the clear.
pub proof fn law_who_speaks_tls(endpoint: Seq<char>, tls: bool)
    ensures
        "https://"@.is_prefix_of(normalized(endpoint, tls)) <==> "https://"@.is_prefix_of(endpoint)
            || (tls && !has_scheme(endpoint)),
{
    if !has_scheme(endpoint) {
        law_bare_endpoint_follows_transport(endpoint);
        law_normalized_is_stable(endpoint, tls, tls);
    }
}

/// Whether an endpoint can be made of a text.
pub uninterp spec fn is_uri(text: Seq<char>) -> bool;

/// Whether `tonic::transport::Endpoint::from_shared` makes an endpoint of a text: it reads the text
/// as a URI, or as the path of a socket, and opens nothing. Only that the answer rests on the text
/// alone is claimed of it.
#[verifier::external_body]
pub(crate) fn parses_as_endpoint(uri: &str) -> (r: bool)
    ensures
        r == is_uri(uri@),
{
    tonic::transport::Endpoint::from_shared(uri.to_string()).is_ok()
}

/// The rule always yields a URI with a scheme, and applying it again, under either transport,
/// changes nothing.
pub proof fn law_normalized_is_stable(endpoint: Seq<char>, tls: bool, again: bool)
    ensures
        has_scheme(normalized(endpoint, tls)),
        normalized(normalized(endpoint, tls), again) == normalized(endpoint, tls),
{
    assert("https://"@.is_prefix_of("https://"@ + endpoint)) by {
        assert(("https://"@ + endpoint).subrange(0, "https://"@.len() as int) =~= "https://"@);
    }
    assert("http://"@.is_prefix_of("http://"@ + endpoint)) by {
        assert(("http://"@ + endpoint).subrange(0, "http://"@.len() as int) =~= "http://"@);
    }
}

/// An explicit scheme beats the configured transport: the endpoint stands as it was written.
pub proof fn law_explicit_scheme_wins(endpoint: Seq<char>, tls: bool)
    requires
        has_scheme(endpoint),
    ensures
        normalized(endpoint, tls) == endpoint,
{
}

/// Under TLS a bare endpoint never becomes a plaintext one.
pub proof fn law_bare_endpoint_follows_transport(endpoint: Seq<char>)
    requires
        !has_scheme(endpoint),
    ensures
        !"http://"@.is_prefix_of(normalized(endpoint, true)),
        !"https://"@.is_prefix_of(normalized(endpoint, false)),
{
    reveal_strlit("http://");
    reveal_strlit("https://");
    assert(("https://"@ + endpoint)[4] == 's');
    assert(("http://"@ + endpoint)[4] == ':');
    assert("http://"@[4] == ':');
    assert("https://"@[4] == 's');
}

/// Which URI an endpoint stands for, and which are opened over TLS: an endpoint that names `http://`
/// or `https://` stands for itself, any other gets the scheme of the transport; and what is opened
/// over TLS is exactly what ends up under `https://`.
pub proof fn law_which_scheme_is_spoken(
    endpoint: &str,
    tls: bool,
    uri: String,
    given: &str,
    over_tls: bool,
)
    requires
        call_ensures(normalize_uri, (endpoint, tls), uri),
        given@ == uri@,
        call_ensures(speaks_tls, (given,), over_tls),
    ensures
        ({
            let secure = "https://"@.is_prefix_of(endpoint@);
            let clear = "http://"@.is_prefix_of(endpoint@);
            &&& secure || clear ==> uri@ == endpoint@
            &&& !secure && !clear && tls ==> uri@ == "https://"@ + endpoint@
            &&& !secure && !clear && !tls ==> uri@ == "http://"@ + endpoint@
            &&& over_tls <==> secure || (tls && !clear)
        }),
{
    law_who_speaks_tls(endpoint@, tls);
    reveal_strlit("http://");
    reveal_strlit("https://");
    if "https://"@.is_prefix_of(endpoint@) && "http://"@.is_prefix_of(endpoint@) {
        assert(endpoint@.subrange(0, 8)[4] == endpoint@[4]);
        assert(endpoint@.subrange(0, 7)[4] == endpoint@[4]);
        assert("https://"@[4] == 's');
        assert("http://"@[4] == ':');
        assert(false);
    }
}

} // verus!
