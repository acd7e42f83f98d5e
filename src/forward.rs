//! The outbound request to the upstream printer: where it goes and which of
//! the inbound transport headers it carries.
use vstd::prelude::*;

verus! {

/// What `str::to_lowercase` makes of a header name.
pub uninterp spec fn lower_of(s: Seq<char>) -> Seq<char>;

/// Relies on `str::to_lowercase`: the result depends on the characters
/// alone.
#[verifier::external_body]
fn lowercase(s: &str) -> (r: String)
    ensures
        r@ == lower_of(s@),
{
    s.to_lowercase()
}

/// The headers that the transport recomputes for the new destination and
/// body: `host` and `content-length`.
pub open spec fn is_recomputed(lower: Seq<char>) -> bool {
    ||| lower == seq!['h', 'o', 's', 't']
    ||| lower == seq!['c', 'o', 'n', 't', 'e', 'n', 't', '-', 'l', 'e', 'n', 'g', 't', 'h']
}

/// Whether a header, by its lower-case name, is copied to the outbound
/// request.
pub fn keeps_lowered_header(lower: &str) -> (r: bool)
    ensures
        r == !is_recomputed(lower@),
{
    let host = "host";
    let length = "content-length";
    proof {
        reveal_strlit("host");
        reveal_strlit("content-length");
        assert(host@ =~= seq!['h', 'o', 's', 't']);
        assert(length@ =~= seq!['c', 'o', 'n', 't', 'e', 'n', 't', '-', 'l', 'e', 'n', 'g', 't', 'h']);
    }
    let name = String::from_str(lower);
    !(name == String::from_str(host) || name == String::from_str(length))
}

/// The name under which an inbound header goes upstream, lower-cased, or
/// `None` for a header that the transport recomputes.
pub fn forwarded_header_name(name: &str) -> (r: Option<String>)
    ensures
        match r {
            Some(n) => !is_recomputed(lower_of(name@)) && n@ == lower_of(name@),
            None => is_recomputed(lower_of(name@)),
        },
{
    let lower = lowercase(name);
    if keeps_lowered_header(lower.as_str()) {
        Some(lower)
    } else {
        None
    }
}

/// The address the outbound request is posted to: `http://` and the
/// upstream printer's address.
pub fn upstream_url(upstream_printer: &str) -> (r: String)
    ensures
        r@ == seq!['h', 't', 't', 'p', ':', '/', '/'] + upstream_printer@,
{
    let scheme = "http://";
    proof {
        reveal_strlit("http://");
        assert(scheme@ =~= seq!['h', 't', 't', 'p', ':', '/', '/']);
    }
    String::from_str(scheme).concat(upstream_printer)
}

} // verus!
