//! The address that a lookup is requested from.

use vstd::prelude::*;
use vstd::string::*;

verus! {

/// The `application/x-www-form-urlencoded` form of one name and value pair,
/// as the `form_urlencoded` crate serializes it.
pub uninterp spec fn form_urlencoded_pair(name: Seq<char>, value: Seq<char>) -> Seq<char>;

/// Serializes one pair with `form_urlencoded::Serializer`, into a fresh
/// string: `new`, `append_pair`, `finish`.
///
/// Trusted: the result is the text that [`form_urlencoded_pair`] names, which
/// depends on the name and the value alone.
#[verifier::external_body]
fn serialize_pair(name: &str, value: &str) -> (query: String)
    ensures
        query@ == form_urlencoded_pair(name@, value@),
{
    url::form_urlencoded::Serializer::new(String::new()).append_pair(name, value).finish()
}

/// The address of the service with the query `query` behind the access key.
pub open spec fn address(query: Seq<char>) -> Seq<char> {
    "http://dict-co.iciba.com/api/dictionary.php?key=D191EBD014295E913574E1EAF8E06666&"@ + query
}

/// The address to request for an already encoded query.
pub fn url_with_query(query: &str) -> (url: String)
    ensures
        url@ == address(query@),
{
    let mut url = String::from_str(
        "http://dict-co.iciba.com/api/dictionary.php?key=D191EBD014295E913574E1EAF8E06666&",
    );
    url.append(query);
    url
}

/// The address to request for looking up `content`: the query is the pair of
/// the parameter `w` and the content, form-urlencoded.
pub fn request_url(content: &str) -> (url: String)
    ensures
        url@ == address(form_urlencoded_pair("w"@, content@)),
{
    let query = serialize_pair("w", content);
    url_with_query(query.as_str())
}

} // verus!
