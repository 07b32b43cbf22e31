//! Addresses and headers of the controller's HTTP API, built from the
//! configured controller address.
use vstd::prelude::*;
use crate::model::opt_view;
use crate::text::{chars_of, string_from_chars};

verus! {

/// The address of the list of proxies and proxy groups: `{api_url}/proxies`.
pub fn proxies_url(api_url: &str) -> (url: String)
    ensures
        url@ == api_url@ + "/proxies"@,
{
    let mut url = String::from_str(api_url);
    url.append("/proxies");
    url
}

/// The address of the rule list: `{api_url}/rules`.
pub fn rules_url(api_url: &str) -> (url: String)
    ensures
        url@ == api_url@ + "/rules"@,
{
    let mut url = String::from_str(api_url);
    url.append("/rules");
    url
}

/// The address that switches a group's proxy: `{api_url}/proxies/{group}`.
pub fn select_proxy_url(api_url: &str, group: &str) -> (url: String)
    ensures
        url@ == api_url@ + "/proxies/"@ + group@,
{
    let mut url = String::from_str(api_url);
    url.append("/proxies/");
    url.append(group);
    url
}

/// The value of the `Authorization` header for a secret: `Bearer {secret}`.
pub fn bearer_value(secret: &str) -> (value: String)
    ensures
        value@ == "Bearer "@ + secret@,
{
    let mut value = String::from_str("Bearer ");
    value.append(secret);
    value
}

/// `s` without the slashes at its end.
pub open spec fn trim_trailing_slashes(s: Seq<char>) -> Seq<char>
    decreases s.len(),
{
    if s.len() > 0 && s.last() == '/' {
        trim_trailing_slashes(s.drop_last())
    } else {
        s
    }
}

/// The base address for delay tests: the controller address without its
/// trailing slashes, followed by exactly one slash.
pub fn delay_base_url(api_url: &str) -> (url: String)
    ensures
        url@ == trim_trailing_slashes(api_url@).push('/'),
{
    let mut chars = chars_of(api_url);
    assert(api_url@.subrange(0, chars@.len() as int) =~= api_url@);
    while chars.len() > 0 && chars[chars.len() - 1] == '/'
        invariant
            trim_trailing_slashes(api_url@) == trim_trailing_slashes(chars@),
        decreases chars@.len(),
    {
        let ghost before = chars@;
        chars.pop();
        assert(chars@ =~= before.drop_last());
    }
    chars.push('/');
    string_from_chars(&chars)
}

/// The path of a proxy's delay test below the base address, segment by
/// segment: `proxies`, the proxy's name, `delay`.
pub fn delay_test_segments(proxy_name: &str) -> (segments: Vec<String>)
    ensures
        segments@.len() == 3,
        segments@[0]@ == "proxies"@,
        segments@[1]@ == proxy_name@,
        segments@[2]@ == "delay"@,
{
    let mut segments: Vec<String> = Vec::new();
    segments.push(String::from_str("proxies"));
    segments.push(String::from_str(proxy_name));
    segments.push(String::from_str("delay"));
    segments
}

/// The query of a delay test: a timeout of 5000 ms and the address the
/// controller probes through the proxy.
pub fn delay_test_query() -> (pairs: Vec<(String, String)>)
    ensures
        pairs@.len() == 2,
        pairs@[0].0@ == "timeout"@,
        pairs@[0].1@ == "5000"@,
        pairs@[1].0@ == "url"@,
        pairs@[1].1@ == "https://www.gstatic.com/generate_204"@,
{
    let mut pairs: Vec<(String, String)> = Vec::new();
    pairs.push((String::from_str("timeout"), String::from_str("5000")));
    pairs.push((String::from_str("url"), String::from_str("https://www.gstatic.com/generate_204")));
    pairs
}

/// What the url crate gives for the address `base` with the path segments
/// `segments` pushed and the query pairs `query` appended, each
/// percent-encoded: the address as text, or `None` where `base` does not
/// parse or cannot take path segments. It depends on its arguments alone.
pub uninterp spec fn encoded_url(
    base: Seq<char>,
    segments: Seq<Seq<char>>,
    query: Seq<(Seq<char>, Seq<char>)>,
) -> Option<Seq<char>>;

/// The characters of each string.
pub open spec fn string_views(v: Seq<String>) -> Seq<Seq<char>> {
    v.map_values(|s: String| s@)
}

/// The characters of each pair of strings.
pub open spec fn pair_views(v: Seq<(String, String)>) -> Seq<(Seq<char>, Seq<char>)> {
    v.map_values(|p: (String, String)| (p.0@, p.1@))
}

/// `reqwest::Url` (the url crate): `Url::parse` of `base`, then
/// `path_segments_mut().push` of each segment and `query_pairs_mut()
/// .append_pair` of each pair, read back with `as_str`. Its result is named
/// [`encoded_url`]; nothing else is claimed of it.
#[verifier::external_body]
pub fn encode_url(base: &str, segments: &Vec<String>, query: &Vec<(String, String)>) -> (r: Option<
    String,
>)
    ensures
        opt_view(r) == encoded_url(base@, string_views(segments@), pair_views(query@)),
{
    let mut url = reqwest::Url::parse(base).ok()?;
    url.path_segments_mut().ok()?.extend(segments.iter());
    url.query_pairs_mut().extend_pairs(query.iter().map(|(k, v)| (k.as_str(), v.as_str())));
    Some(url.as_str().to_string())
}

/// The address of a proxy's delay test: the controller address without
/// trailing slashes and with one slash, then the path `proxies`, the
/// proxy's name, `delay`, and the query of [`delay_test_query`], encoded by
/// the url crate; `None` where that address cannot be built.
pub fn delay_test_url(api_url: &str, proxy_name: &str) -> (url: Option<String>)
    ensures
        opt_view(url) == encoded_url(
            trim_trailing_slashes(api_url@).push('/'),
            seq!["proxies"@, proxy_name@, "delay"@],
            seq![("timeout"@, "5000"@), ("url"@, "https://www.gstatic.com/generate_204"@)],
        ),
{
    let base = delay_base_url(api_url);
    let segments = delay_test_segments(proxy_name);
    let query = delay_test_query();
    assert(string_views(segments@) =~= seq!["proxies"@, proxy_name@, "delay"@]);
    assert(pair_views(query@) =~= seq![
        ("timeout"@, "5000"@),
        ("url"@, "https://www.gstatic.com/generate_204"@),
    ]);
    encode_url(base.as_str(), &segments, &query)
}

} // verus!
