//! What an HTTP proxy does with the heads of requests and responses.
use crate::authority;
use crate::authority::{authority_error, authority_host, authority_port};
use crate::outbound::{authority_target, target_from_authority, Target, TargetAddr};
use crate::text;
use crate::text::{concat2, is_stretch, lowercase, pieces, pieces_are_the_stretches, stands_between,
    texts, trimmed};
use hyper::header::{HeaderMap, HeaderName, HeaderValue};
use hyper::http::uri::Uri;
use std::str::FromStr;
use vstd::prelude::*;
use vstd::utf8::{encode_utf8, is_ascii_chars};

verus! {

// ---------------------------------------------------------------------------
// Headers
// ---------------------------------------------------------------------------
/// Headers as the `http` crate keeps them.
#[verifier::external_type_specification]
#[verifier::external_body]
#[verifier::reject_recursive_types(T)]
pub struct ExHeaderMap<T>(HeaderMap<T>);

/// The value of a header as the `http` crate keeps it.
#[verifier::external_type_specification]
#[verifier::external_body]
pub struct ExHeaderValue(HeaderValue);

/// The values of each header, in order, under its name in lower case.
pub uninterp spec fn header_values(headers: HeaderMap<HeaderValue>) -> Map<
    Seq<char>,
    Seq<Seq<u8>>,
>;

/// The values of a list.
pub open spec fn byte_texts(list: Seq<Vec<u8>>) -> Seq<Seq<u8>> {
    list.map_values(|value: Vec<u8>| value@)
}

/// The values of a header; none where it is not there.
pub open spec fn values_of(headers: Map<Seq<char>, Seq<Seq<u8>>>, name: Seq<char>) -> Seq<
    Seq<u8>,
> {
    if headers.contains_key(name) {
        headers[name]
    } else {
        Seq::empty()
    }
}

/// `HeaderMap::get_all` of the `http` crate. The contract claims that it gives the values of
/// the header, whatever the case of letters in its name, in the order in which they were added.
#[verifier::external_body]
fn get_all(headers: &HeaderMap<HeaderValue>, name: &str) -> (r: Vec<Vec<u8>>)
    ensures
        byte_texts(r@) == values_of(header_values(*headers), lowercase(name@)),
{
    headers.get_all(name).iter().map(|value| value.as_bytes().to_vec()).collect()
}

/// Whether there are so many names of headers.
pub open spec fn counts_names(headers: Map<Seq<char>, Seq<Seq<u8>>>, count: nat) -> bool {
    headers.dom().finite() && headers.dom().len() == count
}

/// `HeaderMap::keys_len` of the `http` crate. The contract claims that it counts the names of
/// headers.
#[verifier::external_body]
fn count_names(headers: &HeaderMap<HeaderValue>) -> (r: usize)
    ensures
        counts_names(header_values(*headers), r as nat),
{
    headers.keys_len()
}

/// `HeaderMap::remove` of the `http` crate. The contract claims that it takes away all values
/// of the header, whatever the case of letters in its name, and nothing else; a text that names
/// no header takes nothing away.
#[verifier::external_body]
fn remove(headers: &mut HeaderMap<HeaderValue>, name: &str)
    ensures
        header_values(*final(headers)) == header_values(*old(headers)).remove(lowercase(name@)),
        header_values(*final(headers)).dom().finite(),
{
    headers.remove(name);
}

/// How many names of headers are enough for there to be no room for one more, at the least: a
/// fifth of the places in the largest table.
pub const FEW_HEADERS: usize = 6554;

/// A name of a header that is made of small letters.
pub open spec fn is_plain_name(name: Seq<char>) -> bool {
    1 <= name.len() <= 64 && forall|i: int|
        0 <= i < name.len() ==> 'a' <= #[trigger] name[i] <= 'z'
}

/// A text that can be the value of a header: it holds no control characters but tabs.
pub open spec fn is_header_value(value: Seq<char>) -> bool {
    forall|i: int|
        0 <= i < encode_utf8(value).len() ==> ((32 <= #[trigger] encode_utf8(value)[i]
            && encode_utf8(value)[i] != 127) || encode_utf8(value)[i] == 9)
}

/// Whether there is room for one more header, however the names are spread over the table.
pub open spec fn has_room(headers: Map<Seq<char>, Seq<Seq<u8>>>) -> bool {
    headers.dom().len() < FEW_HEADERS
}

/// Whether there is room for one more header, however the names are spread over the table.
pub fn is_room(headers: &HeaderMap<HeaderValue>) -> (r: bool)
    ensures
        r == has_room(header_values(*headers)),
        header_values(*headers).dom().finite(),
{
    count_names(headers) < FEW_HEADERS
}

/// `HeaderMap::try_append` of the `http` crate, with `HeaderName::from_bytes` and
/// `HeaderValue::from_str` for its arguments. The contract claims that the value stands behind
/// the others of the header, or that nothing has changed: name or value is not valid, or there
/// are too many headers, which a few are not.
#[verifier::external_body]
fn append(headers: &mut HeaderMap<HeaderValue>, name: &str, value: &str) -> (added: bool)
    ensures
        added ==> header_values(*final(headers)) == header_values(*old(headers)).insert(
            lowercase(name@),
            values_of(header_values(*old(headers)), lowercase(name@)).push(encode_utf8(value@)),
        ),
        !added ==> header_values(*final(headers)) == header_values(*old(headers)),
        header_values(*final(headers)).dom().finite(),
        is_plain_name(name@) && is_header_value(value@) && has_room(header_values(*old(headers)))
            ==> added,
{
    match (HeaderName::from_bytes(name.as_bytes()), HeaderValue::from_str(value)) {
        (Ok(name), Ok(value)) => headers.try_append(name, value).is_ok(),
        _ => false,
    }
}

/// `HeaderMap::try_insert` of the `http` crate, with `HeaderName::from_bytes` and
/// `HeaderValue::from_str` for its arguments. The contract claims that a value that is not valid
/// is refused with a message, and that a valid one becomes the only value of the header, or
/// nothing has changed: the name is not valid, or there are too many headers, which a few are
/// not.
#[verifier::external_body]
fn insert(headers: &mut HeaderMap<HeaderValue>, name: &str, value: &str) -> (r: Result<
    bool,
    String,
>)
    ensures
        (match r {
            Ok(true) => header_values(*final(headers)) == header_values(*old(headers)).insert(
                lowercase(name@),
                seq![encode_utf8(value@)],
            ),
            _ => header_values(*final(headers)) == header_values(*old(headers)),
        }),
        header_values(*final(headers)).dom().finite(),
        r is Ok <==> is_header_value(value@),
        r matches Err(message) ==> message@ == "failed to parse header value"@,
        is_plain_name(name@) && is_header_value(value@) && has_room(header_values(*old(headers)))
            ==> (r is Ok && r->Ok_0),
{
    let value = HeaderValue::from_str(value).map_err(|error| error.to_string())?;
    match HeaderName::from_bytes(name.as_bytes()) {
        Ok(name) => Ok(headers.try_insert(name, value).is_ok()),
        Err(_) => Ok(false),
    }
}

/// What the proxy adds to `Via`.
pub open spec fn via_value() -> Seq<u8> {
    encode_utf8("1.1 stk"@)
}

/// A byte that a header may show: printing ASCII, a space or a tab.
#[verifier::allow_in_spec]
pub fn is_visible(byte: u8) -> bool
    returns
        ((32 <= byte && byte < 127) || byte == 9),
{
    (32 <= byte && byte < 127) || byte == 9
}

/// Whether a value can be read as a text.
pub open spec fn is_readable(value: Seq<u8>) -> bool {
    forall|i: int| 0 <= i < value.len() ==> is_visible(#[trigger] value[i])
}

/// A value as a text.
pub open spec fn value_text(value: Seq<u8>) -> Seq<char> {
    value.map_values(|byte: u8| byte as char)
}

/// A value as a text, where it can be read.
pub fn read_value(value: &Vec<u8>) -> (r: Option<String>)
    ensures
        (match r {
            Some(text) => is_readable(value@) && text@ == value_text(value@),
            None => !is_readable(value@),
        }),
{
    let mut text = String::new();
    for i in 0..value.len()
        invariant
            text@ == value_text(value@.take(i as int)),
            forall|j: int| 0 <= j < i ==> is_visible(#[trigger] value@[j]),
    {
        if !is_visible(value[i]) {
            return None;
        }
        text.push(value[i] as char);
        assert(text@ =~= value_text(value@.take(i + 1)));
    }
    assert(value@.take(value@.len() as int) =~= value@);
    Some(text)
}

/// The names that the pieces of a text, from `from` on, list: without white space round them,
/// in lower case, and none that are empty.
pub open spec fn listed_names(list: Seq<Seq<char>>, from: int) -> Seq<Seq<char>>
    decreases list.len() - from,
{
    if from >= list.len() {
        Seq::empty()
    } else {
        let name = trimmed(list[from]);
        let rest = listed_names(list, from + 1);
        if name.len() == 0 {
            rest
        } else {
            seq![lowercase(name)] + rest
        }
    }
}

/// The names that values, from `from` on, list; a value that cannot be read lists none.
pub open spec fn all_listed_names(values: Seq<Seq<u8>>, from: int) -> Seq<Seq<char>>
    decreases values.len() - from,
{
    if from >= values.len() {
        Seq::empty()
    } else {
        let rest = all_listed_names(values, from + 1);
        if is_readable(values[from]) {
            listed_names(pieces(value_text(values[from]), ','), 0) + rest
        } else {
            rest
        }
    }
}

/// The headers that are always about one connection alone.
pub open spec fn connection_names() -> Seq<Seq<char>> {
    seq![
        "connection"@,
        "proxy-authenticate"@,
        "proxy-authorization"@,
        "te"@,
        "trailer"@,
        "transfer-encoding"@,
        "upgrade"@,
        "keep-alive"@,
        "proxy-connection"@,
    ]
}

/// Headers but for those that are named.
pub open spec fn without_names(
    headers: Map<Seq<char>, Seq<Seq<u8>>>,
    names: Seq<Seq<char>>,
) -> Map<Seq<char>, Seq<Seq<u8>>>
    decreases names.len(),
{
    if names.len() == 0 {
        headers
    } else {
        without_names(headers, names.drop_last()).remove(names.last())
    }
}

/// Headers but for those that are about one connection alone: the usual ones and those that
/// `Connection` lists.
pub open spec fn end_to_end(headers: Map<Seq<char>, Seq<Seq<u8>>>) -> Map<
    Seq<char>,
    Seq<Seq<u8>>,
> {
    without_names(
        headers,
        all_listed_names(values_of(headers, "connection"@), 0) + connection_names(),
    )
}

fn add_listed_names(list: &Vec<String>, names: &mut Vec<String>)
    ensures
        texts(final(names)@) == texts(old(names)@) + listed_names(texts(list@), 0),
{
    let ghost start = texts(names@);
    let ghost all = texts(list@);
    let ghost found = listed_names(all, 0);
    assert(start + found =~= start + listed_names(all, 0));
    for i in 0..list.len()
        invariant
            start == texts(old(names)@),
            all == texts(list@),
            start + listed_names(all, 0) == texts(names@) + listed_names(all, i as int),
    {
        assert(all[i as int] == list@[i as int]@);
        let name = text::trim(list[i].as_str());
        let ghost before = texts(names@);
        let ghost rest = listed_names(all, i + 1);
        if !name.is_empty() {
            let lower = text::to_lowercase(name);
            let ghost word = lower@;
            names.push(lower);
            assert(texts(names@) =~= before.push(word));
            assert(before + (seq![word] + rest) =~= texts(names@) + rest);
        }
    }
    assert(texts(names@) + Seq::<Seq<char>>::empty() =~= texts(names@));
}

fn collect_listed_names(values: &Vec<Vec<u8>>) -> (r: Vec<String>)
    ensures
        texts(r@) == all_listed_names(byte_texts(values@), 0),
{
    let ghost all = byte_texts(values@);
    let mut names: Vec<String> = Vec::new();
    assert(texts(names@) =~= Seq::<Seq<char>>::empty());
    assert(texts(names@) + all_listed_names(all, 0) =~= all_listed_names(all, 0));
    for i in 0..values.len()
        invariant
            all == byte_texts(values@),
            all_listed_names(all, 0) == texts(names@) + all_listed_names(all, i as int),
    {
        assert(all[i as int] == values@[i as int]@);
        let ghost before = texts(names@);
        let ghost rest = all_listed_names(all, i + 1);
        match read_value(&values[i]) {
            Some(value) => {
                let list = text::split(value.as_str(), ',');
                add_listed_names(&list, &mut names);
                proof {
                    let here = listed_names(pieces(value@, ','), 0);
                    assert(before + (here + rest) =~= texts(names@) + rest);
                }
            },
            None => {},
        }
    }
    assert(texts(names@) + Seq::<Seq<char>>::empty() =~= texts(names@));
    names
}

proof fn lemma_lowercase_twice(s: Seq<char>)
    ensures
        lowercase(lowercase(s)) == lowercase(s),
{
    assert(lowercase(lowercase(s)) =~= lowercase(s));
}

proof fn lemma_names_are_lower(list: Seq<Seq<char>>, from: int)
    requires
        0 <= from,
    ensures
        forall|i: int|
            0 <= i < listed_names(list, from).len() ==> lowercase(
                #[trigger] listed_names(list, from)[i],
            ) == listed_names(list, from)[i],
    decreases list.len() - from,
{
    if from < list.len() {
        lemma_names_are_lower(list, from + 1);
        lemma_lowercase_twice(trimmed(list[from]));
        let rest = listed_names(list, from + 1);
        assert forall|i: int| 0 <= i < listed_names(list, from).len() implies lowercase(
            #[trigger] listed_names(list, from)[i],
        ) == listed_names(list, from)[i] by {
            if trimmed(list[from]).len() == 0 {
                assert(listed_names(list, from)[i] == rest[i]);
            } else if i > 0 {
                assert(listed_names(list, from)[i] == rest[i - 1]);
            }
        }
    }
}

proof fn lemma_all_names_are_lower(values: Seq<Seq<u8>>, from: int)
    requires
        0 <= from,
    ensures
        forall|i: int|
            0 <= i < all_listed_names(values, from).len() ==> lowercase(
                #[trigger] all_listed_names(values, from)[i],
            ) == all_listed_names(values, from)[i],
    decreases values.len() - from,
{
    if from < values.len() {
        lemma_all_names_are_lower(values, from + 1);
        let rest = all_listed_names(values, from + 1);
        let here = listed_names(pieces(value_text(values[from]), ','), 0);
        lemma_names_are_lower(pieces(value_text(values[from]), ','), 0);
        assert forall|i: int| 0 <= i < all_listed_names(values, from).len() implies lowercase(
            #[trigger] all_listed_names(values, from)[i],
        ) == all_listed_names(values, from)[i] by {
            if !is_readable(values[from]) {
                assert(all_listed_names(values, from)[i] == rest[i]);
            } else if i < here.len() {
                assert(all_listed_names(values, from)[i] == here[i]);
            } else {
                assert(all_listed_names(values, from)[i] == rest[i - here.len()]);
            }
        }
    }
}

proof fn lemma_literals_are_lower()
    ensures
        lowercase("connection"@) == "connection"@,
        lowercase("proxy-authenticate"@) == "proxy-authenticate"@,
        lowercase("proxy-authorization"@) == "proxy-authorization"@,
        lowercase("te"@) == "te"@,
        lowercase("trailer"@) == "trailer"@,
        lowercase("transfer-encoding"@) == "transfer-encoding"@,
        lowercase("upgrade"@) == "upgrade"@,
        lowercase("keep-alive"@) == "keep-alive"@,
        lowercase("proxy-connection"@) == "proxy-connection"@,
{
    reveal_strlit("connection");
    reveal_strlit("proxy-authenticate");
    reveal_strlit("proxy-authorization");
    reveal_strlit("te");
    reveal_strlit("trailer");
    reveal_strlit("transfer-encoding");
    reveal_strlit("upgrade");
    reveal_strlit("keep-alive");
    reveal_strlit("proxy-connection");
    assert(lowercase("connection"@) =~= "connection"@);
    assert(lowercase("proxy-authenticate"@) =~= "proxy-authenticate"@);
    assert(lowercase("proxy-authorization"@) =~= "proxy-authorization"@);
    assert(lowercase("te"@) =~= "te"@);
    assert(lowercase("trailer"@) =~= "trailer"@);
    assert(lowercase("transfer-encoding"@) =~= "transfer-encoding"@);
    assert(lowercase("upgrade"@) =~= "upgrade"@);
    assert(lowercase("keep-alive"@) =~= "keep-alive"@);
    assert(lowercase("proxy-connection"@) =~= "proxy-connection"@);
}

fn hop_by_hop_names() -> (r: Vec<String>)
    ensures
        texts(r@) == connection_names(),
        forall|i: int|
            0 <= i < texts(r@).len() ==> lowercase(#[trigger] texts(r@)[i]) == texts(r@)[i],
{
    let mut r: Vec<String> = Vec::new();
    r.push("connection".to_owned());
    r.push("proxy-authenticate".to_owned());
    r.push("proxy-authorization".to_owned());
    r.push("te".to_owned());
    r.push("trailer".to_owned());
    r.push("transfer-encoding".to_owned());
    r.push("upgrade".to_owned());
    r.push("keep-alive".to_owned());
    r.push("proxy-connection".to_owned());
    assert(texts(r@) =~= connection_names());
    proof {
        lemma_literals_are_lower();
    }
    r
}

/// Takes away the headers that are about one connection alone.
pub fn remove_hop_by_hop_headers(headers: &mut HeaderMap<HeaderValue>)
    ensures
        header_values(*final(headers)) == end_to_end(header_values(*old(headers))),
        header_values(*final(headers)).dom().finite(),
        header_values(*final(headers)).dom().len() <= header_values(*old(headers)).dom().len(),
{
    let ghost start = header_values(*headers);
    proof {
        lemma_literals_are_lower();
    }
    let values = get_all(headers, "connection");
    let mut names = collect_listed_names(&values);
    let ghost listed = texts(names@);
    let mut usual = hop_by_hop_names();
    let ghost second = texts(usual@);
    names.append(&mut usual);
    let ghost all = texts(names@);
    assert(all =~= listed + second);
    proof {
        lemma_all_names_are_lower(byte_texts(values@), 0);
    }
    for i in 0..names.len()
        invariant
            all == texts(names@),
            forall|j: int| 0 <= j < all.len() ==> lowercase(#[trigger] all[j]) == all[j],
            header_values(*headers) == without_names(start, all.take(i as int)),
            i > 0 ==> header_values(*headers).dom().finite(),
    {
        assert(all.take(i + 1).drop_last() == all.take(i as int));
        assert(all.take(i + 1).last() == all[i as int]);
        assert(all[i as int] == names@[i as int]@);
        remove(headers, names[i].as_str());
    }
    assert(all.take(all.len() as int) =~= all);
    proof {
        assert(second.len() == 9);
        lemma_fewer(start, all);
    }
}

proof fn lemma_via()
    ensures
        lowercase("via"@) == "via"@,
        lowercase("host"@) == "host"@,
        is_plain_name("via"@),
        is_plain_name("host"@),
        is_header_value("1.1 stk"@),
{
    reveal_strlit("via");
    reveal_strlit("host");
    reveal_strlit("1.1 stk");
    assert(lowercase("via"@) =~= "via"@);
    assert(lowercase("host"@) =~= "host"@);
    let value = "1.1 stk"@;
    assert(is_ascii_chars(value));
    vstd::utf8::is_ascii_chars_encode_utf8(value);
    assert forall|i: int| 0 <= i < encode_utf8(value).len() implies (32
        <= #[trigger] encode_utf8(value)[i] && encode_utf8(value)[i] != 127) by {
        assert(encode_utf8(value)[i] == value[i] as u8);
    }
}

/// Adds the proxy to `Via`; tells whether there was room, which there is among a few headers.
pub fn append_via(headers: &mut HeaderMap<HeaderValue>) -> (added: bool)
    ensures
        added ==> header_values(*final(headers)) == header_values(*old(headers)).insert(
            "via"@,
            values_of(header_values(*old(headers)), "via"@).push(via_value()),
        ),
        !added ==> header_values(*final(headers)) == header_values(*old(headers)),
        header_values(*final(headers)).dom().finite(),
        has_room(header_values(*old(headers))) ==> added,
{
    proof {
        lemma_via();
    }
    append(headers, "via", "1.1 stk")
}

/// What a header that is passed on holds is what it held, and no header that is about one
/// connection alone is passed on.
pub proof fn passed_headers_are_unchanged(
    headers: Map<Seq<char>, Seq<Seq<u8>>>,
    name: Seq<char>,
)
    ensures
        end_to_end(headers).contains_key(name) <==> headers.contains_key(name)
            && !connection_names().contains(name) && !all_listed_names(
            values_of(headers, "connection"@),
            0,
        ).contains(name),
        end_to_end(headers).contains_key(name) ==> end_to_end(headers)[name] == headers[name],
{
    let listed = all_listed_names(values_of(headers, "connection"@), 0);
    let all = listed + connection_names();
    lemma_without_names(headers, all, name);
    if all.contains(name) {
        let k = all.index_of(name);
        if k < listed.len() {
            assert(listed[k] == name);
        } else {
            assert(connection_names()[k - listed.len()] == name);
        }
    }
    if listed.contains(name) {
        let k = listed.index_of(name);
        assert(all[k] == name);
    }
    if connection_names().contains(name) {
        let k = connection_names().index_of(name);
        assert(all[k + listed.len()] == name);
    }
}

proof fn lemma_without_names(
    headers: Map<Seq<char>, Seq<Seq<u8>>>,
    names: Seq<Seq<char>>,
    name: Seq<char>,
)
    ensures
        without_names(headers, names).contains_key(name) <==> headers.contains_key(name)
            && !names.contains(name),
        without_names(headers, names).contains_key(name) ==> without_names(headers, names)[name]
            == headers[name],
    decreases names.len(),
{
    if names.len() > 0 {
        lemma_without_names(headers, names.drop_last(), name);
        if names.contains(name) {
            let k = names.index_of(name);
            if k < names.len() - 1 {
                assert(names.drop_last()[k] == name);
            }
        }
        if names.drop_last().contains(name) {
            let k = names.drop_last().index_of(name);
            assert(names[k] == name);
        }
        assert(names[names.len() - 1] == names.last());
    }
}

// ---------------------------------------------------------------------------
// Requests
// ---------------------------------------------------------------------------
/// What the proxy goes by of a request: the parts of its URI, the URI as a whole, and the first
/// value of its `Host` header.
#[derive(Debug, Clone, PartialEq, Eq)]
pub struct RequestHead {
    pub scheme: Option<String>,
    pub authority: Option<String>,
    pub path_and_query: Option<String>,
    pub uri: String,
    pub host: Option<Vec<u8>>,
}

/// Why the proxy does not serve a request: the status that is answered, and what went wrong.
#[derive(Debug, Clone, PartialEq, Eq)]
pub struct HttpProxyFailure {
    pub status: u16,
    pub error: String,
}

/// The status of a request that is wrong.
pub const BAD_REQUEST: u16 = 400;

/// The status of a request that cannot be passed on.
pub const BAD_GATEWAY: u16 = 502;

impl HttpProxyFailure {
    /// The request is wrong.
    pub fn bad_request(error: String) -> (r: HttpProxyFailure)
        ensures
            r.status == BAD_REQUEST,
            r.error@ == error@,
    {
        HttpProxyFailure { status: BAD_REQUEST, error }
    }

    /// The request cannot be passed on.
    pub fn bad_gateway(error: String) -> (r: HttpProxyFailure)
        ensures
            r.status == BAD_GATEWAY,
            r.error@ == error@,
    {
        HttpProxyFailure { status: BAD_GATEWAY, error }
    }

    /// The text that is answered.
    pub fn body(&self) -> (r: &'static str)
        ensures
            r@ == failure_body(self.status),
    {
        if self.status == BAD_REQUEST {
            "Bad Request\n"
        } else if self.status == BAD_GATEWAY {
            "Bad Gateway\n"
        } else {
            "Proxy Error\n"
        }
    }
}

/// The text that is answered to a request that is not served.
pub open spec fn failure_body(status: u16) -> Seq<char> {
    if status == BAD_REQUEST {
        "Bad Request\n"@
    } else if status == BAD_GATEWAY {
        "Bad Gateway\n"@
    } else {
        "Proxy Error\n"@
    }
}

/// The place that the authority of a URI names, or why it names none.
pub open spec fn named_target(
    authority: Seq<char>,
    error: Option<Seq<char>>,
    default_port: u16,
) -> Result<Target, Seq<char>> {
    match error {
        Some(message) => Err(message),
        None => authority_target(
            authority_host(authority),
            authority_port(authority),
            default_port,
        ),
    }
}

/// The authority of a request to connect: the one of its URI, else the whole URI.
pub open spec fn connect_authority(head: RequestHead) -> Seq<char> {
    match head.authority {
        Some(authority) => authority@,
        None => head.uri@,
    }
}

/// Where a request to connect wants to go; `error` is what is wrong with its authority.
pub open spec fn connect_place(head: RequestHead, error: Option<Seq<char>>) -> Result<
    Target,
    Seq<char>,
> {
    if error is Some {
        Err("CONNECT request is missing an authority"@)
    } else {
        named_target(connect_authority(head), None, 443)
    }
}

/// Whether `r` is the place or a request that is wrong.
pub open spec fn gives_place(
    r: Result<TargetAddr, HttpProxyFailure>,
    expected: Result<Target, Seq<char>>,
) -> bool {
    match r {
        Ok(target) => expected == Ok::<_, Seq<char>>(target.target()),
        Err(failure) => failure.status == BAD_REQUEST && expected == Err::<Target, _>(
            failure.error@,
        ),
    }
}

/// Where a request to connect wants to go.
pub fn connect_target(head: &RequestHead) -> (r: Result<TargetAddr, HttpProxyFailure>)
    ensures
        gives_place(r, connect_place(*head, authority_error(connect_authority(*head)))),
{
    let text = match &head.authority {
        Some(authority) => authority.as_str(),
        None => head.uri.as_str(),
    };
    let parts = match authority::parse_authority(text) {
        Ok(parts) => parts,
        Err(_) => {
            return Err(
                HttpProxyFailure::bad_request(
                    "CONNECT request is missing an authority".to_owned(),
                ),
            );
        },
    };
    match target_from_authority(&parts, 443) {
        Ok(target) => Ok(target),
        Err(message) => Err(HttpProxyFailure::bad_request(message)),
    }
}

/// What `Uri::from_str` finds wrong with a text.
pub uninterp spec fn uri_error(text: Seq<char>) -> Option<Seq<char>>;

/// `Uri::from_str` of the `http` crate. The contract claims that a text is a URI, or is refused
/// with a message, by itself alone.
#[verifier::external_body]
fn check_uri(text: &str) -> (r: Option<String>)
    ensures
        text::text_option(r) == uri_error(text@),
{
    Uri::from_str(text).err().map(|error| error.to_string())
}

/// Where a request is passed on to.
#[derive(Debug, Clone, PartialEq, Eq)]
pub struct ForwardDestination {
    pub authority: String,
    pub target: TargetAddr,
    pub origin_form: String,
}

/// Where a request is passed on to, with texts for strings.
pub ghost struct Forward {
    pub authority: Seq<char>,
    pub target: Target,
    pub origin_form: Seq<char>,
}

/// The authority of a request: the one of its URI, else its `Host` header.
pub open spec fn request_authority(head: RequestHead) -> Result<Seq<char>, Seq<char>> {
    match head.authority {
        Some(authority) => Ok(authority@),
        None => match head.host {
            None => Err("HTTP request is missing Host"@),
            Some(value) => if is_readable(value@) {
                Ok(value_text(value@))
            } else {
                Err("failed to convert header to a str"@)
            },
        },
    }
}

/// The URI that a request is passed on with: path and query alone.
pub open spec fn origin_text(head: RequestHead) -> Seq<char> {
    match head.path_and_query {
        Some(path) => path@,
        None => "/"@,
    }
}

/// What is wrong with the scheme of a request: only plain HTTP is passed on.
pub open spec fn scheme_fault(head: RequestHead) -> Option<Seq<char>> {
    if head.scheme is Some && lowercase(head.scheme->0@) != "http"@ {
        Some("forward proxy URI scheme must be http; use CONNECT for "@ + head.scheme->0@)
    } else {
        None
    }
}

/// Where a request is passed on to; `authority` and `uri` are what is wrong with its authority
/// and with the URI that it is passed on with.
pub open spec fn forward_place(
    head: RequestHead,
    authority: Option<Seq<char>>,
    uri: Option<Seq<char>>,
) -> Result<Forward, Seq<char>> {
    if scheme_fault(head) is Some {
        Err(scheme_fault(head)->0)
    } else {
        match request_authority(head) {
            Err(message) => Err(message),
            Ok(text) => match named_target(text, authority, 80) {
                Err(message) => Err(message),
                Ok(target) => if uri is Some {
                    Err(uri->0)
                } else {
                    Ok(Forward { authority: text, target, origin_form: origin_text(head) })
                },
            },
        }
    }
}

/// What is wrong with the authority of a request, where it has one.
pub open spec fn request_authority_error(head: RequestHead) -> Option<Seq<char>> {
    match request_authority(head) {
        Ok(text) => authority_error(text),
        Err(_) => None,
    }
}

fn read_request_authority(head: &RequestHead) -> (r: Result<String, String>)
    ensures
        (match r {
            Ok(text) => request_authority(*head) == Ok::<_, Seq<char>>(text@),
            Err(message) => request_authority(*head) == Err::<Seq<char>, _>(message@),
        }),
{
    match &head.authority {
        Some(authority) => Ok(authority.clone()),
        None => match &head.host {
            None => Err("HTTP request is missing Host".to_owned()),
            Some(value) => match read_value(value) {
                Some(text) => Ok(text),
                None => Err("failed to convert header to a str".to_owned()),
            },
        },
    }
}

/// Where a request is passed on to.
pub fn forward_destination(head: &RequestHead) -> (r: Result<
    ForwardDestination,
    HttpProxyFailure,
>)
    ensures
        ({
            let expected = forward_place(
                *head,
                request_authority_error(*head),
                uri_error(origin_text(*head)),
            );
            match r {
                Ok(found) => expected == Ok::<_, Seq<char>>(
                    Forward {
                        authority: found.authority@,
                        target: found.target.target(),
                        origin_form: found.origin_form@,
                    },
                ),
                Err(failure) => failure.status == BAD_REQUEST && expected == Err::<Forward, _>(
                    failure.error@,
                ),
            }
        }),
{
    match &head.scheme {
        Some(scheme) => {
            let lower = text::to_lowercase(scheme.as_str());
            if !text::same_text(lower.as_str(), "http") {
                return Err(
                    HttpProxyFailure::bad_request(
                        concat2(
                            "forward proxy URI scheme must be http; use CONNECT for ",
                            scheme.as_str(),
                        ),
                    ),
                );
            }
        },
        None => {},
    }
    let authority = match read_request_authority(head) {
        Ok(text) => text,
        Err(message) => {
            return Err(HttpProxyFailure::bad_request(message));
        },
    };
    let parts = match authority::parse_authority(authority.as_str()) {
        Ok(parts) => parts,
        Err(message) => {
            return Err(HttpProxyFailure::bad_request(message));
        },
    };
    let target = match target_from_authority(&parts, 80) {
        Ok(target) => target,
        Err(message) => {
            return Err(HttpProxyFailure::bad_request(message));
        },
    };
    let origin_form = match &head.path_and_query {
        Some(path) => path.clone(),
        None => "/".to_owned(),
    };
    match check_uri(origin_form.as_str()) {
        Some(message) => Err(HttpProxyFailure::bad_request(message)),
        None => Ok(ForwardDestination { authority, target, origin_form }),
    }
}

/// The headers of a request that is passed on: those that are not about one connection alone,
/// with the proxy in `Via` and the authority in `Host`.
pub open spec fn forwarded_headers(
    headers: Map<Seq<char>, Seq<Seq<u8>>>,
    authority: Seq<char>,
) -> Map<Seq<char>, Seq<Seq<u8>>> {
    let kept = end_to_end(headers);
    kept.insert("via"@, values_of(kept, "via"@).push(via_value())).insert(
        "host"@,
        seq![encode_utf8(authority)],
    )
}

/// The headers of a response that is passed back: those that are not about one connection alone,
/// with the proxy in `Via`.
pub open spec fn returned_headers(headers: Map<Seq<char>, Seq<Seq<u8>>>) -> Map<
    Seq<char>,
    Seq<Seq<u8>>,
> {
    let kept = end_to_end(headers);
    kept.insert("via"@, values_of(kept, "via"@).push(via_value()))
}

/// What happened to the headers of a request that is passed on.
#[derive(Debug, Clone, PartialEq, Eq)]
pub enum HeaderOutcome {
    Ready,
    /// There are more headers than can be kept.
    TooMany,
    Failed(HttpProxyFailure),
}

proof fn lemma_fewer(headers: Map<Seq<char>, Seq<Seq<u8>>>, names: Seq<Seq<char>>)
    requires
        without_names(headers, names).dom().finite(),
    ensures
        headers.dom().finite(),
        without_names(headers, names).dom().len() <= headers.dom().len(),
    decreases names.len(),
{
    if names.len() > 0 {
        let before = without_names(headers, names.drop_last()).dom();
        let after = without_names(headers, names).dom();
        assert(after =~= before.remove(names.last()));
        assert(before.finite()) by {
            if before.contains(names.last()) {
                assert(before =~= after.insert(names.last()));
            } else {
                assert(before =~= after);
            }
        }
        lemma_fewer(headers, names.drop_last());
    }
}

/// Makes the headers of a request those that are passed on.
pub fn prepare_forward_headers(headers: &mut HeaderMap<HeaderValue>, authority: &str) -> (r:
    HeaderOutcome)
    ensures
        (match r {
            HeaderOutcome::Ready => is_header_value(authority@) && header_values(*final(headers))
                == forwarded_headers(header_values(*old(headers)), authority@),
            HeaderOutcome::TooMany => header_values(*old(headers)).dom().len() + 1 >= FEW_HEADERS,
            HeaderOutcome::Failed(failure) => !is_header_value(authority@) && failure.status
                == BAD_REQUEST && failure.error@ == "failed to parse header value"@,
        }),
        header_values(*final(headers)).dom().finite(),
{
    proof {
        lemma_via();
    }
    remove_hop_by_hop_headers(headers);
    let ghost kept = header_values(*headers);
    if !append_via(headers) {
        return HeaderOutcome::TooMany;
    }
    assert(header_values(*headers).dom() =~= kept.dom().insert("via"@));
    match insert(headers, "host", authority) {
        Ok(true) => HeaderOutcome::Ready,
        Ok(false) => HeaderOutcome::TooMany,
        Err(message) => HeaderOutcome::Failed(HttpProxyFailure::bad_request(message)),
    }
}

/// Makes the headers of a response those that are passed back; tells whether there was room.
pub fn prepare_response_headers(headers: &mut HeaderMap<HeaderValue>) -> (ready: bool)
    ensures
        ready ==> header_values(*final(headers)) == returned_headers(header_values(*old(headers))),
        !ready ==> header_values(*final(headers)) == end_to_end(header_values(*old(headers))),
        header_values(*final(headers)).dom().finite(),
        has_room(header_values(*old(headers))) ==> ready,
{
    remove_hop_by_hop_headers(headers);
    append_via(headers)
}

// ---------------------------------------------------------------------------
// Laws of headers
// ---------------------------------------------------------------------------
/// Between two commas of a value, or a comma and an end of it, stands the name, in any case of
/// letters, with nothing else but white space. A value with other bytes than printing ASCII,
/// spaces and tabs lists nothing.
pub open spec fn lists_name(value: Seq<u8>, name: Seq<char>) -> bool {
    let text = value.map_values(|byte: u8| byte as char);
    &&& name.len() > 0
    &&& forall|i: int|
        0 <= i < value.len() ==> 32 <= #[trigger] value[i] <= 126 || value[i] == 9
    &&& exists|a: int, b: int| #[trigger]
        is_stretch(text, ',', a, b) && lowercase(trimmed(text.subrange(a, b))) == name
}

proof fn lemma_listed(list: Seq<Seq<char>>, from: int, name: Seq<char>)
    requires
        0 <= from,
    ensures
        listed_names(list, from).contains(name) <==> exists|k: int|
            from <= k < list.len() && trimmed(#[trigger] list[k]).len() > 0 && lowercase(
                trimmed(list[k]),
            ) == name,
    decreases list.len() - from,
{
    if from < list.len() {
        lemma_listed(list, from + 1, name);
        let here = listed_names(list, from);
        let rest = listed_names(list, from + 1);
        let word = trimmed(list[from]);
        if word.len() > 0 {
            assert(here[0] == lowercase(word));
            if rest.contains(name) {
                let k = rest.index_of(name);
                assert(here[k + 1] == name);
            }
            if here.contains(name) && lowercase(word) != name {
                let k = here.index_of(name);
                assert(rest[k - 1] == name);
            }
        }
    }
}

proof fn lemma_value_lists(value: Seq<u8>, name: Seq<char>)
    ensures
        lists_name(value, name) <==> is_readable(value) && listed_names(
            pieces(value_text(value), ','),
            0,
        ).contains(name),
{
    let text = value_text(value);
    let list = pieces(text, ',');
    assert(text =~= value.map_values(|byte: u8| byte as char));
    pieces_are_the_stretches(text, ',');
    lemma_listed(list, 0, name);
    if is_readable(value) {
        assert forall|i: int| 0 <= i < value.len() implies 32 <= #[trigger] value[i] <= 126
            || value[i] == 9 by {
            assert(is_visible(value[i]));
        }
    }
    if is_readable(value) && listed_names(list, 0).contains(name) {
        let k = choose|k: int|
            0 <= k < list.len() && trimmed(#[trigger] list[k]).len() > 0 && lowercase(
                trimmed(list[k]),
            ) == name;
        assert(stands_between(text, ',', list[k]));
        let (a, b) = choose|a: int, b: int| #[trigger]
            is_stretch(text, ',', a, b) && text.subrange(a, b) == list[k];
        assert(lowercase(trimmed(text.subrange(a, b))) == name);
    }
    if lists_name(value, name) {
        assert(is_readable(value));
        let (a, b) = choose|a: int, b: int| #[trigger]
            is_stretch(text, ',', a, b) && lowercase(trimmed(text.subrange(a, b))) == name;
        assert(list.contains(text.subrange(a, b)));
        let k = list.index_of(text.subrange(a, b));
        assert(trimmed(list[k]).len() == name.len());
    }
}

proof fn lemma_all_listed(values: Seq<Seq<u8>>, from: int, name: Seq<char>)
    requires
        0 <= from,
    ensures
        all_listed_names(values, from).contains(name) <==> exists|k: int|
            from <= k < values.len() && lists_name(#[trigger] values[k], name),
    decreases values.len() - from,
{
    if from < values.len() {
        lemma_all_listed(values, from + 1, name);
        lemma_value_lists(values[from], name);
        let all = all_listed_names(values, from);
        let rest = all_listed_names(values, from + 1);
        if is_readable(values[from]) {
            let here = listed_names(pieces(value_text(values[from]), ','), 0);
            assert(all == here + rest);
            if here.contains(name) {
                let k = here.index_of(name);
                assert(all[k] == name);
            }
            if rest.contains(name) {
                let k = rest.index_of(name);
                assert(all[k + here.len()] == name);
            }
            if all.contains(name) {
                let k = all.index_of(name);
                if k < here.len() {
                    assert(here[k] == name);
                } else {
                    assert(rest[k - here.len()] == name);
                }
            }
        }
    }
}

/// A header that no value of `Connection` lists, and that is none of the nine that are always
/// about one connection alone, is passed on with all its values: a cookie, an authorization, a
/// content type.
pub proof fn other_headers_are_passed_on(
    headers: Map<Seq<char>, Seq<Seq<u8>>>,
    name: Seq<char>,
)
    requires
        name != "connection"@,
        name != "proxy-authenticate"@,
        name != "proxy-authorization"@,
        name != "te"@,
        name != "trailer"@,
        name != "transfer-encoding"@,
        name != "upgrade"@,
        name != "keep-alive"@,
        name != "proxy-connection"@,
        headers.contains_key("connection"@) ==> forall|k: int|
            0 <= k < headers["connection"@].len() ==> !lists_name(
                #[trigger] headers["connection"@][k],
                name,
            ),
    ensures
        end_to_end(headers).contains_key(name) == headers.contains_key(name),
        headers.contains_key(name) ==> end_to_end(headers)[name] == headers[name],
{
    passed_headers_are_unchanged(headers, name);
    lemma_all_listed(values_of(headers, "connection"@), 0, name);
    if connection_names().contains(name) {
        let k = connection_names().index_of(name);
        assert(connection_names()[k] == name);
    }
}

/// The nine headers that are always about one connection alone, and those that a value of
/// `Connection` lists, are never passed on.
pub proof fn connection_headers_are_taken_away(
    headers: Map<Seq<char>, Seq<Seq<u8>>>,
    name: Seq<char>,
)
    requires
        name == "connection"@ || name == "proxy-authenticate"@ || name == "proxy-authorization"@
            || name == "te"@ || name == "trailer"@ || name == "transfer-encoding"@ || name
            == "upgrade"@ || name == "keep-alive"@ || name == "proxy-connection"@ || (
        headers.contains_key("connection"@) && exists|k: int|
            0 <= k < headers["connection"@].len() && lists_name(
                #[trigger] headers["connection"@][k],
                name,
            )),
    ensures
        !end_to_end(headers).contains_key(name),
{
    passed_headers_are_unchanged(headers, name);
    lemma_all_listed(values_of(headers, "connection"@), 0, name);
    let usual = connection_names();
    assert(usual[0] == "connection"@ && usual[1] == "proxy-authenticate"@ && usual[2]
        == "proxy-authorization"@ && usual[3] == "te"@ && usual[4] == "trailer"@ && usual[5]
        == "transfer-encoding"@ && usual[6] == "upgrade"@ && usual[7] == "keep-alive"@ && usual[8]
        == "proxy-connection"@);
    assert(forall|k: int| 0 <= k < 9 ==> usual.contains(#[trigger] usual[k]));
}

/// A request is passed on with the authority as its only `Host`, with `1.1 stk` behind what it
/// had in `Via`, and with its other headers as they are but for those about one connection.
pub proof fn passed_requests_name_host_and_proxy(
    headers: Map<Seq<char>, Seq<Seq<u8>>>,
    authority: Seq<char>,
    name: Seq<char>,
)
    requires
        !end_to_end(headers).contains_key("via"@) ==> !headers.contains_key("via"@),
    ensures
        ({
            let passed = forwarded_headers(headers, authority);
            let via = if headers.contains_key("via"@) {
                headers["via"@]
            } else {
                Seq::empty()
            };
            &&& passed.contains_key("host"@) && passed["host"@] == seq![encode_utf8(authority)]
            &&& passed.contains_key("via"@) && passed["via"@] == via.push(
                seq![49u8, 46, 49, 32, 115, 116, 107],
            )
            &&& name != "host"@ && name != "via"@ ==> passed.contains_key(name) == end_to_end(
                headers,
            ).contains_key(name)
            &&& name != "host"@ && name != "via"@ && passed.contains_key(name) ==> passed[name]
                == headers[name]
        }),
{
    passed_headers_are_unchanged(headers, "via"@);
    passed_headers_are_unchanged(headers, name);
    lemma_proxy_name();
    reveal_strlit("via");
    reveal_strlit("host");
    assert("via"@.len() != "host"@.len());
}

/// A response is passed back with `1.1 stk` behind what it had in `Via`, and with its other
/// headers as they are but for those about one connection.
pub proof fn passed_responses_name_the_proxy(
    headers: Map<Seq<char>, Seq<Seq<u8>>>,
    name: Seq<char>,
)
    requires
        !end_to_end(headers).contains_key("via"@) ==> !headers.contains_key("via"@),
    ensures
        ({
            let passed = returned_headers(headers);
            let via = if headers.contains_key("via"@) {
                headers["via"@]
            } else {
                Seq::empty()
            };
            &&& passed.contains_key("via"@) && passed["via"@] == via.push(
                seq![49u8, 46, 49, 32, 115, 116, 107],
            )
            &&& name != "via"@ ==> passed.contains_key(name) == end_to_end(headers).contains_key(
                name,
            )
            &&& name != "via"@ && passed.contains_key(name) ==> passed[name] == headers[name]
        }),
{
    passed_headers_are_unchanged(headers, "via"@);
    passed_headers_are_unchanged(headers, name);
    lemma_proxy_name();
}

proof fn lemma_proxy_name()
    ensures
        via_value() == seq![49u8, 46, 49, 32, 115, 116, 107],
{
    reveal_strlit("1.1 stk");
    let value = "1.1 stk"@;
    assert(is_ascii_chars(value));
    vstd::utf8::is_ascii_chars_encode_utf8(value);
    assert(encode_utf8(value) =~= seq![49u8, 46, 49, 32, 115, 116, 107]);
}

// ---------------------------------------------------------------------------
// Laws of requests
// ---------------------------------------------------------------------------
/// Only plain HTTP is passed on, in any case of letters; a request that names another scheme is
/// refused, whatever else it says.
pub proof fn other_schemes_are_refused(
    head: RequestHead,
    authority: Option<Seq<char>>,
    uri: Option<Seq<char>>,
)
    ensures
        head.scheme is Some && lowercase(head.scheme->0@) != "http"@ ==> forward_place(
            head,
            authority,
            uri,
        ) is Err,
        scheme_fault(head) is None <==> head.scheme is None || lowercase(head.scheme->0@)
            == "http"@,
{
}

/// A request goes where its URI says, and only where that says nothing where its `Host` says;
/// without either, or with a `Host` that cannot be read, it is refused.
pub proof fn uris_come_before_hosts(head: RequestHead)
    ensures
        head.authority is Some ==> request_authority(head) == Ok::<_, Seq<char>>(
            head.authority->0@,
        ),
        head.authority is None && head.host is None ==> request_authority(head) is Err,
        head.authority is None && head.host is Some && (forall|i: int|
            0 <= i < head.host->0@.len() ==> 32 <= #[trigger] head.host->0@[i] <= 126
                || head.host->0@[i] == 9) ==> request_authority(head) == Ok::<_, Seq<char>>(
            head.host->0@.map_values(|byte: u8| byte as char),
        ),
        head.authority is None && head.host is Some && (exists|i: int|
            0 <= i < head.host->0@.len() && (#[trigger] head.host->0@[i] >= 127
                || head.host->0@[i] < 9)) ==> request_authority(head) is Err,
{
    if head.host is Some {
        let value = head.host->0@;
        assert(value_text(value) =~= value.map_values(|byte: u8| byte as char));
        if exists|i: int|
            0 <= i < value.len() && (#[trigger] value[i] >= 127 || value[i] < 9) {
            let i = choose|i: int|
                0 <= i < value.len() && (#[trigger] value[i] >= 127 || value[i] < 9);
            assert(!is_visible(value[i]));
        }
        if forall|i: int|
            0 <= i < value.len() ==> 32 <= #[trigger] value[i] <= 126 || value[i] == 9 {
            assert(is_readable(value));
        }
    }
}

/// A request that is passed on goes to the place that its authority names, at port 80 where that
/// names none, with its own path and query, and with a slash where it has none.
pub proof fn requests_are_passed_on_as_they_are(head: RequestHead, host: Seq<char>)
    requires
        scheme_fault(head) is None,
        request_authority(head) is Ok,
        authority_host(request_authority(head)->Ok_0) == host,
        host.len() > 0,
        host[0] != '[' && host[0] != ']',
        host.last() != '[' && host.last() != ']',
        crate::address::read_ip(host) is None,
        authority_port(request_authority(head)->Ok_0) != Some(0u16),
    ensures
        forward_place(head, None, None) == Ok::<_, Seq<char>>(
            Forward {
                authority: request_authority(head)->Ok_0,
                target: Target::DomainPort {
                    domain: host,
                    port: match authority_port(request_authority(head)->Ok_0) {
                        Some(port) => port,
                        None => 80,
                    },
                },
                origin_form: match head.path_and_query {
                    Some(path) => path@,
                    None => seq!['/'],
                },
            },
        ),
{
    reveal_strlit("/");
    assert("/"@ =~= seq!['/']);
    crate::outbound::authorities_name_places(
        crate::address::IpAddress::V4(0),
        host,
        authority_port(request_authority(head)->Ok_0),
        80,
    );
}

/// A request to connect goes to the place that its authority, or else its whole URI, names, at
/// port 443 where that names none.
pub proof fn tunnels_go_where_they_are_asked(head: RequestHead, host: Seq<char>)
    requires
        authority_host(connect_authority(head)) == host,
        host.len() > 0,
        host[0] != '[' && host[0] != ']',
        host.last() != '[' && host.last() != ']',
        crate::address::read_ip(host) is None,
        authority_port(connect_authority(head)) != Some(0u16),
    ensures
        connect_place(head, None) == Ok::<_, Seq<char>>(
            Target::DomainPort {
                domain: host,
                port: match authority_port(connect_authority(head)) {
                    Some(port) => port,
                    None => 443,
                },
            },
        ),
        head.authority is Some ==> connect_authority(head) == head.authority->0@,
        head.authority is None ==> connect_authority(head) == head.uri@,
{
    crate::outbound::authorities_name_places(
        crate::address::IpAddress::V4(0),
        host,
        authority_port(connect_authority(head)),
        443,
    );
}

/// A host name with a port behind a colon has that host and that port; a name alone has no port.
pub proof fn authorities_are_host_and_port(host: Seq<char>, port: u16)
    requires
        host.len() > 0,
        !host.contains('@'),
        !host.contains(':'),
        host[0] != '[',
    ensures
        authority_host(host) == host,
        authority_port(host) is None,
        authority_host(host + seq![':'] + text::decimal(port as nat)) == host,
        authority_port(host + seq![':'] + text::decimal(port as nat)) == Some(port),
{
    let digits = text::decimal(port as nat);
    let s = host + seq![':'] + digits;
    text::decimal_reads_back(port as nat);
    text::splits_keep_both_sides(host, ':', digits);
    text::splits_keep_both_sides(host, '@', digits);
    text::lemma_last_index(host, '@');
    text::lemma_last_index(host, ':');
    text::lemma_first_index(host, ':');
    assert(host.skip(0) =~= host);
    assert(host.take(host.len() as int) =~= host);
    assert forall|i: int| 0 <= i < digits.len() implies digits[i] != ':' && digits[i] != '@' by {
        assert(text::is_digit(digits[i]));
    }
    assert(!digits.contains(':'));
    text::lemma_last_index(s, '@');
    let at = text::last_index(s, '@');
    if at >= 0 {
        if at < host.len() {
            assert(host[at] == '@');
            assert(host.contains(host[at]));
        } else if at > host.len() {
            assert(digits[at - host.len() - 1] == '@');
        }
    }
    assert(s.skip(0) =~= s);
    assert(s[0] == host[0]);
    assert(s[host.len() as int] == ':');
    assert forall|i: int| 0 <= i < host.len() implies s[i] != ':' by {
        assert(s[i] == host[i]);
        assert(host.contains(host[i]));
    }
    text::lemma_first_index_unique(s, ':', host.len() as int);
    assert(s.take(host.len() as int) =~= host);
    text::lemma_last_index(s, ':');
    assert(text::last_index(s, ':') == host.len()) by {
        let colon = text::last_index(s, ':');
        if colon > host.len() {
            assert(digits[colon - host.len() - 1] == ':');
        }
    }
    assert(s.skip(host.len() as int + 1) =~= digits);
    text::numbers_are_read_up_to_a_bound(port as nat, 65535, seq![':'], 0);
}

/// A request that is wrong is answered with 400, one that cannot be passed on with 502.
pub proof fn failures_are_told_by_number()
    ensures
        failure_body(400) == "Bad Request\n"@,
        failure_body(502) == "Bad Gateway\n"@,
        BAD_REQUEST == 400,
        BAD_GATEWAY == 502,
{
}

} // verus!
