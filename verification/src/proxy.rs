//! What a proxy does to the header fields that pass through it, and the replies that it gives
//! itself.

use crate::config::ResolvedConfig;
use crate::headers::{
    get_all, has_room, header_fields, header_text, insert, no_headers, remove, value_text,
    NoRoom, MAX_NAMES,
};
use crate::json::{json_quote, quoted};
use crate::text::{items_of, list_items, lower, str_view, views};
use http::HeaderMap;
use vstd::prelude::*;
use vstd::slice::slice_to_vec;
use vstd::string::*;
use vstd::utf8::*;

verus! {

broadcast use vstd::string::group_string_axioms;

/// A value of the `Connection` field lists the field `name`, which is in lower case.
pub open spec fn value_lists(value: Seq<u8>, name: Seq<char>) -> bool {
    match header_text(value) {
        Some(text) => exists|i: int|
            0 <= i < list_items(text).len() && lower(#[trigger] list_items(text)[i]) == name,
        None => false,
    }
}

/// One of the values of the `Connection` field lists the field `name`, which is in lower case.
pub open spec fn one_lists(values: Seq<Seq<u8>>, name: Seq<char>) -> bool {
    exists|i: int| 0 <= i < values.len() && value_lists(#[trigger] values[i], name)
}

/// The values of the `Connection` field.
pub open spec fn connection_values(fields: Map<Seq<char>, Seq<Seq<u8>>>) -> Seq<Seq<u8>> {
    if fields.dom().contains("connection"@) {
        fields["connection"@]
    } else {
        Seq::empty()
    }
}

/// A field that only ever concerns one connection.
pub open spec fn is_connection_field(name: Seq<char>) -> bool {
    ||| name == "connection"@
    ||| name == "keep-alive"@
    ||| name == "transfer-encoding"@
    ||| name == "te"@
    ||| name == "trailer"@
    ||| name == "upgrade"@
    ||| name == "proxy-authorization"@
    ||| name == "proxy-authenticate"@
}

/// The fields that are not passed on: those that only ever concern one connection, and those
/// that the `Connection` field lists.
pub open spec fn hop_by_hop(fields: Map<Seq<char>, Seq<Seq<u8>>>) -> Set<Seq<char>> {
    Set::new(
        |name: Seq<char>|
            is_connection_field(name) || one_lists(connection_values(fields), name),
    )
}

/// The fields that are passed on.
pub open spec fn end_to_end(fields: Map<Seq<char>, Seq<Seq<u8>>>) -> Map<
    Seq<char>,
    Seq<Seq<u8>>,
> {
    fields.remove_keys(hop_by_hop(fields))
}

/// Takes out the fields that a value of the `Connection` field lists.
fn remove_listed(headers: &mut HeaderMap, value: &[u8])
    ensures
        header_fields(*final(headers)) == header_fields(*old(headers)).remove_keys(
            Set::new(|name: Seq<char>| value_lists(value@, name)),
        ),
{
    let ghost before = header_fields(*headers);
    match value_text(value) {
        Some(text) => {
            let items = items_of(text);
            let ghost listed = list_items(text@);
            let mut i: usize = 0;
            assert(before.remove_keys(
                Set::new(
                    |name: Seq<char>|
                        exists|j: int| 0 <= j < 0 && lower(#[trigger] listed[j]) == name,
                ),
            ) =~= before);
            while i < items.len()
                invariant
                    i <= items@.len(),
                    views(items@) == listed,
                    header_fields(*headers) == before.remove_keys(
                        Set::new(
                            |name: Seq<char>|
                                exists|j: int| 0 <= j < i && lower(#[trigger] listed[j]) == name,
                        ),
                    ),
                decreases items@.len() - i,
            {
                let ghost mid = header_fields(*headers);
                assert(listed[i as int] == items@[i as int]@);
                remove(headers, items[i]);
                proof {
                    let next = Set::new(
                        |name: Seq<char>|
                            exists|j: int| 0 <= j < i + 1 && lower(#[trigger] listed[j]) == name,
                    );
                    assert forall|name: Seq<char>|
                        header_fields(*headers).dom().contains(name)
                            == before.remove_keys(next).dom().contains(name) by {
                        if name == lower(listed[i as int]) {
                            assert(next.contains(name));
                        }
                    }
                    assert(header_fields(*headers) =~= before.remove_keys(next));
                }
                i += 1;
            }
            assert(header_text(value@) == Some(text@));
            assert(listed.len() == items@.len());
            assert forall|name: Seq<char>|
                value_lists(value@, name) == exists|j: int|
                    0 <= j < i && lower(#[trigger] listed[j]) == name by {
                if value_lists(value@, name) {
                    let k = choose|k: int|
                        0 <= k < list_items(text@).len() && lower(#[trigger] list_items(text@)[k])
                            == name;
                    assert(lower(listed[k]) == name);
                }
                if exists|j: int| 0 <= j < i && lower(#[trigger] listed[j]) == name {
                    let k = choose|j: int| 0 <= j < i && lower(#[trigger] listed[j]) == name;
                    assert(lower(list_items(text@)[k]) == name);
                }
            }
            assert(Set::new(
                |name: Seq<char>|
                    exists|j: int| 0 <= j < i && lower(#[trigger] listed[j]) == name,
            ) =~= Set::new(|name: Seq<char>| value_lists(value@, name)));
        },
        None => {
            assert(before.remove_keys(Set::new(|name: Seq<char>| value_lists(value@, name)))
                =~= before);
        },
    }
}

/// The names of the fields that only ever concern one connection are in lower case.
proof fn lemma_names_are_lower()
    ensures
        lower("connection"@) == "connection"@,
        lower("keep-alive"@) == "keep-alive"@,
        lower("transfer-encoding"@) == "transfer-encoding"@,
        lower("te"@) == "te"@,
        lower("trailer"@) == "trailer"@,
        lower("upgrade"@) == "upgrade"@,
        lower("proxy-authorization"@) == "proxy-authorization"@,
        lower("proxy-authenticate"@) == "proxy-authenticate"@,
{
    reveal_strlit("connection");
    reveal_strlit("keep-alive");
    reveal_strlit("transfer-encoding");
    reveal_strlit("te");
    reveal_strlit("trailer");
    reveal_strlit("upgrade");
    reveal_strlit("proxy-authorization");
    reveal_strlit("proxy-authenticate");
    assert(lower("connection"@) =~= "connection"@);
    assert(lower("keep-alive"@) =~= "keep-alive"@);
    assert(lower("transfer-encoding"@) =~= "transfer-encoding"@);
    assert(lower("te"@) =~= "te"@);
    assert(lower("trailer"@) =~= "trailer"@);
    assert(lower("upgrade"@) =~= "upgrade"@);
    assert(lower("proxy-authorization"@) =~= "proxy-authorization"@);
    assert(lower("proxy-authenticate"@) =~= "proxy-authenticate"@);
}

/// Takes out the fields that are not passed on.
pub fn strip_hop_by_hop(headers: &mut HeaderMap)
    ensures
        header_fields(*final(headers)) == end_to_end(header_fields(*old(headers))),
{
    let ghost before = header_fields(*headers);
    let values = get_all(headers, "connection");
    let ghost listing = values.deep_view();
    proof {
        lemma_names_are_lower();
    }
    assert(listing == connection_values(before));
    let mut i: usize = 0;
    assert(before.remove_keys(Set::new(|name: Seq<char>| one_lists(listing.take(0), name)))
        =~= before);
    while i < values.len()
        invariant
            i <= values@.len(),
            listing == values.deep_view(),
            header_fields(*headers) == before.remove_keys(
                Set::new(|name: Seq<char>| one_lists(listing.take(i as int), name)),
            ),
        decreases values@.len() - i,
    {
        assert(listing[i as int] == values@[i as int]@);
        remove_listed(headers, values[i].as_slice());
        proof {
            let now = listing.take(i as int);
            let next = listing.take(i + 1);
            assert(next =~= now.push(listing[i as int]));
            assert forall|name: Seq<char>|
                one_lists(next, name) == (one_lists(now, name) || value_lists(
                    listing[i as int],
                    name,
                )) by {
                if one_lists(now, name) {
                    let j = choose|j: int|
                        0 <= j < now.len() && value_lists(#[trigger] now[j], name);
                    assert(value_lists(next[j], name));
                }
                if value_lists(listing[i as int], name) {
                    assert(value_lists(next[i as int], name));
                }
            }
            assert(header_fields(*headers) =~= before.remove_keys(
                Set::new(|name: Seq<char>| one_lists(next, name)),
            ));
        }
        i += 1;
    }
    assert(listing.take(i as int) =~= listing);
    remove(headers, "connection");
    remove(headers, "keep-alive");
    remove(headers, "transfer-encoding");
    remove(headers, "te");
    remove(headers, "trailer");
    remove(headers, "upgrade");
    remove(headers, "proxy-authorization");
    remove(headers, "proxy-authenticate");
    assert(header_fields(*headers) =~= end_to_end(before));
}

/// Once the fields that are not passed on were taken out, taking them out again changes nothing.
pub proof fn stripping_twice_is_stripping_once(fields: Map<Seq<char>, Seq<Seq<u8>>>)
    ensures
        end_to_end(end_to_end(fields)) == end_to_end(fields),
{
    let once = end_to_end(fields);
    assert(!once.dom().contains("connection"@));
    assert forall|name: Seq<char>| once.dom().contains(name) implies !hop_by_hop(once).contains(
        name,
    ) by {
        assert(!hop_by_hop(fields).contains(name));
    }
    assert(end_to_end(once) =~= once);
}

/// The fields of a request as the upstream gets them: the `Host` field names the upstream, and
/// what is not passed on is left out.
pub open spec fn upstream_fields(
    fields: Map<Seq<char>, Seq<Seq<u8>>>,
    authority: Seq<char>,
) -> Map<Seq<char>, Seq<Seq<u8>>> {
    end_to_end(fields.insert("host"@, seq![encode_utf8(authority)]))
}

/// Makes the fields of a request ready for the upstream. Where the `Host` field cannot be put in,
/// which happens only beyond `MAX_NAMES` names, it is missing, and nothing else is done.
pub fn upstream_headers(cfg: &ResolvedConfig, headers: &mut HeaderMap) -> (res: Result<(), NoRoom>)
    requires
        cfg.wf(),
    ensures
        has_room(*old(headers)) ==> res is Ok,
        res is Err ==> {
            let others = header_fields(*old(headers)).remove("host"@).dom();
            others.finite() ==> others.len() > MAX_NAMES
        },
        header_fields(*final(headers)) == (if res is Ok {
            upstream_fields(header_fields(*old(headers)), cfg.upstream_authority@)
        } else {
            header_fields(*old(headers)).remove("host"@)
        }),
{
    let ghost before = header_fields(*headers);
    proof {
        reveal_strlit("host");
        assert(lower("host"@) =~= "host"@);
    }
    remove(headers, "host");
    assert(header_fields(*headers).dom() =~= before.dom().remove("host"@));
    if !insert(headers, "host", cfg.upstream_authority.as_str()) {
        return Err(NoRoom);
    }
    assert(header_fields(*headers) =~= before.insert(
        "host"@,
        seq![encode_utf8(cfg.upstream_authority@)],
    ));
    strip_hop_by_hop(headers);
    Ok(())
}

/// The upstream is addressed by its own name, and by no other, unless the client's `Connection`
/// field lists the `Host` field itself.
pub proof fn host_names_the_upstream(
    fields: Map<Seq<char>, Seq<Seq<u8>>>,
    authority: Seq<char>,
)
    requires
        !one_lists(connection_values(fields), "host"@),
    ensures
        upstream_fields(fields, authority).dom().contains("host"@),
        upstream_fields(fields, authority)["host"@] == seq![encode_utf8(authority)],
{
    reveal_strlit("host");
    reveal_strlit("connection");
    reveal_strlit("keep-alive");
    reveal_strlit("transfer-encoding");
    reveal_strlit("te");
    reveal_strlit("trailer");
    reveal_strlit("upgrade");
    reveal_strlit("proxy-authorization");
    reveal_strlit("proxy-authenticate");
    let with_host = fields.insert("host"@, seq![encode_utf8(authority)]);
    assert("host"@[0] == 'h' && "host"@.len() == 4);
    assert("connection"@.len() == 10);
    assert(connection_values(with_host) == connection_values(fields));
}

/// Where a request goes.
pub struct UpstreamUri {
    /// The scheme.
    pub scheme: String,
    /// The host, and the port if given.
    pub authority: String,
    /// The path, with the query if there is one.
    pub path_and_query: String,
}

/// Finds where a request for `path_and_query` goes: to the same path, which is `/` where the
/// request names none, on the upstream.
pub fn upstream_uri(cfg: &ResolvedConfig, path_and_query: Option<&str>) -> (res: UpstreamUri)
    ensures
        res.scheme@ == "http"@,
        res.authority@ == cfg.upstream_authority@,
        res.path_and_query@ == (match str_view(path_and_query) {
            Some(p) => p,
            None => "/"@,
        }),
{
    let path_and_query = match path_and_query {
        Some(p) => p.to_owned(),
        None => "/".to_owned(),
    };
    UpstreamUri {
        scheme: "http".to_owned(),
        authority: cfg.upstream_authority.clone(),
        path_and_query,
    }
}

/// A reply that the gateway gives itself.
pub struct Reply {
    /// The status code.
    pub status: u16,
    /// The header fields.
    pub headers: HeaderMap,
    /// The body.
    pub body: Vec<u8>,
}

/// An error as JSON.
pub open spec fn error_json(message: Seq<char>, kind: Seq<char>) -> Seq<char> {
    "{\"error\":{\"message\":"@ + quoted(message) + ",\"type\":"@ + quoted(kind) + "}}"@
}

/// The reply has the status `status` and carries an error as JSON, and nothing else.
pub open spec fn is_json_error(
    reply: Reply,
    status: u16,
    message: Seq<char>,
    kind: Seq<char>,
) -> bool {
    &&& reply.status == status
    &&& header_fields(reply.headers) == map![
        "content-type"@ => seq![encode_utf8("application/json"@)],
    ]
    &&& reply.body@ == encode_utf8(error_json(message, kind))
}

/// Makes a reply that carries an error as JSON.
pub(crate) fn json_error(status: u16, message: &str, kind: &str) -> (res: Reply)
    ensures
        is_json_error(res, status, message@, kind@),
{
    let mut headers = no_headers();
    proof {
        reveal_strlit("content-type");
        reveal_strlit("application/json");
        assert(lower("content-type"@) =~= "content-type"@);
    }
    let inserted = insert(&mut headers, "content-type", "application/json");
    assert(inserted);
    assert(header_fields(headers) =~= map![
        "content-type"@ => seq![encode_utf8("application/json"@)],
    ]);
    let mut s = "{\"error\":{\"message\":".to_owned();
    s.append(json_quote(message).as_str());
    s.append(",\"type\":");
    s.append(json_quote(kind).as_str());
    s.append("}}");
    Reply { status, headers, body: slice_to_vec(s.as_str().as_bytes()) }
}

/// The reply to a request that the upstream did not answer, for the reason given.
pub fn bad_gateway(reason: &str) -> (res: Reply)
    ensures
        is_json_error(res, 502, "upstream request failed: "@ + reason@, "server_error"@),
{
    let mut message = "upstream request failed: ".to_owned();
    message.append(reason);
    json_error(502, message.as_str(), "server_error")
}

} // verus!
