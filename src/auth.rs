use vstd::prelude::*;
use vstd::string::StringExecFns;
use vstd::utf8::encode_utf8;

use http::HeaderMap;

use crate::headers::{HEADER_ROOM, header_contents, header_name_count, is_header_value_byte, set_header};
use crate::provider::Request;

verus! {

/// Supplies the bearer token and account of API requests. Implementations should be
/// cheap and non-blocking; refreshing happens before requests get here.
pub trait AuthProvider {
    fn bearer_token(&self) -> Option<String>;

    fn account_id(&self) -> Option<String> {
        None
    }
}

/// All bytes may stand in a header value.
pub open spec fn valid_header_value(b: Seq<u8>) -> bool {
    forall|i: int| 0 <= i < b.len() ==> is_header_value_byte(#[trigger] b[i])
}

/// After an attempt to set header `name` to `value` (`None`: no attempt): an invalid
/// value is dropped and the header stays as it was; a valid one is set when the map
/// had `room`, and otherwise is set or dropped.
pub open spec fn header_set_or_kept(
    before: Map<Seq<char>, Seq<u8>>,
    after: Map<Seq<char>, Seq<u8>>,
    name: Seq<char>,
    value: Option<Seq<u8>>,
    room: bool,
) -> bool {
    match value {
        None => after.get(name) == before.get(name),
        Some(v) => if !valid_header_value(v) {
            after.get(name) == before.get(name)
        } else if room {
            after.get(name) == Some(v)
        } else {
            after.get(name) == before.get(name) || after.get(name) == Some(v)
        },
    }
}

/// The text of an optional string.
pub open spec fn text_of(s: Option<String>) -> Option<Seq<char>> {
    match s {
        Some(t) => Some(t@),
        None => None,
    }
}

/// The header names that authentication sets.
pub open spec fn is_auth_header(name: Seq<char>) -> bool {
    name == "api-key"@ || name == "authorization"@ || name == "chatgpt-account-id"@
}

/// The authentication headers after `with_auth_headers`: the token goes to `api-key`
/// for Azure and to `authorization` as `Bearer <token>` otherwise; the account to
/// `chatgpt-account-id`; every other header stays.
pub open spec fn auth_applied(
    before: Map<Seq<char>, Seq<u8>>,
    after: Map<Seq<char>, Seq<u8>>,
    token: Option<Seq<char>>,
    account_id: Option<Seq<char>>,
    is_azure: bool,
    room: bool,
) -> bool {
    &&& forall|k: Seq<char>| !is_auth_header(k) ==> #[trigger] after.get(k) == before.get(k)
    &&& header_set_or_kept(
        before,
        after,
        "api-key"@,
        match token {
            Some(t) => if is_azure {
                Some(encode_utf8(t))
            } else {
                None
            },
            None => None,
        },
        room,
    )
    &&& header_set_or_kept(
        before,
        after,
        "authorization"@,
        match token {
            Some(t) => if is_azure {
                None
            } else {
                Some(encode_utf8("Bearer "@ + t))
            },
            None => None,
        },
        room,
    )
    &&& header_set_or_kept(
        before,
        after,
        "chatgpt-account-id"@,
        match account_id {
            Some(a) => Some(encode_utf8(a)),
            None => None,
        },
        room,
    )
}

/// The map has room for the (at most two) authentication headers: each valid value
/// is then certainly set.
pub open spec fn has_auth_room(h: HeaderMap) -> bool {
    header_name_count(h) + 2 < HEADER_ROOM
}

proof fn lemma_auth_names_differ()
    ensures
        "api-key"@ != "authorization"@,
        "api-key"@ != "chatgpt-account-id"@,
        "authorization"@ != "chatgpt-account-id"@,
{
    reveal_strlit("api-key");
    reveal_strlit("authorization");
    reveal_strlit("chatgpt-account-id");
    assert("api-key"@[1] != "authorization"@[1]);
    assert("api-key"@[0] != "chatgpt-account-id"@[0]);
    assert("authorization"@[0] != "chatgpt-account-id"@[0]);
}

/// Adds the authentication headers for `token` and `account_id` to `req`. A header
/// whose value is invalid is left out; the request goes on without it. A valid value
/// is set whenever the map has room (see `has_auth_room`).
pub fn with_auth_headers(
    req: Request,
    token: Option<String>,
    account_id: Option<String>,
    is_azure: bool,
) -> (r: Request)
    ensures
        r.method == req.method,
        r.url == req.url,
        r.body == req.body,
        r.timeout_ms == req.timeout_ms,
        auth_applied(
            header_contents(req.headers),
            header_contents(r.headers),
            text_of(token),
            text_of(account_id),
            is_azure,
            has_auth_room(req.headers),
        ),
{
    proof {
        reveal_strlit("api-key");
        reveal_strlit("authorization");
        reveal_strlit("chatgpt-account-id");
        reveal_strlit("Bearer ");
        lemma_auth_names_differ();
    }
    let mut req = req;
    if let Some(t) = &token {
        if is_azure {
            let _ = set_header(&mut req.headers, "api-key", t.as_str());
        } else {
            let value = String::from_str("Bearer ").concat(t.as_str());
            let _ = set_header(&mut req.headers, "authorization", value.as_str());
        }
    }
    if let Some(a) = &account_id {
        let _ = set_header(&mut req.headers, "chatgpt-account-id", a.as_str());
    }
    req
}

/// Adds the authentication headers that `auth` supplies to `req` (see
/// `with_auth_headers`).
pub fn add_auth_headers<A: AuthProvider>(auth: &A, req: Request, is_azure: bool) -> (r: Request)
    ensures
        r.method == req.method,
        r.url == req.url,
        r.body == req.body,
        exists|t: Option<Seq<char>>, a: Option<Seq<char>>|
            auth_applied(
                header_contents(req.headers),
                header_contents(r.headers),
                t,
                a,
                is_azure,
                has_auth_room(req.headers),
            ),
{
    let token = auth.bearer_token();
    let account_id = auth.account_id();
    let ghost t = text_of(token);
    let ghost a = text_of(account_id);
    let ghost before = header_contents(req.headers);
    let ghost room = has_auth_room(req.headers);
    let r = with_auth_headers(req, token, account_id, is_azure);
    proof {
        assert(auth_applied(before, header_contents(r.headers), t, a, is_azure, room));
    }
    r
}

} // verus!
