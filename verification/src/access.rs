//! Who may call the service: the allowed cross-origin callers and the
//! optional bearer token.

use vstd::prelude::*;
use crate::error::UserError;
use crate::text::chars_of;

verus! {

/// `item` occurs in `list` at position `i` as a whole entry of the
/// comma-separated list: delimited by the list's ends or by commas, and
/// holding no comma itself.
pub open spec fn entry_at(list: Seq<char>, item: Seq<char>, i: int) -> bool {
    &&& 0 <= i
    &&& i + item.len() <= list.len()
    &&& list.subrange(i, i + item.len()) == item
    &&& (i == 0 || list[i - 1] == ',')
    &&& (i + item.len() == list.len() || list[i + item.len()] == ',')
    &&& !item.contains(',')
}

/// `item` is one of the entries of the comma-separated `list`.
pub open spec fn is_entry(list: Seq<char>, item: Seq<char>) -> bool {
    exists|i: int| #[trigger] entry_at(list, item, i)
}

fn has_comma(item: &Vec<char>) -> (b: bool)
    ensures
        b == item@.contains(','),
{
    let mut k: usize = 0;
    while k < item.len()
        invariant
            k <= item@.len(),
            forall|j: int| 0 <= j < k ==> item@[j] != ',',
        decreases item@.len() - k,
    {
        if item[k] == ',' {
            assert(item@[k as int] == ',');
            return true;
        }
        k = k + 1;
    }
    false
}

fn matches_at(list: &Vec<char>, item: &Vec<char>, i: usize) -> (b: bool)
    requires
        i + item@.len() <= list@.len(),
    ensures
        b == (list@.subrange(i as int, i + item@.len()) == item@),
{
    let n = list.len();
    let mut k: usize = 0;
    while k < item.len()
        invariant
            n == list@.len(),
            i + item@.len() <= list@.len(),
            k <= item@.len(),
            forall|j: int| 0 <= j < k ==> list@[i + j] == item@[j],
        decreases item@.len() - k,
    {
        if list[i + k] != item[k] {
            assert(list@.subrange(i as int, i + item@.len())[k as int] != item@[k as int]);
            return false;
        }
        k = k + 1;
    }
    assert(list@.subrange(i as int, i + item@.len()) =~= item@);
    true
}

/// Whether `item` is one of the entries of the comma-separated `list`.
pub fn list_contains(list: &str, item: &str) -> (b: bool)
    ensures
        b == is_entry(list@, item@),
{
    let l = chars_of(list);
    let t = chars_of(item);
    if has_comma(&t) {
        return false;
    }
    if t.len() > l.len() {
        return false;
    }
    let n = l.len();
    let last = n - t.len();
    let mut i: usize = 0;
    loop
        invariant
            l@ == list@,
            t@ == item@,
            n == l@.len(),
            !item@.contains(','),
            last == l@.len() - t@.len(),
            i <= last,
            forall|j: int| 0 <= j < i ==> !#[trigger] entry_at(list@, item@, j),
        ensures
            forall|j: int| 0 <= j <= last ==> !#[trigger] entry_at(list@, item@, j),
        decreases last - i,
    {
        let before_ok = i == 0 || l[i - 1] == ',';
        let after_ok = i == last || l[i + t.len()] == ',';
        if before_ok && after_ok && matches_at(&l, &t, i) {
            assert(entry_at(list@, item@, i as int));
            return true;
        }
        if i == last {
            break;
        }
        i = i + 1;
    }
    false
}

/// The allowed origins when none are configured: any.
pub open spec fn any_origin() -> Seq<char> {
    "*"@
}

/// The value of the `Access-Control-Allow-Origin` header for a request from
/// `origin`, given the configured comma-separated list of allowed origins
/// (`ACTIX_CORS_ORIGIN`, `*` when not set): `*` when the list admits any
/// origin, the request's origin when the list names it, and no header
/// otherwise.
pub open spec fn spec_allowed_origin(configured: Option<String>, origin: Option<String>) -> Option<
    Seq<char>,
> {
    let list = match configured {
        Some(c) => c@,
        None => any_origin(),
    };
    if is_entry(list, any_origin()) {
        Some(any_origin())
    } else {
        match origin {
            Some(o) => if is_entry(list, o@) {
                Some(o@)
            } else {
                None
            },
            None => None,
        }
    }
}

/// Computes the `Access-Control-Allow-Origin` header value, if any.
pub fn allowed_origin(configured: &Option<String>, origin: &Option<String>) -> (r: Option<String>)
    ensures
        match r {
            Some(v) => spec_allowed_origin(*configured, *origin) == Some(v@),
            None => spec_allowed_origin(*configured, *origin) is None,
        },
{
    let list = match configured {
        Some(c) => c.clone(),
        None => String::from_str("*"),
    };
    if list_contains(list.as_str(), "*") {
        return Some(String::from_str("*"));
    }
    match origin {
        Some(o) => if list_contains(list.as_str(), o.as_str()) {
            Some(o.clone())
        } else {
            None
        },
        None => None,
    }
}

/// Whether a request presenting the `Authorization` header value
/// `authorization` may use the extraction endpoints: always when no bearer
/// token is configured (`ACTIX_BEARER_TOKEN`), otherwise only when the
/// header is exactly `Bearer <token>`.
pub open spec fn spec_authorized(token: Option<String>, authorization: Option<String>) -> bool {
    match token {
        None => true,
        Some(t) => authorization matches Some(h) && h@ == "Bearer "@ + t@,
    }
}

/// Admits or refuses a request to the extraction endpoints.
pub fn authorize(token: &Option<String>, authorization: &Option<String>) -> (r: Result<(), UserError>)
    ensures
        r is Ok <==> spec_authorized(*token, *authorization),
        r matches Err(e) ==> (e matches UserError::Unauthorized(d) && d@
            == "Missing or invalid bearer token"@),
{
    match token {
        None => Ok(()),
        Some(t) => {
            let expected = String::from_str("Bearer ").concat(t.as_str());
            match authorization {
                Some(h) => if *h == expected {
                    Ok(())
                } else {
                    Err(UserError::Unauthorized(String::from_str("Missing or invalid bearer token")))
                },
                None => Err(
                    UserError::Unauthorized(String::from_str("Missing or invalid bearer token")),
                ),
            }
        },
    }
}

/// Without a configured list every origin is allowed, answered with `*`.
pub proof fn law_unconfigured_allows_any_origin(origin: Option<String>)
    ensures
        spec_allowed_origin(None, origin) == Some(seq!['*']),
{
    reveal_strlit("*");
    assert(any_origin() =~= seq!['*']);
    assert(any_origin().subrange(0, 1) =~= any_origin());
    assert(!any_origin().contains(','));
    assert(entry_at(any_origin(), any_origin(), 0));
}

/// A configured list with `*` as one of its comma-separated entries (at
/// position `i`) allows every origin, answered with `*`.
pub proof fn law_star_entry_allows_any_origin(configured: String, origin: Option<String>, i: int)
    requires
        0 <= i < configured@.len(),
        configured@[i] == '*',
        i == 0 || configured@[i - 1] == ',',
        i + 1 == configured@.len() || configured@[i + 1] == ',',
    ensures
        spec_allowed_origin(Some(configured), origin) == Some(seq!['*']),
{
    reveal_strlit("*");
    assert(any_origin() =~= seq!['*']);
    assert(configured@.subrange(i, i + 1) =~= any_origin());
    assert(!any_origin().contains(','));
    assert(entry_at(configured@, any_origin(), i));
}

/// A configured list that is exactly one origin (without commas) allows that
/// origin, answered with the origin itself.
pub proof fn law_single_origin_allowed(configured: String, origin: String)
    requires
        configured@ == origin@,
        forall|k: int| 0 <= k < origin@.len() ==> #[trigger] origin@[k] != ',',
    ensures
        spec_allowed_origin(Some(configured), Some(origin)) == Some(origin@),
{
    reveal_strlit("*");
    assert(origin@.subrange(0, origin@.len() as int) =~= origin@);
    assert(entry_at(configured@, origin@, 0));
    if is_entry(configured@, any_origin()) {
        let i = choose|i: int| entry_at(configured@, any_origin(), i);
        assert(configured@.subrange(i, i + 1)[0] == '*');
        if configured@.len() > 1 {
            if i > 0 {
                assert(configured@[i - 1] == ',');
            } else {
                assert(configured@[i + 1] == ',');
            }
        }
        assert(configured@ =~= any_origin());
    }
}

/// Without a configured token every request is admitted, whatever
/// `Authorization` header it sends or omits.
pub proof fn law_no_token_admits_everyone(authorization: Option<String>)
    ensures
        spec_authorized(None, authorization),
{
}

/// With a configured token a request is admitted exactly when its
/// `Authorization` header reads `Bearer ` followed by the token; a request
/// without the header is refused.
pub proof fn law_token_requires_bearer_header(token: String, authorization: Option<String>)
    ensures
        spec_authorized(Some(token), authorization) <==> (authorization matches Some(h) && h@
            == seq!['B', 'e', 'a', 'r', 'e', 'r', ' '] + token@),
        authorization is None ==> !spec_authorized(Some(token), authorization),
{
    reveal_strlit("Bearer ");
    assert("Bearer "@ =~= seq!['B', 'e', 'a', 'r', 'e', 'r', ' ']);
}

} // verus!
