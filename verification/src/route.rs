//! Routing: which operation a method and path pair names. Paths have the
//! fixed shapes `/health`, `/lists`, `/lists/{id}` and `/lists/{id}/items`,
//! where `{id}` is one non-empty segment without a slash.

use vstd::prelude::*;
use vstd::string::StrSliceExecFns;

use crate::api::Method;

verus! {

/// The operation a request names, with the path parameter where one exists.
pub enum Route {
    Health,
    ListCollection,
    CreateList,
    ListDetail(String),
    AddItem(String),
    DeleteList(String),
    NoMatch,
}

/// Spec-level counterpart of `Route`, over character sequences.
pub enum SpecRoute {
    Health,
    ListCollection,
    CreateList,
    ListDetail(Seq<char>),
    AddItem(Seq<char>),
    DeleteList(Seq<char>),
    NoMatch,
}

impl View for Route {
    type V = SpecRoute;

    open spec fn view(&self) -> SpecRoute {
        match self {
            Route::Health => SpecRoute::Health,
            Route::ListCollection => SpecRoute::ListCollection,
            Route::CreateList => SpecRoute::CreateList,
            Route::ListDetail(id) => SpecRoute::ListDetail(id@),
            Route::AddItem(id) => SpecRoute::AddItem(id@),
            Route::DeleteList(id) => SpecRoute::DeleteList(id@),
            Route::NoMatch => SpecRoute::NoMatch,
        }
    }
}

/// The path of the health check.
pub open spec fn health_path() -> Seq<char> {
    seq!['/', 'h', 'e', 'a', 'l', 't', 'h']
}

/// The path of the list collection.
pub open spec fn lists_path() -> Seq<char> {
    seq!['/', 'l', 'i', 's', 't', 's']
}

/// The prefix of every path that names one list.
pub open spec fn lists_prefix() -> Seq<char> {
    seq!['/', 'l', 'i', 's', 't', 's', '/']
}

/// The suffix of the add-item path.
pub open spec fn items_suffix() -> Seq<char> {
    seq!['/', 'i', 't', 'e', 'm', 's']
}

/// One non-empty path segment: no slash inside.
pub open spec fn segment(s: Seq<char>) -> bool {
    s.len() > 0 && forall|i: int| 0 <= i < s.len() ==> s[i] != '/'
}

/// Which operation a method and path pair names. A path that matches no
/// shape, or a shape paired with the wrong method, names nothing.
pub open spec fn route_spec(m: Method, p: Seq<char>) -> SpecRoute {
    if p == health_path() {
        if m is Get {
            SpecRoute::Health
        } else {
            SpecRoute::NoMatch
        }
    } else if p == lists_path() {
        if m is Get {
            SpecRoute::ListCollection
        } else if m is Post {
            SpecRoute::CreateList
        } else {
            SpecRoute::NoMatch
        }
    } else if p.len() >= 7 && p.subrange(0, 7) == lists_prefix() && segment(
        p.subrange(7, p.len() as int),
    ) {
        let id = p.subrange(7, p.len() as int);
        if m is Get {
            SpecRoute::ListDetail(id)
        } else if m is Delete {
            SpecRoute::DeleteList(id)
        } else {
            SpecRoute::NoMatch
        }
    } else if p.len() >= 14 && p.subrange(0, 7) == lists_prefix() && p.subrange(
        p.len() - 6,
        p.len() as int,
    ) == items_suffix() && segment(p.subrange(7, p.len() - 6)) {
        if m is Post {
            SpecRoute::AddItem(p.subrange(7, p.len() - 6))
        } else {
            SpecRoute::NoMatch
        }
    } else {
        SpecRoute::NoMatch
    }
}

/// Whether the path is exactly `/health`.
fn eq_health(path: &str) -> (r: bool)
    ensures
        r == (path@ == health_path()),
{
    let len = path.unicode_len();
    if len != 7 {
        return false;
    }
    let r = path.get_char(0) == '/' && path.get_char(1) == 'h' && path.get_char(2) == 'e'
        && path.get_char(3) == 'a' && path.get_char(4) == 'l' && path.get_char(5) == 't'
        && path.get_char(6) == 'h';
    proof {
        if r {
            assert(path@ =~= health_path());
        } else {
            if path@ == health_path() {
                assert(path@[0] == '/' && path@[1] == 'h' && path@[2] == 'e' && path@[3] == 'a'
                    && path@[4] == 'l' && path@[5] == 't' && path@[6] == 'h');
            }
        }
    }
    r
}

/// Whether the path is exactly `/lists`.
fn eq_lists(path: &str) -> (r: bool)
    ensures
        r == (path@ == lists_path()),
{
    let len = path.unicode_len();
    if len != 6 {
        return false;
    }
    let r = path.get_char(0) == '/' && path.get_char(1) == 'l' && path.get_char(2) == 'i'
        && path.get_char(3) == 's' && path.get_char(4) == 't' && path.get_char(5) == 's';
    proof {
        if r {
            assert(path@ =~= lists_path());
        } else {
            if path@ == lists_path() {
                assert(path@[0] == '/' && path@[1] == 'l' && path@[2] == 'i' && path@[3] == 's'
                    && path@[4] == 't' && path@[5] == 's');
            }
        }
    }
    r
}

/// Whether the path starts with `/lists/`.
fn has_lists_prefix(path: &str) -> (r: bool)
    ensures
        r == (path@.len() >= 7 && path@.subrange(0, 7) == lists_prefix()),
{
    let len = path.unicode_len();
    if len < 7 {
        return false;
    }
    let r = path.get_char(0) == '/' && path.get_char(1) == 'l' && path.get_char(2) == 'i'
        && path.get_char(3) == 's' && path.get_char(4) == 't' && path.get_char(5) == 's'
        && path.get_char(6) == '/';
    proof {
        let pre = path@.subrange(0, 7);
        if r {
            assert(pre =~= lists_prefix());
        } else {
            if pre == lists_prefix() {
                assert(path@[0] == pre[0] && path@[1] == pre[1] && path@[2] == pre[2] && path@[3]
                    == pre[3] && path@[4] == pre[4] && path@[5] == pre[5] && path@[6] == pre[6]);
            }
        }
    }
    r
}

/// Whether the six characters ending at `len` read `/items`.
fn ends_items(path: &str, len: usize) -> (r: bool)
    requires
        len == path@.len(),
        len >= 14,
    ensures
        r == (path@.subrange(len - 6, len as int) == items_suffix()),
{
    let r = path.get_char(len - 6) == '/' && path.get_char(len - 5) == 'i' && path.get_char(
        len - 4,
    ) == 't' && path.get_char(len - 3) == 'e' && path.get_char(len - 2) == 'm' && path.get_char(
        len - 1,
    ) == 's';
    proof {
        let suf = path@.subrange(len - 6, len as int);
        if r {
            assert(suf =~= items_suffix());
        } else {
            if suf == items_suffix() {
                assert(path@[len - 6] == suf[0] && path@[len - 5] == suf[1] && path@[len - 4]
                    == suf[2] && path@[len - 3] == suf[3] && path@[len - 2] == suf[4] && path@[len
                    - 1] == suf[5]);
            }
        }
    }
    r
}

/// Whether the characters in `[from, to)` form one slash-free, non-empty
/// segment.
fn segment_free(path: &str, from: usize, to: usize) -> (r: bool)
    requires
        from <= to <= path@.len(),
    ensures
        r == segment(path@.subrange(from as int, to as int)),
{
    if from == to {
        return false;
    }
    let mut k: usize = from;
    while k < to
        invariant
            from <= k <= to <= path@.len(),
            forall|i: int| from <= i < k ==> path@[i] != '/',
        decreases to - k,
    {
        if path.get_char(k) == '/' {
            assert(path@.subrange(from as int, to as int)[k - from] == '/');
            return false;
        }
        k = k + 1;
    }
    assert forall|i: int|
        0 <= i < path@.subrange(from as int, to as int).len() implies path@.subrange(
        from as int,
        to as int,
    )[i] != '/' by {
        assert(path@.subrange(from as int, to as int)[i] == path@[from + i]);
    }
    true
}

/// Maps a method and path to the operation they name.
pub fn parse_route(method: Method, path: &str) -> (r: Route)
    ensures
        r@ == route_spec(method, path@),
{
    if eq_health(path) {
        return match method {
            Method::Get => Route::Health,
            _ => Route::NoMatch,
        };
    }
    if eq_lists(path) {
        return match method {
            Method::Get => Route::ListCollection,
            Method::Post => Route::CreateList,
            _ => Route::NoMatch,
        };
    }
    if !has_lists_prefix(path) {
        return Route::NoMatch;
    }
    let len = path.unicode_len();
    if segment_free(path, 7, len) {
        let id = path.substring_char(7, len).to_owned();
        return match method {
            Method::Get => Route::ListDetail(id),
            Method::Delete => Route::DeleteList(id),
            _ => Route::NoMatch,
        };
    }
    if len >= 14 && ends_items(path, len) && segment_free(path, 7, len - 6) {
        let id = path.substring_char(7, len - 6).to_owned();
        return match method {
            Method::Post => Route::AddItem(id),
            _ => Route::NoMatch,
        };
    }
    Route::NoMatch
}

} // verus!
