use vstd::prelude::*;
use vstd::string::{StrSliceExecFns, StringExecFns};

verus! {

/// Start of a balance query; the account identifier follows.
pub const BALANCE_PREFIX: &'static str = "GET /balance/";

/// Start of an account creation request.
pub const CREATE_ACCOUNT_PREFIX: &'static str = "POST /account/";

/// Start of a transfer request.
pub const TRANSFER_PREFIX: &'static str = "POST /transfer/";

/// What ends the identifier of a balance query.
pub const VERSION_SUFFIX: &'static str = " HTTP/1.1";

/// What separates the head of a request from its body.
pub const BODY_SEPARATOR: &'static str = "\r\n\r\n";

/// A request to the ledger, split out of its text.
#[derive(Debug, PartialEq, Eq)]
pub enum Request {
    /// A balance query for the named account.
    Balance(String),
    /// An account creation; holds the request body.
    CreateAccount(String),
    /// A transfer; holds the request body.
    Transfer(String),
    /// Any other request.
    Unknown,
}

/// The mathematical value of a `Request`.
pub ghost enum RequestView {
    Balance(Seq<char>),
    CreateAccount(Seq<char>),
    Transfer(Seq<char>),
    Unknown,
}

impl View for Request {
    type V = RequestView;

    open spec fn view(&self) -> RequestView {
        match self {
            Request::Balance(id) => RequestView::Balance(id@),
            Request::CreateAccount(body) => RequestView::CreateAccount(body@),
            Request::Transfer(body) => RequestView::Transfer(body@),
            Request::Unknown => RequestView::Unknown,
        }
    }
}

/// `p` occurs in `s` at position `i`.
pub open spec fn occurs_at(s: Seq<char>, p: Seq<char>, i: int) -> bool {
    0 <= i && i + p.len() <= s.len() && s.subrange(i, i + p.len()) == p
}

/// `s` begins with `p`.
pub open spec fn starts_with(s: Seq<char>, p: Seq<char>) -> bool {
    occurs_at(s, p, 0)
}

/// The first position at or after `from` where `p` occurs in `s`, or the length
/// of `s` when there is none.
pub open spec fn first_from(s: Seq<char>, p: Seq<char>, from: int) -> int
    decreases s.len() - from,
{
    if from < 0 || from + p.len() > s.len() {
        s.len() as int
    } else if p.len() == 0 || occurs_at(s, p, from) {
        from
    } else {
        first_from(s, p, from + 1)
    }
}

/// What follows the first body separator in `s`; empty when there is none.
pub open spec fn body_of(s: Seq<char>) -> Seq<char> {
    let at = first_from(s, BODY_SEPARATOR@, 0);
    if at < s.len() {
        s.subrange(at + BODY_SEPARATOR@.len(), s.len() as int)
    } else {
        Seq::empty()
    }
}

/// The request that the text `s` holds, told apart by how it begins.
pub open spec fn route(s: Seq<char>) -> RequestView {
    if starts_with(s, BALANCE_PREFIX@) {
        let start = BALANCE_PREFIX@.len() as int;
        RequestView::Balance(s.subrange(start, first_from(s, VERSION_SUFFIX@, start)))
    } else if starts_with(s, CREATE_ACCOUNT_PREFIX@) {
        RequestView::CreateAccount(body_of(s))
    } else if starts_with(s, TRANSFER_PREFIX@) {
        RequestView::Transfer(body_of(s))
    } else {
        RequestView::Unknown
    }
}

/// Whether `p` occurs in `s` at position `i`.
fn matches_at(s: &str, s_len: usize, p: &str, p_len: usize, i: usize) -> (r: bool)
    requires
        s_len == s@.len(),
        p_len == p@.len(),
    ensures
        r == occurs_at(s@, p@, i as int),
{
    if i > s_len || p_len > s_len - i {
        return false;
    }
    let mut k: usize = 0;
    while k < p_len
        invariant
            i + p_len <= s_len,
            s_len == s@.len(),
            p_len == p@.len(),
            k <= p_len,
            forall|j: int| 0 <= j < k ==> s@[i + j] == p@[j],
        decreases p_len - k,
    {
        if s.get_char(i + k) != p.get_char(k) {
            assert(s@.subrange(i as int, i + p_len)[k as int] != p@[k as int]);
            return false;
        }
        k = k + 1;
    }
    assert(s@.subrange(i as int, i + p_len) =~= p@);
    true
}

/// The first position at or after `from` where `p` occurs in `s`, or the length
/// of `s` when there is none.
fn find_from(s: &str, s_len: usize, p: &str, p_len: usize, from: usize) -> (r: usize)
    requires
        s_len == s@.len(),
        p_len == p@.len(),
        from <= s_len,
    ensures
        r == first_from(s@, p@, from as int),
        from <= r <= s_len,
        r < s_len ==> r + p_len <= s_len,
{
    let mut i: usize = from;
    while i <= s_len && p_len <= s_len - i
        invariant
            s_len == s@.len(),
            p_len == p@.len(),
            from <= i <= s_len,
            first_from(s@, p@, i as int) == first_from(s@, p@, from as int),
        decreases s_len - i,
    {
        if p_len == 0 || matches_at(s, s_len, p, p_len, i) {
            return i;
        }
        i = i + 1;
    }
    s_len
}

/// Splits a request's text into the operation it asks for and that
/// operation's argument.
pub fn parse_request(text: &str) -> (r: Request)
    ensures
        r@ == route(text@),
{
    let len = text.unicode_len();
    if matches_at(text, len, BALANCE_PREFIX, BALANCE_PREFIX.unicode_len(), 0) {
        let start = BALANCE_PREFIX.unicode_len();
        let end = find_from(text, len, VERSION_SUFFIX, VERSION_SUFFIX.unicode_len(), start);
        return Request::Balance(String::from_str(text.substring_char(start, end)));
    }
    let is_create = matches_at(text, len, CREATE_ACCOUNT_PREFIX, CREATE_ACCOUNT_PREFIX.unicode_len(), 0);
    let is_transfer = matches_at(text, len, TRANSFER_PREFIX, TRANSFER_PREFIX.unicode_len(), 0);
    if !is_create && !is_transfer {
        return Request::Unknown;
    }
    let sep_len = BODY_SEPARATOR.unicode_len();
    let at = find_from(text, len, BODY_SEPARATOR, sep_len, 0);
    let body = if at < len {
        String::from_str(text.substring_char(at + sep_len, len))
    } else {
        String::new()
    };
    if is_create {
        Request::CreateAccount(body)
    } else {
        Request::Transfer(body)
    }
}

} // verus!
