//! Return/webhook URL host whitelist: the open-redirect and SSRF guard.
//!
//! Checkout accepts merchant-supplied return and webhook URLs. Left unchecked, these would
//! send customers, or the server itself, wherever a caller likes. Checkout therefore honours
//! either only where its host is on the list of allowed hosts. What counts is the host that
//! the URL leads to: user info in front of it, a port, a path, a query or a fragment behind
//! it are left out, and a URL without one is hostless. An empty list means "allow all", so
//! that deployments keep working until an operator opts in by adding a domain.

use crate::ids::{fresh_id, is_random_part};
use crate::text::{
    all_digits, chars_of, digit, find_from, is_digit, is_space, last_position,
    lemma_last_position, lemma_position, lemma_position_is, occurs_at, opt_str_view, opt_view,
    position, space, stands_at, string_of, texts_view,
};
use vstd::prelude::*;

verus! {

/// A request to allow a host.
#[derive(Debug)]
pub struct CreateDomain {
    pub domain: String,
}

/// An allowed host as it is stored.
#[derive(Debug)]
pub struct Domain {
    pub id: String,
    pub domain: String,
    pub created_at: String,
}

/// An allowed host to be inserted.
#[derive(Debug)]
pub struct NewDomain {
    pub id: String,
    pub domain: String,
}

/// The host that a request asks to allow, under a fresh identifier.
pub fn create(req: CreateDomain) -> (d: NewDomain)
    ensures
        d.domain == req.domain,
        exists|random: Seq<char>| is_random_part(random) && d.id@ == "dom_"@ + random,
{
    NewDomain { id: fresh_id("dom_"), domain: req.domain }
}

// ---- hosts ----

/// The ASCII letters.
pub open spec fn is_letter(c: char) -> bool {
    ('a' <= c && c <= 'z') || ('A' <= c && c <= 'Z')
}

/// The characters that a scheme is made of.
pub open spec fn in_scheme(c: char) -> bool {
    is_letter(c) || is_digit(c) || c == '+' || c == '-' || c == '.'
}

/// Whether `s` is a scheme: a letter, then letters, digits, plus, minus and point.
pub open spec fn is_scheme(s: Seq<char>) -> bool {
    &&& s.len() > 0
    &&& is_letter(s[0])
    &&& forall|i: int| 0 <= i < s.len() ==> in_scheme(#[trigger] s[i])
}

/// Where the authority of a URL begins: after its scheme and "://", at its beginning where it
/// has no scheme.
pub open spec fn authority_start(url: Seq<char>) -> int {
    let colon = position(url, ':');
    if is_scheme(url.take(colon)) && occurs_at(url, seq![':', '/', '/'], colon) {
        colon + 3
    } else {
        0
    }
}

/// Whether a URL begins like one with a scheme, but what stands in the scheme's place is none:
/// its first colon begins "://", and before it no path, query or fragment has begun.
pub open spec fn has_broken_scheme(url: Seq<char>) -> bool {
    let front = url.take(position(url, ':'));
    &&& occurs_at(url, seq![':', '/', '/'], position(url, ':'))
    &&& !is_scheme(front)
    &&& forall|i: int| 0 <= i < front.len() ==> !ends_authority(#[trigger] front[i])
}

/// The part of `s` before the first `c`; all of `s` where there is none.
pub open spec fn before(s: Seq<char>, c: char) -> Seq<char> {
    s.take(position(s, c))
}

/// The part of `s` after the last `c`; all of `s` where there is none.
pub open spec fn after_last(s: Seq<char>, c: char) -> Seq<char> {
    s.skip(last_position(s, c) + 1)
}

/// The authority of a URL: what follows its scheme, up to the path, the query or the fragment.
pub open spec fn authority(url: Seq<char>) -> Seq<char> {
    before(before(before(url.skip(authority_start(url)), '/'), '?'), '#')
}

/// The host that an authority names: what follows the user info, up to the port.
pub open spec fn host_text(authority: Seq<char>) -> Seq<char> {
    before(after_last(authority, '@'), ':')
}

/// Whether an authority can be read: it holds neither a backslash nor white space.
pub open spec fn is_readable(authority: Seq<char>) -> bool {
    forall|i: int|
        0 <= i < authority.len() ==> #[trigger] authority[i] != '\\' && !is_space(authority[i])
}

/// The host of a URL, if it has one. A URL whose scheme is broken, or whose authority cannot
/// be read, has none.
pub open spec fn host(url: Seq<char>) -> Option<Seq<char>> {
    let a = authority(url);
    if !has_broken_scheme(url) && is_readable(a) && host_text(a).len() > 0 {
        Some(host_text(a))
    } else {
        None
    }
}

/// Whether an authority ends before this character.
pub open spec fn ends_authority(c: char) -> bool {
    c == '/' || c == '?' || c == '#'
}

/// The first of the characters that end an authority is where it ends.
proof fn lemma_authority_end(s: Seq<char>, p: int)
    requires
        0 <= p <= s.len(),
        forall|j: int| 0 <= j < p ==> !ends_authority(#[trigger] s[j]),
        p < s.len() ==> ends_authority(s[p]),
    ensures
        before(before(before(s, '/'), '?'), '#') =~= s.take(p),
{
    let r1 = before(s, '/');
    let r2 = before(r1, '?');
    let r3 = before(r2, '#');
    lemma_position(s, '/');
    lemma_position(r1, '?');
    lemma_position(r2, '#');
    let n = r3.len() as int;
    assert(r3 =~= s.take(n));
    if n < p {
        assert(!ends_authority(s[n]));
        if n < r2.len() {
            assert(r2[n] == s[n]);
        } else if n < r1.len() {
            assert(r1[n] == s[n]);
        }
    }
    if p < n {
        assert(r3[p] == s[p]);
        assert(r2[p] == s[p] && r1[p] == s[p]);
    }
}

/// Whether the characters `0..end` are a scheme.
fn scheme_stands(v: &Vec<char>, end: usize) -> (r: bool)
    requires
        end <= v.len(),
    ensures
        r == is_scheme(v@.take(end as int)),
{
    let ghost s = v@.take(end as int);
    if end == 0 || !letter(v[0]) {
        assert(s.len() > 0 ==> s[0] == v@[0]);
        return false;
    }
    let mut i: usize = 0;
    while i < end
        invariant
            i <= end <= v.len(),
            s == v@.take(end as int),
            forall|j: int| 0 <= j < i ==> in_scheme(#[trigger] s[j]),
        decreases end - i,
    {
        let c = v[i];
        assert(s[i as int] == c);
        if !(letter(c) || digit(c) || c == '+' || c == '-' || c == '.') {
            return false;
        }
        i = i + 1;
    }
    assert(s[0] == v@[0]);
    true
}

/// Whether `c` is an ASCII letter.
fn letter(c: char) -> (r: bool)
    ensures
        r == is_letter(c),
{
    ('a' <= c && c <= 'z') || ('A' <= c && c <= 'Z')
}

/// Whether one of the characters `0..end` ends an authority.
fn path_begun(v: &Vec<char>, end: usize) -> (r: bool)
    requires
        end <= v.len(),
    ensures
        r == !(forall|i: int|
            0 <= i < end ==> !ends_authority(#[trigger] v@.take(end as int)[i])),
{
    let ghost s = v@.take(end as int);
    let mut i: usize = 0;
    while i < end
        invariant
            i <= end <= v.len(),
            s == v@.take(end as int),
            forall|j: int| 0 <= j < i ==> !ends_authority(#[trigger] s[j]),
        decreases end - i,
    {
        let c = v[i];
        assert(s[i as int] == c);
        if c == '/' || c == '?' || c == '#' {
            return true;
        }
        i = i + 1;
    }
    false
}

/// Where the authority of a URL begins; none where its scheme is broken.
fn after_scheme(v: &Vec<char>) -> (r: Option<usize>)
    ensures
        r is None <==> has_broken_scheme(v@),
        r matches Some(start) ==> start <= v.len() && start == authority_start(v@),
{
    let mut mark: Vec<char> = Vec::new();
    mark.push(':');
    mark.push('/');
    mark.push('/');
    assert(mark@ =~= seq![':', '/', '/']);
    let colon = find_from(v, ':', 0);
    proof {
        assert(v@.skip(0) =~= v@);
        lemma_position(v@, ':');
    }
    if !stands_at(v, &mark, colon) {
        Some(0)
    } else if scheme_stands(v, colon) {
        Some(colon + 3)
    } else if path_begun(v, colon) {
        Some(0)
    } else {
        None
    }
}

/// Pull the host out of a URL. Anything that cannot be parsed is treated as hostless.
pub fn host_of(url: &str) -> (r: Option<String>)
    ensures
        opt_view(r) == host(url@),
{
    let v = chars_of(url);
    let start = match after_scheme(&v) {
        Some(start) => start,
        None => {
            return None;
        },
    };
    let ghost rest = v@.skip(start as int);
    // The end of the authority, the end of the user info, and whether all of it can be read.
    let mut end: usize = start;
    let mut name: usize = start;
    let mut readable = true;
    while end < v.len() && v[end] != '/' && v[end] != '?' && v[end] != '#'
        invariant
            start <= name <= end <= v.len(),
            rest == v@.skip(start as int),
            forall|j: int| 0 <= j < end - start ==> !ends_authority(#[trigger] rest[j]),
            name > start ==> v@[name - 1] == '@',
            forall|j: int| name <= j < end ==> v@[j] != '@',
            readable == (forall|j: int|
                start <= j < end ==> #[trigger] v@[j] != '\\' && !is_space(v@[j])),
        decreases v.len() - end,
    {
        let c = v[end];
        assert(rest[end - start] == c);
        if c == '@' {
            name = end + 1;
        }
        if c == '\\' || space(c) {
            readable = false;
        }
        end = end + 1;
    }
    let ghost a = authority(url@);
    proof {
        assert(end < v@.len() ==> rest[end - start] == v@[end as int]);
        lemma_authority_end(rest, end - start);
        assert(a =~= v@.subrange(start as int, end as int));
        lemma_last_position(a, '@');
        assert forall|j: int| 0 <= j < a.len() implies a[j] == v@[start + j] by {}
        assert(last_position(a, '@') == name - start - 1) by {
            let q = last_position(a, '@');
            if q >= 0 {
                assert(a[q] == v@[start + q]);
            }
            if name > start {
                assert(a[name - start - 1] == '@');
            }
        }
        assert(readable == is_readable(a)) by {
            if is_readable(a) {
                assert forall|j: int| start <= j < end implies #[trigger] v@[j] != '\\' && !is_space(
                    v@[j],
                ) by {
                    assert(a[j - start] == v@[j]);
                }
            }
        }
    }
    let mut stop: usize = name;
    while stop < end && v[stop] != ':'
        invariant
            name <= stop <= end <= v.len(),
            forall|j: int| name <= j < stop ==> v@[j] != ':',
        decreases end - stop,
    {
        stop = stop + 1;
    }
    proof {
        let t = after_last(a, '@');
        assert(t =~= v@.subrange(name as int, end as int));
        lemma_position_is(t, ':', stop - name);
        assert(host_text(a) =~= v@.subrange(name as int, stop as int));
    }
    if readable && stop > name {
        Some(string_of(&v, name, stop))
    } else {
        None
    }
}

/// Whether a URL may be used as a return/webhook target: always where there is none or no
/// host is listed; otherwise exactly where its host is listed.
pub open spec fn allowed(domains: Seq<Seq<char>>, url: Option<Seq<char>>) -> bool {
    match url {
        None => true,
        Some(u) => domains.len() == 0 || (host(u) matches Some(h) && domains.contains(h)),
    }
}

/// Is `url` allowed to be used as a return/webhook target?
///
/// - no URL: yes (nothing to redirect to).
/// - empty allow-list: yes (the feature is opt-in).
/// - otherwise: only if the URL's host exactly matches a whitelisted domain.
pub fn is_allowed(domains: &Vec<String>, url: Option<&str>) -> (r: bool)
    ensures
        r == allowed(texts_view(domains@), opt_str_view(url)),
{
    let target = match url {
        Some(u) => u,
        None => {
            return true;
        },
    };
    if domains.len() == 0 {
        return true;
    }
    let h = match host_of(target) {
        Some(h) => h,
        None => {
            return false;
        },
    };
    let ghost list = texts_view(domains@);
    let mut i: usize = 0;
    while i < domains.len()
        invariant
            i <= domains.len(),
            list == texts_view(domains@),
            url == Some(target),
            host(target@) == Some(h@),
            forall|j: int| 0 <= j < i ==> list[j] != h@,
        decreases domains.len() - i,
    {
        if domains[i].as_str().eq(h.as_str()) {
            assert(list[i as int] == h@);
            return true;
        }
        i = i + 1;
    }
    false
}

// ---- laws ----

/// Whether a URL can go on so after its authority: it ends, or its path, query or fragment
/// begins.
pub open spec fn is_behind_authority(s: Seq<char>) -> bool {
    s.len() == 0 || ends_authority(s[0])
}

/// Whether a port of `n` digits stands in front of what follows the authority.
pub open spec fn has_port(tail: Seq<char>, n: int) -> bool {
    &&& 0 <= n
    &&& n + 1 <= tail.len()
    &&& tail[0] == ':'
    &&& all_digits(tail.subrange(1, n + 1))
    &&& is_behind_authority(tail.skip(n + 1))
}

/// Whether a URL can go on so after its host: with or without a port.
pub open spec fn is_tail(tail: Seq<char>) -> bool {
    is_behind_authority(tail) || exists|n: int| has_port(tail, n)
}

/// Whether `h` can be a host: it holds nothing that ends a host or an authority, or that
/// makes an authority unreadable.
pub open spec fn is_host(h: Seq<char>) -> bool {
    &&& h.len() > 0
    &&& is_readable(h)
    &&& forall|i: int|
        0 <= i < h.len() ==> !ends_authority(#[trigger] h[i]) && h[i] != ':' && h[i] != '@'
}

/// Whether `user` can be user info: it holds nothing that ends an authority or makes it
/// unreadable.
pub open spec fn is_user_info(user: Seq<char>) -> bool {
    &&& is_readable(user)
    &&& forall|i: int| 0 <= i < user.len() ==> !ends_authority(#[trigger] user[i])
}

/// A scheme in front of a URL is read as one.
proof fn lemma_scheme_read(scheme: Seq<char>, rest: Seq<char>)
    requires
        is_scheme(scheme),
    ensures
        ({
            let url = scheme + seq![':', '/', '/'] + rest;
            &&& !has_broken_scheme(url)
            &&& url.skip(authority_start(url)) == rest
        }),
{
    let url = scheme + seq![':', '/', '/'] + rest;
    let at = scheme.len() as int;
    assert forall|j: int| 0 <= j < at implies url[j] != ':' by {
        assert(url[j] == scheme[j]);
        assert(in_scheme(scheme[j]));
    }
    lemma_position_is(url, ':', at);
    assert(url.take(at) =~= scheme);
    assert(url.subrange(at, at + 3) =~= seq![':', '/', '/']);
    assert(url.skip(at + 3) =~= rest);
}

/// The host of an authority that is put together of its parts. `front` is empty, or user info
/// and an at-sign; `port` is empty, or a colon and digits.
proof fn lemma_authority_of_parts(front: Seq<char>, h: Seq<char>, port: Seq<char>)
    requires
        is_user_info(front),
        front.len() > 0 ==> front.last() == '@',
        is_host(h),
        port.len() > 0 ==> port[0] == ':' && all_digits(port.skip(1)),
    ensures
        is_user_info(front + h + port),
        host_text(front + h + port) == h,
{
    let a = front + h + port;
    assert forall|j: int| 0 <= j < a.len() implies !ends_authority(#[trigger] a[j]) && a[j]
        != '\\' && !is_space(a[j]) && (j >= front.len() ==> a[j] != '@') by {
        if j < front.len() {
            assert(a[j] == front[j]);
        } else if j < front.len() + h.len() {
            assert(a[j] == h[j - front.len()]);
        } else {
            let k = j - front.len() - h.len();
            assert(a[j] == port[k]);
            if k > 0 {
                assert(is_digit(port.skip(1)[k - 1]));
            }
        }
    }
    lemma_last_position(a, '@');
    assert(last_position(a, '@') == front.len() - 1) by {
        if front.len() > 0 {
            assert(a[front.len() - 1] == front.last());
        }
    }
    let t = after_last(a, '@');
    assert(t =~= h + port);
    assert forall|j: int| 0 <= j < h.len() implies t[j] != ':' by {
        assert(t[j] == h[j]);
    }
    if port.len() > 0 {
        assert(t[h.len() as int] == port[0]);
    }
    lemma_position_is(t, ':', h.len() as int);
    assert(before(t, ':') =~= h);
}

/// The host of a URL that is put together of its parts.
proof fn lemma_host_of_parts(
    scheme: Seq<char>,
    front: Seq<char>,
    h: Seq<char>,
    port: Seq<char>,
    back: Seq<char>,
)
    requires
        is_scheme(scheme),
        is_user_info(front),
        front.len() > 0 ==> front.last() == '@',
        is_host(h),
        port.len() > 0 ==> port[0] == ':' && all_digits(port.skip(1)),
        is_behind_authority(back),
    ensures
        host(scheme + seq![':', '/', '/'] + (front + h + port + back)) == Some(h),
{
    let a = front + h + port;
    let rest = a + back;
    lemma_authority_of_parts(front, h, port);
    lemma_scheme_read(scheme, rest);
    assert forall|j: int| 0 <= j < a.len() implies !ends_authority(#[trigger] rest[j]) by {
        assert(rest[j] == a[j]);
    }
    if back.len() > 0 {
        assert(rest[a.len() as int] == back[0]);
    }
    lemma_authority_end(rest, a.len() as int);
    assert(rest.take(a.len() as int) =~= a);
}

/// The two parts of what follows a host: its port, and what follows the authority.
proof fn lemma_tail_parts(tail: Seq<char>) -> (parts: (Seq<char>, Seq<char>))
    requires
        is_tail(tail),
    ensures
        tail == parts.0 + parts.1,
        parts.0.len() > 0 ==> parts.0[0] == ':' && all_digits(parts.0.skip(1)),
        is_behind_authority(parts.1),
{
    if is_behind_authority(tail) {
        assert(Seq::<char>::empty() + tail =~= tail);
        (Seq::empty(), tail)
    } else {
        let n = choose|n: int| has_port(tail, n);
        let port = tail.take(n + 1);
        assert(port.skip(1) =~= tail.subrange(1, n + 1));
        assert(port + tail.skip(n + 1) =~= tail);
        (port, tail.skip(n + 1))
    }
}

/// Only the host of a URL counts: neither its scheme nor a port, a path, a query or a
/// fragment that follows the host makes a difference.
pub proof fn law_host_only(scheme: Seq<char>, h: Seq<char>, tail: Seq<char>)
    requires
        is_scheme(scheme),
        is_host(h),
        is_tail(tail),
    ensures
        host(scheme + seq![':', '/', '/'] + h + tail) == Some(h),
{
    let (port, back) = lemma_tail_parts(tail);
    let none = Seq::<char>::empty();
    lemma_host_of_parts(scheme, none, h, port, back);
    let mark = seq![':', '/', '/'];
    assert(scheme + mark + (none + h + port + back) =~= scheme + mark + h + tail);
}

/// User info in front of a host is not the host, whatever it looks like.
pub proof fn law_user_info_is_ignored(
    scheme: Seq<char>,
    user: Seq<char>,
    h: Seq<char>,
    tail: Seq<char>,
)
    requires
        is_scheme(scheme),
        is_user_info(user),
        is_host(h),
        is_tail(tail),
    ensures
        host(scheme + seq![':', '/', '/'] + user + seq!['@'] + h + tail) == Some(h),
{
    let (port, back) = lemma_tail_parts(tail);
    let front = user + seq!['@'];
    assert forall|i: int| 0 <= i < front.len() implies !ends_authority(#[trigger] front[i])
        && front[i] != '\\' && !is_space(front[i]) by {
        if i < user.len() {
            assert(front[i] == user[i]);
        }
    }
    lemma_host_of_parts(scheme, front, h, port, back);
    let mark = seq![':', '/', '/'];
    assert(scheme + mark + (front + h + port + back) =~= scheme + mark + user + seq!['@'] + h
        + tail);
}

/// A URL whose scheme is broken, or whose authority holds a backslash or white space, is
/// hostless, so that a list with any host refuses it.
pub proof fn law_unreadable_is_refused(url: Seq<char>, domains: Seq<Seq<char>>)
    requires
        has_broken_scheme(url) || !is_readable(authority(url)),
        domains.len() > 0,
    ensures
        host(url) is None,
        !allowed(domains, Some(url)),
{
}

/// With an empty list every URL is allowed; with any list a missing URL is.
pub proof fn law_whitelist_is_opt_in(url: Option<Seq<char>>, domains: Seq<Seq<char>>)
    ensures
        allowed(seq![], url),
        allowed(domains, None),
{
}

/// With any list, a URL is allowed exactly if its host is one of those listed.
pub proof fn law_listed_hosts_pass(domains: Seq<Seq<char>>, url: Option<Seq<char>>)
    requires
        domains.len() > 0,
    ensures
        allowed(domains, url) <==> match url {
            None => true,
            Some(u) => exists|i: int| 0 <= i < domains.len() && host(u) == Some(#[trigger] domains[i]),
        },
{
    if url is Some && allowed(domains, url) {
        let h = host(url.unwrap()).unwrap();
        let i = choose|i: int| 0 <= i < domains.len() && domains[i] == h;
        assert(host(url.unwrap()) == Some(domains[i]));
    }
}

/// A URL without a scheme begins with its host.
pub proof fn law_host_without_a_scheme(h: Seq<char>, back: Seq<char>)
    requires
        is_host(h),
        is_behind_authority(back),
    ensures
        host(h + back) == Some(h),
{
    let url = h + back;
    let p = position(url, ':');
    lemma_position(url, ':');
    assert(p >= h.len()) by {
        if p < h.len() {
            assert(url[p] == h[p]);
        }
    }
    if p < url.len() {
        assert(url[h.len() as int] == back[0]);
        assert(p > h.len());
        assert(url.take(p)[h.len() as int] == back[0]);
        assert(!in_scheme(back[0]));
        assert(ends_authority(url.take(p)[h.len() as int]));
    }
    assert(url.skip(0) =~= url);
    assert forall|j: int| 0 <= j < h.len() implies !ends_authority(#[trigger] url[j]) by {
        assert(url[j] == h[j]);
    }
    if back.len() > 0 {
        assert(url[h.len() as int] == back[0]);
    }
    lemma_authority_end(url, h.len() as int);
    assert(url.take(h.len() as int) =~= h);
    let none = Seq::<char>::empty();
    assert(none + h + none =~= h);
    lemma_authority_of_parts(none, h, none);
}

/// A host is a part of the URL that names it: none is ever made up, and it holds nothing that
/// ends a host.
pub proof fn law_host_stands_in_its_url(url: Seq<char>)
    ensures
        host(url) matches Some(h) ==> {
            &&& h.len() > 0
            &&& exists|i: int| #[trigger] occurs_at(url, h, i)
            &&& !h.contains(':') && !h.contains('@') && !h.contains('/') && !h.contains('?')
                && !h.contains('#')
        },
{
    if host(url) is Some {
        let start = authority_start(url);
        let rest = url.skip(start);
        let r1 = before(rest, '/');
        let r2 = before(r1, '?');
        let a = before(r2, '#');
        let t = after_last(a, '@');
        let h = before(t, ':');
        lemma_position(url, ':');
        lemma_position(rest, '/');
        lemma_position(r1, '?');
        lemma_position(r2, '#');
        lemma_last_position(a, '@');
        lemma_position(t, ':');
        let i = start + last_position(a, '@') + 1;
        assert(url.subrange(i, i + h.len()) =~= h);
        assert(occurs_at(url, h, i));
        let q = last_position(a, '@') + 1;
        assert forall|j: int| 0 <= j < h.len() implies h[j] != ':' && #[trigger] h[j] != '@' && h[j]
            != '/' && h[j] != '?' && h[j] != '#' by {
            assert(h[j] == t[j]);
            assert(h[j] == a[q + j]);
            assert(h[j] == r2[q + j]);
            assert(h[j] == r1[q + j]);
            assert(h[j] == rest[q + j]);
        }
    }
}

/// What stands before "://" is a scheme exactly if it begins with a letter and holds nothing but
/// letters, digits, plus, minus and point. With a scheme the host is read; with anything else in
/// its place, short of a path, a query or a fragment, there is no host.
pub proof fn law_what_a_scheme_is(front: Seq<char>, h: Seq<char>, tail: Seq<char>)
    requires
        is_host(h),
        is_tail(tail),
        forall|i: int|
            0 <= i < front.len() ==> #[trigger] front[i] != ':' && front[i] != '/' && front[i] != '?'
                && front[i] != '#',
    ensures
        ({
            let url = front + seq![':', '/', '/'] + h + tail;
            let good = front.len() > 0 && (('a' <= front[0] && front[0] <= 'z') || ('A' <= front[0]
                && front[0] <= 'Z')) && forall|i: int|
                0 <= i < front.len() ==> ('a' <= #[trigger] front[i] && front[i] <= 'z') || ('A'
                    <= front[i] && front[i] <= 'Z') || ('0' <= front[i] && front[i] <= '9')
                    || front[i] == '+' || front[i] == '-' || front[i] == '.';
            &&& good ==> host(url) == Some(h)
            &&& !good ==> host(url) is None
        }),
{
    let mark = seq![':', '/', '/'];
    let url = front + mark + h + tail;
    if is_scheme(front) {
        law_host_only(front, h, tail);
    } else {
        let at = front.len() as int;
        assert forall|j: int| 0 <= j < at implies url[j] != ':' by {
            assert(url[j] == front[j]);
        }
        assert(url[at] == ':');
        lemma_position_is(url, ':', at);
        assert(url.take(at) =~= front);
        assert(url.subrange(at, at + 3) =~= mark);
    }
}

} // verus!
