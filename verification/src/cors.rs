//! Which other sites may request the blog's post pages: the site itself and
//! its subdomains.

use vstd::prelude::*;
use vstd::utf8::encode_utf8;

verus! {

/// The site's domain, as bytes.
pub open spec fn site_domain() -> Seq<u8> {
    encode_utf8("joeloach.co.uk"@)
}

/// `://` starts at `i` in `o`.
pub open spec fn scheme_separator_at(o: Seq<u8>, i: int) -> bool {
    &&& 0 <= i
    &&& i + 3 <= o.len()
    &&& o[i] == ':' as u8
    &&& o[i + 1] == '/' as u8
    &&& o[i + 2] == '/' as u8
}

/// Where the first `://` at or after `i` starts in `o`, if there is one.
pub open spec fn scheme_separator_from(o: Seq<u8>, i: nat) -> Option<nat>
    decreases o.len() - i,
{
    if i + 3 > o.len() {
        None
    } else if scheme_separator_at(o, i as int) {
        Some(i)
    } else {
        scheme_separator_from(o, i + 1)
    }
}

/// Where a host that starts at `i` in `o` ends: at the first `:` (a port
/// follows) or `/` at or after `i`, or at the end of `o`.
pub open spec fn host_end_from(o: Seq<u8>, i: nat) -> nat
    decreases o.len() - i,
{
    if i >= o.len() {
        i
    } else if o[i as int] == ':' as u8 || o[i as int] == '/' as u8 {
        i
    } else {
        host_end_from(o, i + 1)
    }
}

/// The host of an origin `scheme://host[:port]`: what follows the first
/// `://`, up to the next `:` or `/`. An origin without `://` (such as `null`)
/// names no host.
pub open spec fn origin_host(o: Seq<u8>) -> Option<Seq<u8>> {
    match scheme_separator_from(o, 0) {
        Some(i) => Some(o.subrange((i + 3) as int, host_end_from(o, i + 3) as int)),
        None => None,
    }
}

/// A host on the site: the site's domain itself, or a name that ends with
/// `.` and the site's domain (a subdomain).
pub open spec fn host_on_site(host: Seq<u8>) -> bool {
    let d = site_domain();
    ||| host == d
    ||| host.len() > d.len() && host[host.len() - d.len() - 1] == '.' as u8 && host.skip(
        host.len() - d.len(),
    ) == d
}

/// An origin is allowed when it names a host on the site.
pub open spec fn origin_allowed(origin: Seq<u8>) -> bool {
    match origin_host(origin) {
        Some(host) => host_on_site(host),
        None => false,
    }
}

/// Where the first `://` of `o` starts.
fn find_scheme_separator(o: &[u8]) -> (r: Option<usize>)
    ensures
        r matches Some(i) ==> scheme_separator_from(o@, 0) == Some(i as nat) && i + 3 <= o.len(),
        r is None ==> scheme_separator_from(o@, 0) is None,
{
    let mut i: usize = 0;
    while i < o.len() && o.len() - i >= 3
        invariant
            i <= o@.len(),
            o@.len() == o.len(),
            scheme_separator_from(o@, 0) == scheme_separator_from(o@, i as nat),
        decreases o@.len() - i,
    {
        // 58 is `:` and 47 is `/`
        if o[i] == 58u8 && o[i + 1] == 47u8 && o[i + 2] == 47u8 {
            return Some(i);
        }
        i = i + 1;
    }
    None
}

/// Where the host that starts at `start` in `o` ends.
fn find_host_end(o: &[u8], start: usize) -> (r: usize)
    requires
        start <= o@.len(),
    ensures
        r as nat == host_end_from(o@, start as nat),
        start <= r <= o@.len(),
{
    let mut j: usize = start;
    while j < o.len()
        invariant
            start <= j <= o@.len(),
            o@.len() == o.len(),
            host_end_from(o@, start as nat) == host_end_from(o@, j as nat),
        decreases o@.len() - j,
    {
        // 58 is `:` and 47 is `/`
        if o[j] == 58u8 || o[j] == 47u8 {
            return j;
        }
        j = j + 1;
    }
    j
}

/// `o` holds `pat` from `at` on.
fn holds_at(o: &[u8], at: usize, pat: &[u8]) -> (r: bool)
    requires
        at + pat@.len() <= o@.len(),
    ensures
        r == (o@.subrange(at as int, at + pat@.len()) == pat@),
{
    let mut k: usize = 0;
    while k < pat.len()
        invariant
            at + pat@.len() <= o@.len(),
            pat@.len() == pat.len(),
            o@.len() == o.len(),
            0 <= k <= pat@.len(),
            forall|j: int| 0 <= j < k ==> o@[at + j] == pat@[j],
        decreases pat@.len() - k,
    {
        if o[at + k] != pat[k] {
            assert(o@.subrange(at as int, at + pat@.len())[k as int] != pat@[k as int]);
            return false;
        }
        k = k + 1;
    }
    assert(o@.subrange(at as int, at + pat@.len()) =~= pat@);
    true
}

/// Whether a request from `origin` (the bytes of its `Origin` header) may
/// read the post pages: its host is the site's domain or one of its
/// subdomains. Only the host is compared, and only whole labels: testing
/// whether the header's bytes merely end with the domain would also let in
/// other sites such as `https://evil-joeloach.co.uk`.
pub fn is_allowed_origin(origin: &[u8]) -> (r: bool)
    ensures
        r == origin_allowed(origin@),
{
    let domain: &[u8] = "joeloach.co.uk".as_bytes();
    let start = match find_scheme_separator(origin) {
        Some(i) => i + 3,
        None => return false,
    };
    let end = find_host_end(origin, start);
    let ghost host = origin@.subrange(start as int, end as int);
    assert(origin_host(origin@) == Some(host));
    let len = end - start;
    if len == domain.len() {
        let r = holds_at(origin, start, domain);
        proof {
            assert(host =~= origin@.subrange(start as int, start + domain@.len()));
        }
        r
    } else if len > domain.len() {
        // 46 is `.`
        if origin[end - domain.len() - 1] != 46u8 {
            assert(host[host.len() - site_domain().len() - 1] != '.' as u8);
            return false;
        }
        let r = holds_at(origin, end - domain.len(), domain);
        proof {
            assert(host.skip(host.len() - site_domain().len()) =~= origin@.subrange(
                end - domain@.len(),
                end as int,
            ));
        }
        r
    } else {
        false
    }
}

/// No `:` in `s`.
pub open spec fn no_colon(s: Seq<u8>) -> bool {
    forall|i: int| 0 <= i < s.len() ==> s[i] != ':' as u8
}

/// No `:` and no `/` in `s`.
pub open spec fn no_colon_or_slash(s: Seq<u8>) -> bool {
    forall|i: int| 0 <= i < s.len() ==> s[i] != ':' as u8 && s[i] != '/' as u8
}

proof fn lemma_no_separator_before(o: Seq<u8>, i: nat, k: nat)
    requires
        i <= k,
        forall|j: int| i <= j < k ==> !scheme_separator_at(o, j),
        k + 3 <= o.len(),
    ensures
        scheme_separator_from(o, i) == scheme_separator_from(o, k),
    decreases k - i,
{
    if i < k {
        lemma_no_separator_before(o, i + 1, k);
    }
}

proof fn lemma_host_runs_to(o: Seq<u8>, i: nat, k: nat)
    requires
        i <= k <= o.len(),
        forall|j: int| i <= j < k ==> o[j] != ':' as u8 && o[j] != '/' as u8,
    ensures
        host_end_from(o, i) == host_end_from(o, k),
    decreases k - i,
{
    if i < k {
        lemma_host_runs_to(o, i + 1, k);
    }
}

/// An origin written `scheme://host` or `scheme://host:port` is allowed
/// exactly when its host is the site's domain or one of its subdomains:
/// `https://blog.joeloach.co.uk` is allowed, `https://evil-joeloach.co.uk`
/// is not.
pub proof fn lemma_origin_allowed_by_host(scheme: Seq<u8>, host: Seq<u8>, port: Seq<u8>)
    requires
        no_colon(scheme),
        no_colon_or_slash(host),
        port.len() == 0 || port[0] == ':' as u8,
    ensures
        origin_allowed(scheme + seq![':' as u8, '/' as u8, '/' as u8] + host + port)
            == host_on_site(host),
{
    let sep = seq![':' as u8, '/' as u8, '/' as u8];
    let o = scheme + sep + host + port;
    let s = scheme.len();
    assert forall|j: int| 0 <= j < s implies !scheme_separator_at(o, j) by {
        assert(o[j] == scheme[j]);
    }
    assert(scheme_separator_at(o, s as int));
    lemma_no_separator_before(o, 0, s);
    let start = s + 3;
    assert forall|j: int| start <= j < start + host.len() implies o[j] != ':' as u8 && o[j]
        != '/' as u8 by {
        assert(o[j] == host[j - start]);
    }
    lemma_host_runs_to(o, start, start + host.len());
    assert(o.subrange(start as int, (start + host.len()) as int) =~= host);
}

} // verus!
