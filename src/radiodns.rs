//! DNS record lines for RadioDNS: the host of a web base URL, the CNAME line that points an
//! FM service name at the broadcaster, and the SRV line of the broadcaster's programme
//! information service.
use vstd::prelude::*;
use vstd::string::{StrSliceExecFns, StringExecFns};
use crate::config::{trim, trimmed};

verus! {

/// The placeholder for a record that cannot be written yet.
pub open spec fn no_record() -> Seq<char> {
    "—"@
}

/// Whether `s` begins with `p`.
pub open spec fn starts_with(s: Seq<char>, p: Seq<char>) -> bool {
    s.len() >= p.len() && s.subrange(0, p.len() as int) == p
}

/// `s` without a leading "https://" or, failing that, "http://".
pub open spec fn strip_scheme(s: Seq<char>) -> Seq<char> {
    if starts_with(s, "https://"@) {
        s.subrange(8, s.len() as int)
    } else if starts_with(s, "http://"@) {
        s.subrange(7, s.len() as int)
    } else {
        s
    }
}

/// The part of `s` before its first '/'.
pub open spec fn before_slash(s: Seq<char>) -> Seq<char>
    decreases s.len(),
{
    if s.len() == 0 {
        s
    } else if s[0] == '/' {
        Seq::empty()
    } else {
        seq![s[0]] + before_slash(s.drop_first())
    }
}

/// The host of a base URL: the trimmed text without its scheme, up to the first '/',
/// trimmed again.
pub open spec fn host_of(url: Seq<char>) -> Seq<char> {
    trimmed(before_slash(strip_scheme(trimmed(url))))
}

/// Whether `s` begins with `p`, char by char.
fn has_prefix(s: &str, p: &str) -> (r: bool)
    ensures
        r == starts_with(s@, p@),
{
    let n = s.unicode_len();
    let m = p.unicode_len();
    if n < m {
        return false;
    }
    let mut i: usize = 0;
    while i < m
        invariant
            i <= m <= n,
            n == s@.len(),
            m == p@.len(),
            forall|k: int| 0 <= k < i ==> s@[k] == p@[k],
        decreases m - i,
    {
        if s.get_char(i) != p.get_char(i) {
            assert(s@.subrange(0, m as int)[i as int] != p@[i as int]);
            return false;
        }
        i += 1;
    }
    assert(s@.subrange(0, m as int) =~= p@);
    true
}

/// The index of the first '/' of `s`, or its length.
fn slash_index(s: &str) -> (r: usize)
    ensures
        r <= s@.len(),
        s@.subrange(0, r as int) == before_slash(s@),
{
    let n = s.unicode_len();
    let mut i: usize = 0;
    while i < n && s.get_char(i) != '/'
        invariant
            i <= n,
            n == s@.len(),
            forall|k: int| 0 <= k < i ==> s@[k] != '/',
        decreases n - i,
    {
        i += 1;
    }
    proof {
        lemma_before_slash(s@, i as int);
    }
    i
}

/// `before_slash` is the prefix up to the first '/'.
proof fn lemma_before_slash(s: Seq<char>, i: int)
    requires
        0 <= i <= s.len(),
        forall|k: int| 0 <= k < i ==> s[k] != '/',
        i == s.len() || s[i] == '/',
    ensures
        s.subrange(0, i) == before_slash(s),
    decreases s.len(),
{
    if s.len() > 0 && s[0] != '/' {
        lemma_before_slash(s.drop_first(), i - 1);
        assert(s.subrange(0, i) =~= seq![s[0]] + s.drop_first().subrange(0, i - 1));
    } else {
        assert(s.subrange(0, i) =~= Seq::<char>::empty());
    }
}

/// The host of a web base URL ("https://radio.example/path" gives "radio.example"), or
/// `None` where the URL or its host is empty.
pub fn derive_host_from_base_url(base_url: &str) -> (r: Option<String>)
    ensures
        trimmed(base_url@).len() == 0 ==> r is None,
        trimmed(base_url@).len() > 0 ==> (r is None <==> host_of(base_url@).len() == 0),
        r matches Some(h) ==> h@ == host_of(base_url@),
{
    let t = trim(base_url);
    let n = t.unicode_len();
    if n == 0 {
        return None;
    }
    let start: usize = if has_prefix(t, "https://") {
        8
    } else if has_prefix(t, "http://") {
        7
    } else {
        0
    };
    proof {
        reveal_strlit("https://");
        reveal_strlit("http://");
    }
    let rest = t.substring_char(start, n);
    assert(rest@ == strip_scheme(t@));
    let end = slash_index(rest);
    let head = rest.substring_char(0, end);
    let host = trim(head);
    if host.unicode_len() == 0 {
        None
    } else {
        Some(host.to_owned())
    }
}

/// The SRV line of a broadcaster's programme information service.
pub open spec fn srv_line(broadcaster: Seq<char>, host: Seq<char>, port: Seq<char>) -> Seq<char> {
    let p = if trimmed(port).len() == 0 { "80"@ } else { trimmed(port) };
    "_radioepg._tcp."@ + trimmed(broadcaster) + " 86400 IN SRV 0 0 "@ + p + " "@ + trimmed(host)
        + "."@
}

/// The CNAME line that points an FM service name at the broadcaster.
pub open spec fn cname_line(fm_fqdn: Seq<char>, broadcaster: Seq<char>) -> Seq<char> {
    trimmed(fm_fqdn) + " 86400 IN CNAME "@ + trimmed(broadcaster) + "."@
}

/// The SRV record line for the broadcaster's domain, the port defaulting to 80; a dash
/// where no broadcaster domain is given.
pub fn build_srv_record_line(broadcaster_fqdn: &str, srv_host: &str, srv_port: &str) -> (r: String)
    ensures
        trimmed(broadcaster_fqdn@).len() == 0 ==> r@ == no_record(),
        trimmed(broadcaster_fqdn@).len() > 0 ==> r@ == srv_line(
            broadcaster_fqdn@,
            srv_host@,
            srv_port@,
        ),
{
    let b = trim(broadcaster_fqdn);
    if b.unicode_len() == 0 {
        return "—".to_owned();
    }
    let port = trim(srv_port);
    let port = if port.unicode_len() == 0 { "80" } else { port };
    let host = trim(srv_host);
    let mut line = "_radioepg._tcp.".to_owned();
    line.append(b);
    line.append(" 86400 IN SRV 0 0 ");
    line.append(port);
    line.append(" ");
    line.append(host);
    line.append(".");
    line
}

/// The CNAME record line from the FM service name to the broadcaster's domain; a dash where
/// either is missing or blank.
pub fn build_cname_line(fm_fqdn: Option<&str>, broadcaster_fqdn: &str) -> (r: String)
    ensures
        match fm_fqdn {
            Some(f) => if trimmed(f@).len() > 0 && trimmed(broadcaster_fqdn@).len() > 0 {
                r@ == cname_line(f@, broadcaster_fqdn@)
            } else {
                r@ == no_record()
            },
            None => r@ == no_record(),
        },
{
    let fm = match fm_fqdn {
        Some(v) => {
            let t = trim(v);
            if t.unicode_len() == 0 {
                return "—".to_owned();
            }
            t
        },
        None => return "—".to_owned(),
    };
    let b = trim(broadcaster_fqdn);
    if b.unicode_len() == 0 {
        return "—".to_owned();
    }
    let mut line = fm.to_owned();
    line.append(" 86400 IN CNAME ");
    line.append(b);
    line.append(".");
    line
}

/// The CNAME line and the SRV line, one per line.
pub fn build_dns_bundle(fm_fqdn: Option<&str>, broadcaster_fqdn: &str, srv_host: &str, srv_port: &str) -> (r:
    String)
    ensures
        exists|c: Seq<char>, s: Seq<char>|
            r@ == c + "\n"@ + s && (match fm_fqdn {
                Some(f) => if trimmed(f@).len() > 0 && trimmed(broadcaster_fqdn@).len() > 0 {
                    c == cname_line(f@, broadcaster_fqdn@)
                } else {
                    c == no_record()
                },
                None => c == no_record(),
            }) && (if trimmed(broadcaster_fqdn@).len() == 0 {
                s == no_record()
            } else {
                s == srv_line(broadcaster_fqdn@, srv_host@, srv_port@)
            }),
{
    let cname = build_cname_line(fm_fqdn, broadcaster_fqdn);
    let srv = build_srv_record_line(broadcaster_fqdn, srv_host, srv_port);
    let mut out = cname;
    let ghost c = out@;
    out.append("\n");
    out.append(srv.as_str());
    assert(out@ == c + "\n"@ + srv@);
    out
}

} // verus!
