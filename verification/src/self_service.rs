//! Recognising requests addressed to the proxy's own service, and the server settings.
use vstd::prelude::*;
use crate::text::{
    chars_find_from, index_from, lemma_index_from, push_str, seq_starts_with, str_eq, str_starts_with,
    string_of, string_of_chars, to_chars,
};

verus! {

/// The text up to the first `:` (all of it when there is none).
pub open spec fn before_colon(s: Seq<char>) -> Seq<char> {
    match index_from(s, ":"@, 0) {
        Some(k) => s.take(k),
        None => s,
    }
}

/// A `Host` header as `ip:port`: `localhost` stands for `127.0.0.1`, and the port is the part
/// after the first `:` (up to a second one), 80 when there is no `:`.
pub open spec fn normalized_host(host: Seq<char>) -> Seq<char> {
    let ip = if seq_starts_with(host, "localhost"@) {
        "127.0.0.1"@
    } else {
        before_colon(host)
    };
    let port = match index_from(host, ":"@, 0) {
        Some(k) => before_colon(host.skip(k + 1)),
        None => "80"@,
    };
    ip + ":"@ + port
}

/// One of the addresses is `addr`.
pub open spec fn listens_on(addrs: Seq<String>, addr: Seq<char>) -> bool {
    exists|i: int| 0 <= i < addrs.len() && (#[trigger] addrs[i])@ == addr
}

/// The request is for the proxy's own service: its `Host` header, as `ip:port`, is one of the
/// addresses the proxy listens on.
pub open spec fn addressed_to_self(access_addrs: Option<Seq<String>>, host: Option<Seq<char>>) -> bool {
    match access_addrs {
        Some(addrs) => match host {
            Some(h) => listens_on(addrs, normalized_host(h)),
            None => false,
        },
        None => false,
    }
}

/// The text of `cs` up to its first `:`.
fn chars_before_colon(cs: &Vec<char>) -> (r: String)
    ensures
        r@ == before_colon(cs@),
{
    let colon = to_chars(":");
    match chars_find_from(cs, &colon, 0) {
        Some(k) => {
            proof {
                lemma_index_from(cs@, colon@, 0);
            }
            let r = string_of_chars(cs, 0, k);
            assert(r@ =~= cs@.take(k as int));
            r
        },
        None => string_of_chars(cs, 0, cs.len()),
    }
}

/// A `Host` header as `ip:port`.
pub fn normalize_host(host: &str) -> (r: String)
    ensures
        r@ == normalized_host(host@),
{
    let cs = to_chars(host);
    let n = cs.len();
    let mut out = if str_starts_with(host, "localhost") {
        string_of("127.0.0.1")
    } else {
        chars_before_colon(&cs)
    };
    push_str(&mut out, ":");
    let colon = to_chars(":");
    match chars_find_from(&cs, &colon, 0) {
        Some(k) => {
            proof {
                lemma_index_from(cs@, colon@, 0);
                reveal_strlit(":");
                assert(k + 1 <= cs@.len());
            }
            let tail = string_of_chars(&cs, k + 1, n);
            let tail_chars = to_chars(tail.as_str());
            assert(tail_chars@ =~= cs@.skip(k + 1));
            let port = chars_before_colon(&tail_chars);
            push_str(&mut out, port.as_str());
        },
        None => {
            push_str(&mut out, "80");
        },
    }
    out
}

/// Whether a request is for the proxy's own service, given the addresses the proxy listens
/// on (as `ip:port` text) and the request's `Host` header.
pub fn is_self_service(access_addrs: Option<&Vec<String>>, host: Option<&str>) -> (r: bool)
    ensures
        r == addressed_to_self(
            match access_addrs {
                Some(a) => Some(a@),
                None => None,
            },
            match host {
                Some(h) => Some(h@),
                None => None,
            },
        ),
{
    match (access_addrs, host) {
        (Some(addrs), Some(h)) => {
            let normalized = normalize_host(h);
            let mut i: usize = 0;
            while i < addrs.len()
                invariant
                    access_addrs == Some(addrs),
                    host == Some(h),
                    i <= addrs@.len(),
                    normalized@ == normalized_host(h@),
                    forall|j: int| 0 <= j < i ==> (#[trigger] addrs@[j])@ != normalized_host(h@),
                decreases addrs.len() - i,
            {
                if str_eq(addrs[i].as_str(), normalized.as_str()) {
                    assert(addrs@[i as int]@ == normalized_host(h@));
                    assert(listens_on(addrs@, normalized_host(h@)));
                    return true;
                }
                i = i + 1;
            }
            false
        },
        _ => false,
    }
}

/// Settings of the proxy's own server.
#[derive(Debug, Clone, Copy)]
pub struct ServerConfig {
    pub port: u16,
    pub only_localhost: bool,
}

impl Default for ServerConfig {
    fn default() -> (r: Self)
        ensures
            r.port == 3000,
            !r.only_localhost,
    {
        ServerConfig { port: 3000, only_localhost: false }
    }
}

} // verus!
