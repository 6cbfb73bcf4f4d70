//! The `nats://host:port` connection URL: how it is built, announced on
//! stdout, written to the URL file, and split back into host and port.

use crate::text::{
    chars_of, copy_str, decimal, digits_value, is_digit, lemma_decimal_reads_back, parse_unsigned,
    parse_unsigned_chars, push_char, push_decimal, push_str, string_of, trim, trim_end, trim_start,
    unsigned_digits,
};
use crate::{READY_SENTINEL, URL_BANNER_PREFIX};
use vstd::prelude::*;

verus! {

/// The characters of `nats://`.
pub open spec fn nats_scheme() -> Seq<char> {
    seq!['n', 'a', 't', 's', ':', '/', '/']
}

/// The index of the last occurrence of `c` in `s`, if any.
pub open spec fn last_index_of(s: Seq<char>, c: char) -> Option<int>
    decreases s.len(),
{
    if s.len() == 0 {
        None
    } else if s.last() == c {
        Some(s.len() - 1)
    } else {
        last_index_of(s.drop_last(), c)
    }
}

/// What `split_host_port` reads from a URL: after a `nats://` prefix, the
/// text up to the last `:` is the host and the rest must parse as a `u16`.
pub open spec fn host_port_of(url: Seq<char>) -> Option<(Seq<char>, int)> {
    if url.len() >= 7 && url.take(7) == nats_scheme() {
        let bare = url.skip(7);
        match last_index_of(bare, ':') {
            Some(i) => match parse_unsigned(bare.skip(i + 1), 0xffff) {
                Some(p) => Some((bare.take(i), p)),
                None => None,
            },
            None => None,
        }
    } else {
        None
    }
}

/// The URL of a server listening on `host` and `port`.
pub open spec fn url_text(host: Seq<char>, port: u16) -> Seq<char> {
    nats_scheme() + host + seq![':'] + decimal(port as nat)
}

/// The stdout banner: the URL line, then the ready sentinel line.
pub open spec fn banner(url: Seq<char>) -> Seq<char> {
    URL_BANNER_PREFIX@ + url + seq!['\n'] + READY_SENTINEL@ + seq!['\n']
}

/// Splits `nats://host:port` into its host and port.
pub fn split_host_port(url: &str) -> (r: Option<(String, u16)>)
    ensures
        match host_port_of(url@) {
            Some((h, p)) => r matches Some((rh, rp)) && rh@ == h && rp == p,
            None => r is None,
        },
{
    let v = chars_of(url);
    let n = v.len();
    if n < 7 {
        return None;
    }
    let ghost s = v@;
    assert(s.take(7) == nats_scheme() <==> (s[0] == 'n' && s[1] == 'a' && s[2] == 't' && s[3]
        == 's' && s[4] == ':' && s[5] == '/' && s[6] == '/')) by {
        if s[0] == 'n' && s[1] == 'a' && s[2] == 't' && s[3] == 's' && s[4] == ':' && s[5] == '/'
            && s[6] == '/' {
            assert(s.take(7) =~= nats_scheme());
        }
        if s.take(7) == nats_scheme() {
            assert(s.take(7)[0] == s[0]);
            assert(s.take(7)[1] == s[1]);
            assert(s.take(7)[2] == s[2]);
            assert(s.take(7)[3] == s[3]);
            assert(s.take(7)[4] == s[4]);
            assert(s.take(7)[5] == s[5]);
            assert(s.take(7)[6] == s[6]);
        }
    }
    if !(v[0] == 'n' && v[1] == 'a' && v[2] == 't' && v[3] == 's' && v[4] == ':' && v[5] == '/'
        && v[6] == '/') {
        return None;
    }
    let ghost bare = s.skip(7);
    let mut i = n;
    assert(bare.take(n - 7) =~= bare);
    while i > 7 && v[i - 1] != ':'
        invariant
            v@ == s,
            n == s.len(),
            7 <= i <= n,
            bare == s.skip(7),
            last_index_of(bare, ':') == last_index_of(bare.take(i - 7), ':'),
        decreases i,
    {
        let ghost t = bare.take(i - 7);
        assert(t.last() == v@[i - 1]);
        assert(t.drop_last() =~= bare.take(i - 8));
        i = i - 1;
    }
    if i == 7 {
        assert(bare.take(0) =~= Seq::<char>::empty());
        return None;
    }
    let ghost t = bare.take(i - 7);
    assert(t.last() == ':');
    assert(last_index_of(bare, ':') == Some(i - 8));
    assert(bare.skip(i - 7) =~= v@.subrange(i as int, n as int));
    assert(bare.take(i - 8) =~= v@.subrange(7, i - 1));
    match parse_unsigned_chars(&v, i, n, 0xffff) {
        Some(p) => {
            let host = string_of(&v, 7, i - 1);
            Some((host, p as u16))
        },
        None => None,
    }
}

/// The `nats://host:port` URL of a server.
pub fn server_url(host: &str, port: u16) -> (r: String)
    ensures
        r@ == url_text(host@, port),
{
    let mut s = String::new();
    push_str(&mut s, "nats://");
    proof {
        reveal_strlit("nats://");
    }
    push_str(&mut s, host);
    push_char(&mut s, ':');
    push_decimal(&mut s, port as u64);
    assert(s@ =~= url_text(host@, port));
    s
}

/// The text written to stdout once the fixture is ready: the URL banner line
/// and the ready sentinel line.
pub fn banner_text(url: &str) -> (r: String)
    ensures
        r@ == banner(url@),
{
    let mut s = String::new();
    push_str(&mut s, URL_BANNER_PREFIX);
    push_str(&mut s, url);
    push_char(&mut s, '\n');
    push_str(&mut s, READY_SENTINEL);
    push_char(&mut s, '\n');
    assert(s@ =~= banner(url@));
    s
}

/// The contents of the `--url-file`: the URL and a newline.
pub fn url_file_contents(url: &str) -> (r: String)
    ensures
        r@ == url@ + seq!['\n'],
{
    let mut s = copy_str(url);
    push_char(&mut s, '\n');
    s
}

/// The last `c` of `a + [c] + b` is the one after `a` when `b` holds no `c`.
proof fn lemma_last_index_after_prefix(a: Seq<char>, c: char, b: Seq<char>)
    requires
        forall|k: int| 0 <= k < b.len() ==> b[k] != c,
    ensures
        last_index_of(a + seq![c] + b, c) == Some(a.len() as int),
    decreases b.len(),
{
    let s = a + seq![c] + b;
    if b.len() > 0 {
        assert(s.last() == b.last());
        assert(s.drop_last() =~= a + seq![c] + b.drop_last());
        lemma_last_index_after_prefix(a, c, b.drop_last());
    }
}

/// A server URL splits back into the host and port it was built from, for
/// every host text (a `:` in the host stays in the host, since the split is at
/// the last `:`) and every port.
pub proof fn lemma_server_url_splits_back(host: Seq<char>, port: u16)
    ensures
        host_port_of(url_text(host, port)) == Some((host, port as int)),
{
    let d = decimal(port as nat);
    lemma_decimal_reads_back(port as nat);
    let url = url_text(host, port);
    assert(url.take(7) =~= nats_scheme());
    let bare = url.skip(7);
    assert(bare =~= host + seq![':'] + d);
    assert forall|k: int| 0 <= k < d.len() implies d[k] != ':' by {
        assert(is_digit(d[k]));
    }
    lemma_last_index_after_prefix(host, ':', d);
    assert(bare.skip(host.len() + 1 as int) =~= d);
    assert(bare.take(host.len() as int) =~= host);
    assert(is_digit(d[0]));
    assert(unsigned_digits(d) == d);
}

/// The URL file of a server, read back without surrounding whitespace, is the
/// server's URL, for every host and port.
pub proof fn lemma_url_file_trims_to_url(host: Seq<char>, port: u16)
    ensures
        trim(url_text(host, port) + seq!['\n']) == url_text(host, port),
{
    let u = url_text(host, port);
    let d = decimal(port as nat);
    lemma_decimal_reads_back(port as nat);
    let t = u + seq!['\n'];
    assert(t[0] == 'n');
    assert(trim_start(t) == t);
    assert(t.drop_last() =~= u);
    assert(u.last() == d.last());
    assert(is_digit(d.last()));
    assert(trim_end(u) == u);
    assert(trim_end(t) == trim_end(u));
}

} // verus!
