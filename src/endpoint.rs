use vstd::prelude::*;

verus! {

/// The Archipelago server's default port.
pub const DEFAULT_PORT: u16 = 38281;

/// The WebSocket scheme of a server address.
#[derive(Debug, Clone, Copy, PartialEq, Eq, Structural)]
pub enum Scheme {
    /// Plain WebSocket, `ws://`.
    Ws,
    /// WebSocket over TLS, `wss://`.
    Wss,
}

/// A server address, `[ws://|wss://]host[:port][/path]`, taken apart.
#[derive(Debug)]
pub struct Endpoint {
    pub scheme: Option<Scheme>,
    pub host: String,
    pub port: Option<u16>,
    /// The path with its leading `/`, or empty.
    pub path: String,
}

/// The position of the first `c` in `s`, or the length of `s`.
pub open spec fn index_of(s: Seq<char>, c: char) -> int
    decreases s.len(),
{
    if s.len() == 0 {
        0
    } else if s[0] == c {
        0
    } else {
        1 + index_of(s.drop_first(), c)
    }
}

/// Whether every character of `s` is a decimal digit.
pub open spec fn all_digits(s: Seq<char>) -> bool {
    forall|i: int| 0 <= i < s.len() ==> '0' <= #[trigger] s[i] <= '9'
}

/// The number that the decimal digits `s` spell.
pub open spec fn digits_value(s: Seq<char>) -> int
    decreases s.len(),
{
    if s.len() == 0 {
        0
    } else {
        digits_value(s.drop_last()) * 10 + (s.last() as int - '0' as int)
    }
}

/// The scheme that `url` starts with, if any.
pub open spec fn scheme_of(url: Seq<char>) -> Option<Scheme> {
    if url.len() >= 6 && url.subrange(0, 6) == "wss://"@ {
        Some(Scheme::Wss)
    } else if url.len() >= 5 && url.subrange(0, 5) == "ws://"@ {
        Some(Scheme::Ws)
    } else {
        None
    }
}

/// What follows the scheme of `url`.
pub open spec fn after_scheme(url: Seq<char>) -> Seq<char> {
    match scheme_of(url) {
        Some(Scheme::Wss) => url.skip(6),
        Some(Scheme::Ws) => url.skip(5),
        None => url,
    }
}

/// The host and port part of `url`: up to the first `/` after the scheme.
pub open spec fn authority(url: Seq<char>) -> Seq<char> {
    after_scheme(url).take(index_of(after_scheme(url), '/'))
}

/// The path of `url`: from the first `/` after the scheme.
pub open spec fn path_of(url: Seq<char>) -> Seq<char> {
    after_scheme(url).skip(index_of(after_scheme(url), '/'))
}

/// The host of `url`: the authority up to its first `:`.
pub open spec fn host_of(url: Seq<char>) -> Seq<char> {
    authority(url).take(index_of(authority(url), ':'))
}

/// The text after the first `:` of the authority, if there is a `:`.
pub open spec fn port_text(url: Seq<char>) -> Option<Seq<char>> {
    if index_of(authority(url), ':') < authority(url).len() {
        Some(authority(url).skip(index_of(authority(url), ':') + 1))
    } else {
        None
    }
}

/// Whether `url` is a valid server address: a host that is not empty, and a
/// port, where one is given, of one to five digits no larger than 65535.
pub open spec fn valid_url(url: Seq<char>) -> bool {
    &&& host_of(url).len() > 0
    &&& match port_text(url) {
        Some(t) => 0 < t.len() <= 5 && all_digits(t) && digits_value(t) <= u16::MAX,
        None => true,
    }
}

proof fn lemma_index_of(s: Seq<char>, c: char, i: int)
    requires
        0 <= i <= s.len(),
        forall|k: int| 0 <= k < i ==> s[k] != c,
        i == s.len() || s[i] == c,
    ensures
        index_of(s, c) == i,
    decreases i,
{
    if i > 0 {
        lemma_index_of(s.drop_first(), c, i - 1);
    }
}

proof fn lemma_index_of_bounds(s: Seq<char>, c: char)
    ensures
        0 <= index_of(s, c) <= s.len(),
        index_of(s, c) < s.len() ==> s[index_of(s, c)] == c,
        forall|k: int| 0 <= k < index_of(s, c) ==> s[k] != c,
    decreases s.len(),
{
    if s.len() > 0 && s[0] != c {
        lemma_index_of_bounds(s.drop_first(), c);
        assert forall|k: int| 0 <= k < index_of(s, c) implies s[k] != c by {
            if k > 0 {
                assert(s.drop_first()[k - 1] == s[k]);
            }
        }
    }
}

/// The position of the first `c` in `s` at or after `from`, or `to`.
fn find_char(s: &str, c: char, from: usize, to: usize) -> (r: usize)
    requires
        from <= to <= s@.len(),
    ensures
        from <= r <= to,
        forall|k: int| from <= k < r ==> s@[k] != c,
        r < to ==> s@[r as int] == c,
{
    let mut i = from;
    while i < to
        invariant
            from <= i <= to,
            to <= s@.len(),
            forall|k: int| from <= k < i ==> s@[k] != c,
        decreases to - i,
    {
        if s.get_char(i) == c {
            return i;
        }
        i = i + 1;
    }
    to
}

/// Whether `s` starts with the characters of `prefix`.
fn starts_with(s: &str, prefix: &str) -> (r: bool)
    ensures
        r == (prefix@.len() <= s@.len() && s@.subrange(0, prefix@.len() as int) == prefix@),
{
    let n = prefix.unicode_len();
    if n > s.unicode_len() {
        return false;
    }
    let mut i: usize = 0;
    while i < n
        invariant
            i <= n,
            n == prefix@.len(),
            n <= s@.len(),
            forall|k: int| 0 <= k < i ==> s@[k] == prefix@[k],
        decreases n - i,
    {
        if s.get_char(i) != prefix.get_char(i) {
            assert(s@.subrange(0, n as int)[i as int] != prefix@[i as int]);
            return false;
        }
        i = i + 1;
    }
    assert(s@.subrange(0, n as int) =~= prefix@);
    true
}

/// Reads one to five decimal digits as a port number.
fn parse_port(t: &str) -> (r: Option<u16>)
    ensures
        r is Some <==> (0 < t@.len() <= 5 && all_digits(t@) && digits_value(t@) <= u16::MAX),
        r matches Some(p) ==> p as int == digits_value(t@),
{
    let n = t.unicode_len();
    if n == 0 || n > 5 {
        return None;
    }
    let mut value: u32 = 0;
    let mut i: usize = 0;
    while i < n
        invariant
            i <= n <= 5,
            n == t@.len(),
            all_digits(t@.take(i as int)),
            value as int == digits_value(t@.take(i as int)),
            value < 100000,
        decreases n - i,
    {
        let c = t.get_char(i);
        if c < '0' || c > '9' {
            assert(!all_digits(t@));
            return None;
        }
        proof {
            assert(t@.take(i + 1).drop_last() =~= t@.take(i as int));
            assert(t@.take(i + 1).last() == c);
        }
        let d = (c as u32) - ('0' as u32);
        assert(value * 10 + d < 1000000) by (nonlinear_arith)
            requires
                value < 100000,
                d <= 9,
        ;
        value = value * 10 + d;
        i = i + 1;
        assert(value < 100000) by {
            assert(digits_value(t@.take(i as int)) < 100000) by {
                lemma_digits_bound(t@.take(i as int));
            }
        }
    }
    assert(t@.take(n as int) =~= t@);
    if value > 65535 {
        None
    } else {
        Some(value as u16)
    }
}

proof fn lemma_digits_bound(s: Seq<char>)
    requires
        all_digits(s),
        s.len() <= 5,
    ensures
        0 <= digits_value(s) < 100000,
        s.len() <= 4 ==> digits_value(s) < 10000,
        s.len() <= 3 ==> digits_value(s) < 1000,
        s.len() <= 2 ==> digits_value(s) < 100,
        s.len() <= 1 ==> digits_value(s) < 10,
    decreases s.len(),
{
    if s.len() > 0 {
        assert(all_digits(s.drop_last())) by {
            assert forall|i: int| 0 <= i < s.drop_last().len() implies '0' <= #[trigger] s.drop_last()[i] <= '9' by {
                assert(s.drop_last()[i] == s[i]);
            }
        }
        lemma_digits_bound(s.drop_last());
        assert('0' <= s[s.len() - 1] <= '9');
    }
}

impl Endpoint {
    /// Takes a server address apart. Fails when the host is empty or the
    /// port is not a number from 0 to 65535.
    pub fn parse(url: &str) -> (r: Option<Endpoint>)
        ensures
            r is Some <==> valid_url(url@),
            r matches Some(e) ==> {
                &&& e.scheme == scheme_of(url@)
                &&& e.host@ == host_of(url@)
                &&& e.path@ == path_of(url@)
                &&& match port_text(url@) {
                    Some(t) => e.port matches Some(p) && p as int == digits_value(t),
                    None => e.port is None,
                }
            },
    {
        let len = url.unicode_len();
        let (scheme, start): (Option<Scheme>, usize) = if starts_with(url, "wss://") {
            proof {
                reveal_strlit("wss://");
            }
            (Some(Scheme::Wss), 6)
        } else if starts_with(url, "ws://") {
            proof {
                reveal_strlit("ws://");
                reveal_strlit("wss://");
            }
            (Some(Scheme::Ws), 5)
        } else {
            proof {
                reveal_strlit("ws://");
                reveal_strlit("wss://");
            }
            (None, 0)
        };
        let ghost rest = after_scheme(url@);
        assert(rest =~= url@.skip(start as int));
        let slash = find_char(url, '/', start, len);
        proof {
            lemma_index_of(rest, '/', slash - start);
        }
        let ghost auth = authority(url@);
        assert(auth =~= url@.subrange(start as int, slash as int));
        let colon = find_char(url, ':', start, slash);
        proof {
            assert forall|k: int| 0 <= k < colon - start implies auth[k] != ':' by {
                assert(auth[k] == url@[start + k]);
            }
            if colon < slash {
                assert(auth[colon - start] == ':');
            }
            lemma_index_of(auth, ':', colon - start);
        }
        let host = url.substring_char(start, colon);
        assert(host@ =~= host_of(url@));
        let path = url.substring_char(slash, len);
        assert(path@ =~= path_of(url@));
        if colon == start {
            return None;
        }
        let port = if colon < slash {
            let text = url.substring_char(colon + 1, slash);
            assert(text@ =~= auth.skip(colon - start + 1));
            match parse_port(text) {
                Some(p) => Some(p),
                None => return None,
            }
        } else {
            None
        };
        Some(Endpoint { scheme, host: String::from_str(host), port, path: String::from_str(path) })
    }

    /// The schemes and port to try, in order: plain WebSocket alone when the
    /// address asks for it, otherwise TLS first and then plain WebSocket, to
    /// which a failed TLS connection falls back; the given port, or the
    /// default port.
    pub fn attempts(&self) -> (r: Vec<(Scheme, u16)>)
        ensures
            match self.scheme {
                Some(Scheme::Ws) => r@.len() == 1 && r@[0].0 == Scheme::Ws,
                _ => r@.len() == 2 && r@[0].0 == Scheme::Wss && r@[1].0 == Scheme::Ws,
            },
            forall|i: int| 0 <= i < r@.len() ==> (#[trigger] r@[i]).1 == match self.port {
                Some(p) => p,
                None => DEFAULT_PORT,
            },
    {
        let port = match self.port {
            Some(p) => p,
            None => DEFAULT_PORT,
        };
        let mut r: Vec<(Scheme, u16)> = Vec::new();
        match self.scheme {
            Some(Scheme::Ws) => r.push((Scheme::Ws, port)),
            _ => {
                r.push((Scheme::Wss, port));
                r.push((Scheme::Ws, port));
            },
        }
        r
    }
}

} // verus!
