//! Endpoints as text, `host:port` or `[ipv6]:port`, and socket addresses.
use crate::text::{chars_of, decimal_digits, lemma_decimal_digits_value};
use vstd::prelude::*;

verus! {

/// A resolved address: the bits of an IP address and a port.
#[derive(Clone, Copy, Debug, PartialEq, Eq, Structural)]
pub enum SocketAddr {
    V4 { ipv4: u32, port: u16 },
    V6 { ipv6: u128, port: u16, flowinfo: u32, scope_id: u32 },
}

/// The index of the first `c` in `s`, or the length of `s` if there is none.
pub open spec fn first_index(s: Seq<char>, c: char) -> int
    decreases s.len(),
{
    if s.len() == 0 || s[0] == c {
        0
    } else {
        1 + first_index(s.drop_first(), c)
    }
}

/// The index of the last `c` in `s`, or -1 if there is none.
pub open spec fn last_index(s: Seq<char>, c: char) -> int
    decreases s.len(),
{
    if s.len() == 0 || s.last() == c {
        s.len() - 1
    } else {
        last_index(s.drop_last(), c)
    }
}

/// Whether the host of `addr` stands in square brackets.
pub open spec fn bracketed_host(addr: Seq<char>) -> bool {
    addr.len() > 0 && addr[0] == '['
}

/// The host in `addr`: what stands in square brackets, or else before the last colon.
/// Or why there is none.
pub open spec fn host_of(addr: Seq<char>) -> Result<Seq<char>, Seq<char>> {
    if bracketed_host(addr) {
        let close = first_index(addr, ']');
        if close < addr.len() {
            Ok(addr.subrange(1, close))
        } else {
            Err("unterminated IPv6 literal in "@ + addr)
        }
    } else {
        let colon = last_index(addr, ':');
        if colon >= 0 {
            Ok(addr.subrange(0, colon))
        } else {
            Err("missing port in "@ + addr)
        }
    }
}

/// The text of the port in `addr`: what stands behind the colon that follows the host.
pub open spec fn port_text_of(addr: Seq<char>) -> Option<Seq<char>> {
    if bracketed_host(addr) {
        let colon = first_index(addr, ']') + 1;
        if colon < addr.len() && addr[colon] == ':' {
            Some(addr.skip(colon + 1))
        } else {
            None
        }
    } else {
        Some(addr.skip(last_index(addr, ':') + 1))
    }
}

/// Whether `s` is made of decimal digits alone.
pub open spec fn all_digits(s: Seq<char>) -> bool {
    forall|i: int| 0 <= i < s.len() ==> '0' <= #[trigger] s[i] <= '9'
}

/// The number that a sequence of decimal digits writes.
pub open spec fn digits_value(s: Seq<char>) -> nat
    decreases s.len(),
{
    if s.len() == 0 {
        0
    } else {
        (10 * digits_value(s.drop_last()) + (s.last() as nat - '0' as nat)) as nat
    }
}

/// `s` without the plus sign that may precede the digits of a number.
pub open spec fn unsigned_digits(s: Seq<char>) -> Seq<char> {
    if s.len() > 0 && s[0] == '+' {
        s.skip(1)
    } else {
        s
    }
}

/// The port that `s` writes in decimal, from 1 to 65535.
pub open spec fn port_of(s: Seq<char>) -> Option<u16> {
    let digits = unsigned_digits(s);
    if digits.len() > 0 && all_digits(digits) && 1 <= digits_value(digits) <= 65535 {
        Some(digits_value(digits) as u16)
    } else {
        None
    }
}

/// The host and the port of `addr`, or why it is no endpoint.
pub open spec fn endpoint_parts(addr: Seq<char>) -> Result<(Seq<char>, u16), Seq<char>> {
    match host_of(addr) {
        Err(e) => Err(e),
        Ok(host) => match port_text_of(addr) {
            None => Err("missing port in "@ + addr),
            Some(port_text) => if host.len() == 0 {
                Err("empty host in "@ + addr)
            } else {
                match port_of(port_text) {
                    None => Err("invalid port in "@ + addr),
                    Some(port) => Ok((host, port)),
                }
            },
        },
    }
}

/// Whether `addr` is an endpoint with a host and a port other than zero.
pub open spec fn is_endpoint(addr: Seq<char>) -> bool {
    endpoint_parts(addr) is Ok
}

proof fn lemma_first_index(s: Seq<char>, c: char, k: int)
    requires
        0 <= k <= s.len(),
        forall|i: int| 0 <= i < k ==> s[i] != c,
        k < s.len() ==> s[k] == c,
    ensures
        first_index(s, c) == k,
    decreases s.len(),
{
    if k > 0 {
        assert(s[0] != c);
        lemma_first_index(s.drop_first(), c, k - 1);
    }
}

proof fn lemma_last_index(s: Seq<char>, c: char, k: int)
    requires
        -1 <= k < s.len(),
        forall|i: int| k < i < s.len() ==> s[i] != c,
        k >= 0 ==> s[k] == c,
    ensures
        last_index(s, c) == k,
    decreases s.len(),
{
    if k < s.len() - 1 {
        assert(s[s.len() - 1] != c);
        lemma_last_index(s.drop_last(), c, k);
    }
}

fn find_first(chars: &Vec<char>, c: char) -> (k: usize)
    ensures
        k == first_index(chars@, c),
        k <= chars@.len(),
        k < chars@.len() ==> chars@[k as int] == c,
{
    let mut k: usize = 0;
    while k < chars.len() && chars[k] != c
        invariant
            k <= chars@.len(),
            forall|i: int| 0 <= i < k ==> chars@[i] != c,
        decreases chars@.len() - k,
    {
        k += 1;
    }
    proof {
        lemma_first_index(chars@, c, k as int);
    }
    k
}

fn find_last(chars: &Vec<char>, c: char) -> (k: Option<usize>)
    ensures
        match k {
            Some(k) => k == last_index(chars@, c) && k < chars@.len(),
            None => last_index(chars@, c) == -1,
        },
{
    let mut end: usize = chars.len();
    while end > 0 && chars[end - 1] != c
        invariant
            end <= chars@.len(),
            forall|i: int| end <= i < chars@.len() ==> chars@[i] != c,
        decreases end,
    {
        end -= 1;
    }
    proof {
        lemma_last_index(chars@, c, end - 1);
    }
    if end > 0 {
        Some(end - 1)
    } else {
        None
    }
}

/// Whether `r` is the host in `addr`, or why there is none.
pub open spec fn host_found(addr: Seq<char>, r: Result<&str, String>) -> bool {
    match host_of(addr) {
        Ok(host) => r matches Ok(h) && h@ == host,
        Err(e) => r matches Err(m) && m@ == e,
    }
}

/// Whether `r` is the host and the port of `addr`, or why it is no endpoint.
pub open spec fn parts_found(addr: Seq<char>, r: Result<(&str, u16), String>) -> bool {
    match endpoint_parts(addr) {
        Ok(parts) => r matches Ok((h, p)) && h@ == parts.0 && p == parts.1,
        Err(e) => r matches Err(m) && m@ == e,
    }
}

/// A host and a port are found in what was put together from them, with brackets or without, and
/// the host alone too.
pub proof fn law_parts_are_found(
    host: Seq<char>,
    port: u16,
    brackets: bool,
    addr: Seq<char>,
    r: Result<(&str, u16), String>,
    h: Result<&str, String>,
)
    requires
        host.len() > 0,
        port > 0,
        brackets ==> !host.contains(']'),
        !brackets ==> host[0] != '[',
        addr == if brackets {
            "["@ + host + "]:"@ + decimal_digits(port as nat)
        } else {
            host + ":"@ + decimal_digits(port as nat)
        },
        parts_found(addr, r),
        host_found(addr, h),
    ensures
        r matches Ok(found) && found.0@ == host && found.1 == port,
        h matches Ok(found) && found@ == host,
{
    if brackets {
        law_bracketed_endpoint(host, port);
    } else {
        law_plain_endpoint(host, port);
    }
}

/// Where nothing is found, the result is the failure that the address has, in words, and what is
/// found is never an empty host or the port zero.
pub proof fn law_parts_found(
    addr: Seq<char>,
    r: Result<(&str, u16), String>,
    h: Result<&str, String>,
)
    requires
        parts_found(addr, r),
        host_found(addr, h),
    ensures
        r is Ok <==> is_endpoint(addr),
        r matches Ok(found) ==> found.0@.len() > 0 && found.1 > 0 && (h matches Ok(host) && host@
            == found.0@),
        r matches Err(m) ==> endpoint_parts(addr) == Err::<(Seq<char>, u16), _>(m@),
        h matches Err(m) ==> host_of(addr) == Err::<Seq<char>, _>(m@) && (r matches Err(n) && n@
            == m@),
{
}

/// The host that a server certificate for `addr` has to name: what stands in square
/// brackets, or else before the last colon.
pub fn server_host(addr: &str) -> (r: Result<&str, String>)
    ensures
        host_found(addr@, r),
{
    let chars = chars_of(addr);
    if chars.len() > 0 && chars[0] == '[' {
        let close: usize = find_first(&chars, ']');
        if close < chars.len() {
            Ok(addr.substring_char(1, close))
        } else {
            Err("unterminated IPv6 literal in ".to_owned().concat(addr))
        }
    } else {
        match find_last(&chars, ':') {
            Some(colon) => Ok(addr.substring_char(0, colon)),
            None => Err("missing port in ".to_owned().concat(addr)),
        }
    }
}

proof fn lemma_digits_value_prefix(s: Seq<char>, k: int)
    requires
        0 <= k <= s.len(),
        all_digits(s),
    ensures
        digits_value(s.take(k)) <= digits_value(s),
    decreases s.len(),
{
    if k < s.len() {
        assert(s.drop_last().take(k) =~= s.take(k));
        assert('0' <= s[s.len() - 1]);
        lemma_digits_value_prefix(s.drop_last(), k);
    } else {
        assert(s.take(k) =~= s);
    }
}

/// The port that the characters from index `start` on write in decimal.
fn parse_port(chars: &Vec<char>, start: usize) -> (port: Option<u16>)
    requires
        start <= chars@.len(),
    ensures
        port == port_of(chars@.skip(start as int)),
{
    let ghost text = chars@.skip(start as int);
    let ghost digits = unsigned_digits(text);
    let mut i: usize = start;
    if i < chars.len() && chars[i] == '+' {
        i += 1;
    }
    let first: usize = i;
    assert(digits =~= chars@.skip(first as int));
    let mut value: u32 = 0;
    while i < chars.len()
        invariant
            first <= i <= chars@.len(),
            digits == chars@.skip(first as int),
            digits == unsigned_digits(chars@.skip(start as int)),
            all_digits(digits.take(i - first)),
            value == digits_value(digits.take(i - first)),
            value <= 65535,
        decreases chars@.len() - i,
    {
        let c: char = chars[i];
        assert(digits[i - first] == c);
        assert(digits.take(i - first + 1).drop_last() =~= digits.take(i - first));
        if c < '0' || '9' < c {
            return None;
        }
        value = value * 10 + (c as u32 - '0' as u32);
        i += 1;
        if value > 65535 {
            proof {
                if all_digits(digits) {
                    lemma_digits_value_prefix(digits, i - first);
                }
            }
            return None;
        }
    }
    assert(digits.take(i - first) =~= digits);
    if i == first || value == 0 {
        None
    } else {
        Some(value as u16)
    }
}

/// The host and the port of an endpoint, or why `addr` is none.
pub fn split_host_port(addr: &str) -> (r: Result<(&str, u16), String>)
    ensures
        parts_found(addr@, r),
{
    let host = match server_host(addr) {
        Ok(host) => host,
        Err(e) => {
            return Err(e);
        },
    };
    let chars = chars_of(addr);
    let len: usize = chars.len();
    let start: usize = if chars[0] == '[' {
        let close: usize = find_first(&chars, ']');
        if close + 1 < len && chars[close + 1] == ':' {
            close + 2
        } else {
            return Err("missing port in ".to_owned().concat(addr));
        }
    } else {
        match find_last(&chars, ':') {
            Some(colon) => colon + 1,
            None => {
                return Err("missing port in ".to_owned().concat(addr));
            },
        }
    };
    if host.is_empty() {
        return Err("empty host in ".to_owned().concat(addr));
    }
    match parse_port(&chars, start) {
        None => Err("invalid port in ".to_owned().concat(addr)),
        Some(port) => Ok((host, port)),
    }
}

/// The local address to bind for a dial to `addr`: any address of the same family, any port.
pub fn bind_addr(addr: &SocketAddr) -> (bind: SocketAddr)
    ensures
        bind == match *addr {
            SocketAddr::V4 { .. } => SocketAddr::V4 { ipv4: 0, port: 0 },
            SocketAddr::V6 { .. } => SocketAddr::V6 { ipv6: 0, port: 0, flowinfo: 0, scope_id: 0 },
        },
{
    match addr {
        SocketAddr::V4 { .. } => SocketAddr::V4 { ipv4: 0, port: 0 },
        SocketAddr::V6 { .. } => SocketAddr::V6 { ipv6: 0, port: 0, flowinfo: 0, scope_id: 0 },
    }
}

/// A host that does not begin with a bracket, a colon and a port in decimal are an endpoint
/// with that host and that port.
pub proof fn law_plain_endpoint(host: Seq<char>, port: u16)
    requires
        host.len() > 0,
        host[0] != '[',
        port > 0,
    ensures
        endpoint_parts(host + ":"@ + decimal_digits(port as nat)) == Ok::<_, Seq<char>>(
            (host, port),
        ),
{
    reveal_strlit(":");
    let digits = decimal_digits(port as nat);
    let addr = host + ":"@ + digits;
    lemma_decimal_digits_value(port as nat);
    lemma_last_index(addr, ':', host.len() as int);
    assert(addr.subrange(0, host.len() as int) =~= host);
    assert(addr.skip(host.len() as int + 1) =~= digits);
}

/// A host without a closing bracket, set in brackets, a colon and a port in decimal are an
/// endpoint with that host and that port.
pub proof fn law_bracketed_endpoint(host: Seq<char>, port: u16)
    requires
        host.len() > 0,
        !host.contains(']'),
        port > 0,
    ensures
        endpoint_parts("["@ + host + "]:"@ + decimal_digits(port as nat)) == Ok::<_, Seq<char>>(
            (host, port),
        ),
{
    reveal_strlit("[");
    reveal_strlit("]:");
    let digits = decimal_digits(port as nat);
    let addr = "["@ + host + "]:"@ + digits;
    lemma_decimal_digits_value(port as nat);
    assert forall|i: int| 0 <= i < host.len() + 1 implies addr[i] != ']' by {
        if i > 0 {
            assert(addr[i] == host[i - 1]);
        }
    }
    lemma_first_index(addr, ']', host.len() as int + 1);
    assert(addr.subrange(1, host.len() as int + 1) =~= host);
    assert(addr.skip(host.len() as int + 3) =~= digits);
}

/// Every endpoint is a host, a colon and the digits of a port, and the host is in brackets if
/// the endpoint begins with one.
pub proof fn law_endpoint_shape(addr: Seq<char>) -> (digits: Seq<char>)
    requires
        is_endpoint(addr),
    ensures
        endpoint_parts(addr) matches Ok((host, port)) && {
            &&& host.len() > 0
            &&& port > 0
            &&& port_of(digits) == Some(port)
            &&& addr == if bracketed_host(addr) {
                "["@ + host + "]:"@ + digits
            } else {
                host + ":"@ + digits
            }
        },
{
    reveal_strlit("[");
    reveal_strlit("]:");
    reveal_strlit(":");
    let host = endpoint_parts(addr)->Ok_0.0;
    let digits = port_text_of(addr)->0;
    if bracketed_host(addr) {
        lemma_at_first_index(addr, ']');
        assert(addr =~= "["@ + host + "]:"@ + digits);
    } else {
        lemma_at_last_index(addr, ':');
        assert(addr =~= host + ":"@ + digits);
    }
    digits
}

proof fn lemma_at_first_index(s: Seq<char>, c: char)
    ensures
        0 <= first_index(s, c) <= s.len(),
        first_index(s, c) < s.len() ==> s[first_index(s, c)] == c,
    decreases s.len(),
{
    if s.len() > 0 && s[0] != c {
        lemma_at_first_index(s.drop_first(), c);
    }
}

proof fn lemma_at_last_index(s: Seq<char>, c: char)
    ensures
        -1 <= last_index(s, c) < s.len(),
        last_index(s, c) >= 0 ==> s[last_index(s, c)] == c,
    decreases s.len(),
{
    if s.len() > 0 && s.last() != c {
        lemma_at_last_index(s.drop_last(), c);
    }
}

/// The host in an address that begins with a bracket is what stands between it and the first
/// closing bracket.
pub proof fn law_bracketed_host(addr: Seq<char>, close: int)
    requires
        addr.len() > 0,
        addr[0] == '[',
        0 <= close < addr.len(),
        addr[close] == ']',
        forall|i: int| 0 <= i < close ==> #[trigger] addr[i] != ']',
    ensures
        host_of(addr) == Ok::<_, Seq<char>>(addr.subrange(1, close)),
        close == 1 && close + 1 < addr.len() && addr[close + 1] == ':' ==> endpoint_parts(addr)
            == Err::<(Seq<char>, u16), _>("empty host in "@ + addr),
        close + 1 >= addr.len() || addr[close + 1] != ':' ==> endpoint_parts(addr) == Err::<
            (Seq<char>, u16),
            _,
        >("missing port in "@ + addr),
        close > 1 && close + 1 < addr.len() && addr[close + 1] == ':' ==> match port_of(
            addr.skip(close + 2),
        ) {
            Some(port) => endpoint_parts(addr) == Ok::<_, Seq<char>>(
                (addr.subrange(1, close), port),
            ),
            None => endpoint_parts(addr) == Err::<(Seq<char>, u16), _>("invalid port in "@ + addr),
        },
{
    lemma_first_index(addr, ']', close);
}

/// The host in any other address is what stands before the last colon, and the port what stands
/// behind it.
pub proof fn law_plain_host(addr: Seq<char>, colon: int)
    requires
        0 <= colon < addr.len(),
        addr[0] != '[',
        addr[colon] == ':',
        forall|i: int| colon < i < addr.len() ==> #[trigger] addr[i] != ':',
    ensures
        host_of(addr) == Ok::<_, Seq<char>>(addr.subrange(0, colon)),
        colon == 0 ==> endpoint_parts(addr) == Err::<(Seq<char>, u16), _>("empty host in "@ + addr),
        colon > 0 ==> match port_of(addr.skip(colon + 1)) {
            Some(port) => endpoint_parts(addr) == Ok::<_, Seq<char>>(
                (addr.subrange(0, colon), port),
            ),
            None => endpoint_parts(addr) == Err::<(Seq<char>, u16), _>("invalid port in "@ + addr),
        },
{
    lemma_last_index(addr, ':', colon);
}

/// An address without the bracket or the colon that would end its host has none.
pub proof fn law_no_host(addr: Seq<char>)
    ensures
        addr.len() > 0 && addr[0] == '[' && !addr.contains(']') ==> {
            &&& host_of(addr) == Err::<Seq<char>, _>("unterminated IPv6 literal in "@ + addr)
            &&& endpoint_parts(addr) == Err::<(Seq<char>, u16), _>(
                "unterminated IPv6 literal in "@ + addr,
            )
        },
        !(addr.len() > 0 && addr[0] == '[') && !addr.contains(':') ==> {
            &&& host_of(addr) == Err::<Seq<char>, _>("missing port in "@ + addr)
            &&& endpoint_parts(addr) == Err::<(Seq<char>, u16), _>("missing port in "@ + addr)
        },
        is_endpoint(addr) <==> endpoint_parts(addr) is Ok,
{
    lemma_at_first_index(addr, ']');
    lemma_at_last_index(addr, ':');
    if first_index(addr, ']') < addr.len() {
        assert(addr.contains(addr[first_index(addr, ']')]));
    }
    if last_index(addr, ':') >= 0 {
        assert(addr.contains(addr[last_index(addr, ':')]));
    }
}

/// A port is a number from 1 to 65535 in decimal. Zeros before it, and one plus sign before
/// those, change nothing; anything else is no port.
pub proof fn law_port(s: Seq<char>, n: nat)
    ensures
        1 <= n <= 65535 ==> port_of(decimal_digits(n)) == Some(n as u16),
        !(1 <= n <= 65535) ==> port_of(decimal_digits(n)) is None,
        s.len() > 0 && s[0] != '+' ==> port_of(seq!['0'] + s) == port_of(s),
        s.len() == 0 || s[0] != '+' ==> port_of(seq!['+'] + s) == port_of(s),
        s.len() == 0 ==> port_of(s) is None,
        forall|i: int|
            0 <= i < s.len() && !('0' <= #[trigger] s[i] <= '9') && (i > 0 || s[i] != '+')
                ==> port_of(s) is None,
{
    lemma_decimal_digits_value(n);
    let digits = decimal_digits(n);
    assert('0' <= digits[0] <= '9');
    assert((seq!['+'] + s).skip(1) =~= s);
    if s.len() > 0 && s[0] != '+' {
        let longer = seq!['0'] + s;
        if all_digits(s) {
            assert forall|i: int| 0 <= i < longer.len() implies '0' <= #[trigger] longer[i]
                <= '9' by {
                if i > 0 {
                    assert(longer[i] == s[i - 1]);
                }
            }
            lemma_leading_zero(s);
        } else {
            let i = choose|i: int| 0 <= i < s.len() && !('0' <= #[trigger] s[i] <= '9');
            assert(longer[i + 1] == s[i]);
        }
    }
    assert forall|i: int|
        0 <= i < s.len() && !('0' <= #[trigger] s[i] <= '9') && (i > 0 || s[i]
            != '+') implies port_of(s) is None by {
        if s[0] == '+' {
            assert(s.skip(1)[i - 1] == s[i]);
        }
    }
}

proof fn lemma_leading_zero(s: Seq<char>)
    ensures
        digits_value(seq!['0'] + s) == digits_value(s),
    decreases s.len(),
{
    let longer = seq!['0'] + s;
    if s.len() > 0 {
        lemma_leading_zero(s.drop_last());
        assert(longer.drop_last() =~= seq!['0'] + s.drop_last());
    } else {
        assert(longer.drop_last() =~= Seq::<char>::empty());
        reveal_with_fuel(digits_value, 2);
    }
}

} // verus!
