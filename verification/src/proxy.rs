use vstd::prelude::*;

use crate::ext;
use crate::manager::DeploymentSystem;

verus! {

/// A byte with any upper-case ASCII letter folded to lower case; hostname
/// matching is case-insensitive.
pub open spec fn lower(b: u8) -> u8 {
    if 65 <= b && b <= 90 {
        (b + 32) as u8
    } else {
        b
    }
}

/// Every byte is ASCII.
pub open spec fn all_ascii(s: Seq<u8>) -> bool {
    forall|i: int| 0 <= i < s.len() ==> #[trigger] s[i] < 128
}

/// The characters the ASCII bytes spell.
pub open spec fn chars_of_bytes(s: Seq<u8>) -> Seq<char> {
    Seq::new(s.len(), |i: int| s[i] as char)
}

/// A linear-whitespace byte: space or horizontal tab.
pub open spec fn is_ws(b: u8) -> bool {
    b == 32 || b == 9
}

/// Where the line that starts at `pos` ends: the position of the first CRLF
/// at or after `pos`, or the end of the input.
pub open spec fn line_end(s: Seq<u8>, pos: int) -> int
    decreases s.len() - pos,
{
    if pos < 0 || pos + 2 > s.len() {
        s.len() as int
    } else if s[pos] == 13 && s[pos + 1] == 10 {
        pos
    } else {
        line_end(s, pos + 1)
    }
}

/// The first colon in `s[pos..end]`, or `end`.
pub open spec fn colon_pos(s: Seq<u8>, pos: int, end: int) -> int
    decreases end - pos,
{
    if pos < 0 || pos >= end || end > s.len() {
        end
    } else if s[pos] == 58 {
        pos
    } else {
        colon_pos(s, pos + 1, end)
    }
}

/// `pos` advanced past leading whitespace, up to `end`.
pub open spec fn skip_ws(s: Seq<u8>, pos: int, end: int) -> int
    decreases end - pos,
{
    if pos < 0 || pos >= end || end > s.len() {
        end
    } else if is_ws(s[pos]) {
        skip_ws(s, pos + 1, end)
    } else {
        pos
    }
}

/// `end` moved back past trailing whitespace, down to `pos`.
pub open spec fn rstrip_ws(s: Seq<u8>, pos: int, end: int) -> int
    decreases end - pos,
{
    if pos < 0 || end <= pos || end > s.len() {
        pos
    } else if is_ws(s[end - 1]) {
        rstrip_ws(s, pos, end - 1)
    } else {
        end
    }
}

/// The bytes of `s[pos..end]`, lower-cased.
pub open spec fn lower_bytes(s: Seq<u8>, pos: int, end: int) -> Seq<u8> {
    Seq::new(if end >= pos { (end - pos) as nat } else { 0 }, |i: int| lower(s[pos + i]))
}

/// The header name the proxy looks for.
pub open spec fn host_name_bytes() -> Seq<u8> {
    seq![104u8, 111u8, 115u8, 116u8]
}

/// The value of the first `Host` header in the request head starting at
/// `pos`: its header name matches case-insensitively, its value is trimmed of
/// surrounding whitespace, lower-cased, and cut before an optional `:port`
/// suffix. `None` when no line carries the header.
pub open spec fn host_from(s: Seq<u8>, pos: int) -> Option<Seq<u8>>
    decreases s.len() - pos,
{
    if pos < 0 || pos >= s.len() {
        None
    } else {
        let e = line_end(s, pos);
        let cp = colon_pos(s, pos, e);
        if cp < e && lower_bytes(s, pos, cp) == host_name_bytes() {
            let vs = skip_ws(s, cp + 1, e);
            let ve = rstrip_ws(s, vs, e);
            let pc = colon_pos(s, vs, ve);
            Some(lower_bytes(s, vs, pc))
        } else {
            let next = if e + 2 <= s.len() {
                e + 2
            } else {
                s.len() as int
            };
            if next > pos {
                host_from(s, next)
            } else {
                None
            }
        }
    }
}

/// Lower-cases one byte.
fn lower_exec(b: u8) -> (r: u8)
    ensures
        r == lower(b),
{
    if 65 <= b && b <= 90 {
        b + 32
    } else {
        b
    }
}

/// Finds the end of the line that starts at `pos`.
fn line_end_exec(head: &Vec<u8>, pos: usize) -> (r: usize)
    requires
        pos <= head@.len(),
    ensures
        r == line_end(head@, pos as int),
        pos <= r <= head@.len(),
    decreases head@.len() - pos,
{
    if head.len() - pos < 2 {
        head.len()
    } else if head[pos] == 13 && head[pos + 1] == 10 {
        pos
    } else {
        line_end_exec(head, pos + 1)
    }
}

/// Finds the first colon in `head[pos..end]`.
fn colon_pos_exec(head: &Vec<u8>, pos: usize, end: usize) -> (r: usize)
    requires
        pos <= end <= head@.len(),
    ensures
        r == colon_pos(head@, pos as int, end as int),
        pos <= r <= end,
    decreases end - pos,
{
    if pos >= end {
        end
    } else if head[pos] == 58 {
        pos
    } else {
        colon_pos_exec(head, pos + 1, end)
    }
}

/// Skips leading whitespace in `head[pos..end]`.
fn skip_ws_exec(head: &Vec<u8>, pos: usize, end: usize) -> (r: usize)
    requires
        pos <= end <= head@.len(),
    ensures
        r == skip_ws(head@, pos as int, end as int),
        pos <= r <= end,
    decreases end - pos,
{
    if pos >= end {
        end
    } else if head[pos] == 32 || head[pos] == 9 {
        skip_ws_exec(head, pos + 1, end)
    } else {
        pos
    }
}

/// Strips trailing whitespace from `head[pos..end]`.
fn rstrip_ws_exec(head: &Vec<u8>, pos: usize, end: usize) -> (r: usize)
    requires
        pos <= end <= head@.len(),
    ensures
        r == rstrip_ws(head@, pos as int, end as int),
        pos <= r <= end,
    decreases end - pos,
{
    if end <= pos {
        pos
    } else if head[end - 1] == 32 || head[end - 1] == 9 {
        rstrip_ws_exec(head, pos, end - 1)
    } else {
        end
    }
}

/// Decides whether `head[pos..cp]` spells `host`, case-insensitively.
fn is_host_name_exec(head: &Vec<u8>, pos: usize, cp: usize) -> (r: bool)
    requires
        pos <= cp <= head@.len(),
    ensures
        r == (lower_bytes(head@, pos as int, cp as int) == host_name_bytes()),
    {
    if cp - pos != 4 {
        proof {
            assert(lower_bytes(head@, pos as int, cp as int).len() != host_name_bytes().len());
        }
        return false;
    }
    let r = lower_exec(head[pos]) == 104 && lower_exec(head[pos + 1]) == 111
        && lower_exec(head[pos + 2]) == 115 && lower_exec(head[pos + 3]) == 116;
    proof {
        let lb = lower_bytes(head@, pos as int, cp as int);
        assert(lb.len() == 4);
        assert(lb[0] == lower(head@[pos as int]));
        assert(lb[1] == lower(head@[pos as int + 1]));
        assert(lb[2] == lower(head@[pos as int + 2]));
        assert(lb[3] == lower(head@[pos as int + 3]));
        if r {
            assert(lb =~= host_name_bytes());
        } else {
            assert(lb != host_name_bytes());
        }
    }
    r
}

/// Extracts the `Host` header's value from an HTTP request head: the bytes
/// of the hostname, lower-cased, without a `:port` suffix. `None` when the
/// head carries no such header.
fn host_from_exec(head: &Vec<u8>, pos: usize) -> (r: Option<Vec<u8>>)
    requires
        pos <= head@.len(),
    ensures
        r matches Some(v) ==> host_from(head@, pos as int) == Some(v@),
        r is None ==> host_from(head@, pos as int) is None,
    decreases head@.len() - pos,
{
    if pos >= head.len() {
        return None;
    }
    let e = line_end_exec(head, pos);
    let cp = colon_pos_exec(head, pos, e);
    if cp < e && is_host_name_exec(head, pos, cp) {
        let vs = skip_ws_exec(head, cp + 1, e);
        let ve = rstrip_ws_exec(head, vs, e);
        let pc = colon_pos_exec(head, vs, ve);
        let mut v: Vec<u8> = Vec::new();
        let mut k: usize = vs;
        while k < pc
            invariant
                vs <= k <= pc,
                pc <= head@.len(),
                v@.len() == k - vs,
                forall|t: int| 0 <= t < v@.len() ==> v@[t] == lower(head@[vs + t]),
            decreases pc - k,
        {
            let b = lower_exec(head[k]);
            v.push(b);
            k += 1;
        }
        proof {
            assert(v@ =~= lower_bytes(head@, vs as int, pc as int));
        }
        Some(v)
    } else {
        let next = if head.len() - e >= 2 {
            e + 2
        } else {
            head.len()
        };
        if next > pos {
            host_from_exec(head, next)
        } else {
            None
        }
    }
}

/// Extracts the `Host` header's hostname from an HTTP request head, when one
/// is there, it is not empty, and it is plain ASCII.
pub fn extract_host(head: &Vec<u8>) -> (r: Option<Vec<u8>>)
    ensures
        r matches Some(v) ==> host_from(head@, 0) == Some(v@) && v@.len() > 0 && all_ascii(v@),
        r is None ==> !(host_from(head@, 0) matches Some(h) && h.len() > 0 && all_ascii(h)),
{
    let v = match host_from_exec(head, 0) {
        Some(v) => v,
        None => {
            return None;
        },
    };
    if v.len() == 0 {
        return None;
    }
    let n = v.len();
    let mut k: usize = 0;
    while k < n
        invariant
            0 <= k <= n,
            n == v@.len(),
            host_from(head@, 0) == Some(v@),
            forall|t: int| 0 <= t < k ==> #[trigger] v@[t] < 128,
        decreases n - k,
    {
        if v[k] >= 128 {
            return None;
        }
        k += 1;
    }
    Some(v)
}

/// Decides where an inbound connection goes: the port of the service that
/// answers for the request's `Host`, or nothing, in which case the proxy
/// answers with its not-found status. The route agrees with the routing
/// table, which in a well-formed system reflects exactly the `Deployed`
/// deployments.
pub fn route_request(system: &DeploymentSystem, head: &Vec<u8>) -> (r: Option<u16>)
    requires
        system.wf(),
    ensures
        r matches Some(p) ==> (host_from(head@, 0) matches Some(h) && h.len() > 0 && all_ascii(h)
            && system.router.routes_to(chars_of_bytes(h), p)),
        r is Some <==> (host_from(head@, 0) matches Some(h) && h.len() > 0 && all_ascii(h)
            && system.router.in_table(chars_of_bytes(h))),
{
    let host_bytes = match extract_host(head) {
        Some(v) => v,
        None => {
            return None;
        },
    };
    let ghost hb = host_bytes@;
    let host = match ext::ascii_string(host_bytes) {
        Some(s) => s,
        None => {
            proof {
                assert(false);
            }
            return None;
        },
    };
    proof {
        assert(host@ =~= chars_of_bytes(hb));
    }
    system.router.lookup(&host)
}

} // verus!
