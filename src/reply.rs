//! The reply of the remote command executor: a command's outcome framed as
//! bytes, and those bytes cut into fixed-size numbered packets.
use vstd::prelude::*;
use crate::naming::{decimal, digit_char};

verus! {

/// Payload bytes in one reply packet, before its sequence byte.
pub const STEP: usize = 1024;

/// The outcome of a command: what it wrote to stdout and stderr, and its
/// exit status.
#[derive(Debug, PartialEq, Eq)]
pub struct OutputWrapper {
    pub stdout: Vec<u8>,
    pub stderr: Vec<u8>,
    pub status_code: i32,
}

/// The ASCII bytes of a text of digits and signs.
pub open spec fn ascii(s: Seq<char>) -> Seq<u8> {
    s.map_values(|c: char| c as u8)
}

/// The decimal notation of `n`, with a leading `-` when negative.
pub open spec fn signed_decimal(n: int) -> Seq<char> {
    if n < 0 {
        seq!['-'] + decimal((-n) as nat)
    } else {
        decimal(n as nat)
    }
}

/// The framed reply: a status line (`ack-ok` for status 0, `error`
/// otherwise), the status in decimal, then the stdout and stderr sections,
/// each after its header line.
pub open spec fn packet_bytes(stdout: Seq<u8>, stderr: Seq<u8>, status: i32) -> Seq<u8> {
    (if status == 0 { ascii(seq!['a', 'c', 'k', '-', 'o', 'k', '\n']) } else { ascii(
        seq!['e', 'r', 'r', 'o', 'r', '\n'],
    ) }) + ascii(signed_decimal(status as int)) + seq![10u8] + ascii(
        seq!['a', 'r', 'b', '-', 'c', 'm', 'd', '-', 's', 't', 'd', 'o', 'u', 't', '\n'],
    ) + stdout + seq![10u8] + ascii(
        seq!['a', 'r', 'b', '-', 'c', 'm', 'd', '-', 's', 't', 'd', 'e', 'r', 'r', '\n'],
    ) + stderr
}

/// The number of data packets for `n` reply bytes.
pub open spec fn chunk_count(n: nat) -> nat {
    ((n + STEP - 1) / (STEP as int)) as nat
}

/// The `k`-th data packet: the `k`-th slice of `STEP` bytes, padded with
/// zeros to `STEP` bytes, then the packet's number modulo 256.
pub open spec fn data_packet(bytes: Seq<u8>, k: nat) -> Seq<u8> {
    let start = k * STEP as nat;
    let end = if bytes.len() < start + STEP as nat { bytes.len() } else { start + STEP as nat };
    bytes.subrange(start as int, end as int) + Seq::new((STEP as nat - (end - start)) as nat, |i: int| 0u8)
        + seq![(k % 256) as u8]
}

/// The packet that ends a reply: the text `finished`.
pub open spec fn end_packet() -> Seq<u8> {
    ascii(seq!['f', 'i', 'n', 'i', 's', 'h', 'e', 'd'])
}

/// Appends the decimal digits of `n` to `out`.
fn push_decimal(out: &mut Vec<u8>, n: u32)
    ensures
        final(out)@ == old(out)@ + ascii(decimal(n as nat)),
    decreases n,
{
    let d: u8 = (n % 10) as u8;
    if n >= 10 {
        push_decimal(out, n / 10);
    }
    out.push(48u8 + d);
    proof {
        let c = digit_char((n % 10) as nat);
        assert(c as u8 == 48u8 + d);
        if n >= 10 {
            assert(ascii(decimal(n as nat)) =~= ascii(decimal((n / 10) as nat)).push(c as u8));
        } else {
            assert(ascii(decimal(n as nat)) =~= seq![c as u8]);
        }
    }
}

/// The status code in decimal, with a `-` before a negative one.
fn status_text(n: i32) -> (r: Vec<u8>)
    ensures
        r@ == ascii(signed_decimal(n as int)),
{
    let mut r: Vec<u8> = Vec::new();
    if n < 0 {
        r.push(45u8);
        let m: u32 = (-(n as i64)) as u32;
        push_decimal(&mut r, m);
        proof {
            assert(ascii(signed_decimal(n as int)) =~= seq![45u8] + ascii(decimal(m as nat)));
        }
    } else {
        push_decimal(&mut r, n as u32);
        proof {
            assert(r@ =~= ascii(signed_decimal(n as int)));
        }
    }
    r
}

/// Appends the ASCII bytes of `s` to `out`.
fn push_text(out: &mut Vec<u8>, s: &str)
    requires
        s.is_ascii(),
    ensures
        final(out)@ == old(out)@ + ascii(s@),
{
    let n = s.unicode_len();
    let mut i: usize = 0;
    while i < n
        invariant
            s.is_ascii(),
            n == s@.len(),
            i <= n,
            out@ == old(out)@ + ascii(s@.subrange(0, i as int)),
        decreases n - i,
    {
        let b = s.get_ascii(i);
        out.push(b);
        proof {
            assert(s@.subrange(0, i + 1) =~= s@.subrange(0, i as int).push(s@[i as int]));
            assert(ascii(s@.subrange(0, i + 1)) =~= ascii(s@.subrange(0, i as int)).push(b));
        }
        i = i + 1;
    }
    proof {
        assert(s@.subrange(0, n as int) =~= s@);
    }
}

/// Appends `b` to `out`.
fn push_bytes(out: &mut Vec<u8>, b: &Vec<u8>)
    ensures
        final(out)@ == old(out)@ + b@,
{
    let mut i: usize = 0;
    while i < b.len()
        invariant
            i <= b@.len(),
            out@ == old(out)@ + b@.subrange(0, i as int),
        decreases b@.len() - i,
    {
        out.push(b[i]);
        proof {
            assert(b@.subrange(0, i + 1) =~= b@.subrange(0, i as int).push(b@[i as int]));
        }
        i = i + 1;
    }
    proof {
        assert(b@.subrange(0, b@.len() as int) =~= b@);
    }
}

impl OutputWrapper {
    /// The reply bytes for this outcome.
    pub fn to_packet(&self) -> (r: Vec<u8>)
        ensures
            r@ == packet_bytes(self.stdout@, self.stderr@, self.status_code),
    {
        let mut r: Vec<u8> = Vec::new();
        proof {
            reveal_strlit("ack-ok\n");
            reveal_strlit("error\n");
            reveal_strlit("\n");
            reveal_strlit("arb-cmd-stdout\n");
            reveal_strlit("arb-cmd-stderr\n");
        }
        if self.status_code == 0 {
            push_text(&mut r, "ack-ok\n");
        } else {
            push_text(&mut r, "error\n");
        }
        let code = status_text(self.status_code);
        push_bytes(&mut r, &code);
        push_text(&mut r, "\n");
        push_text(&mut r, "arb-cmd-stdout\n");
        push_bytes(&mut r, &self.stdout);
        push_text(&mut r, "\n");
        push_text(&mut r, "arb-cmd-stderr\n");
        push_bytes(&mut r, &self.stderr);
        proof {
            assert(ascii("\n"@) =~= seq![10u8]);
            assert(r@ =~= packet_bytes(self.stdout@, self.stderr@, self.status_code));
        }
        r
    }
}

/// The packets that carry `bytes`: the data packets in order, each
/// `STEP + 1` bytes long, then the end packet.
pub fn reply_packets(bytes: &Vec<u8>) -> (r: Vec<Vec<u8>>)
    ensures
        r@.len() == chunk_count(bytes@.len()) + 1,
        forall|k: int| 0 <= k < chunk_count(bytes@.len()) ==> #[trigger] r@[k]@ == data_packet(bytes@, k as nat),
        r@.last()@ == end_packet(),
{
    let n = bytes.len();
    let mut out: Vec<Vec<u8>> = Vec::new();
    let mut start: usize = 0;
    let mut k: usize = 0;
    while start < n
        invariant
            n == bytes@.len(),
            start <= n,
            start < n ==> start == k * STEP,
            out@.len() == k,
            k <= chunk_count(n as nat),
            start < n ==> k < chunk_count(n as nat),
            start >= n ==> k == chunk_count(n as nat),
            forall|j: int| 0 <= j < k ==> #[trigger] out@[j]@ == data_packet(bytes@, j as nat),
        decreases n - start,
    {
        let end: usize = if n - start < STEP { n } else { start + STEP };
        let mut p: Vec<u8> = Vec::new();
        let mut j: usize = start;
        while j < end
            invariant
                start <= j <= end <= n,
                n == bytes@.len(),
                p@ == bytes@.subrange(start as int, j as int),
            decreases end - j,
        {
            p.push(bytes[j]);
            proof {
                assert(bytes@.subrange(start as int, j + 1) =~= bytes@.subrange(start as int, j as int).push(bytes@[j as int]));
            }
            j = j + 1;
        }
        let data_len: usize = end - start;
        while p.len() < STEP
            invariant
                data_len == end - start,
                start <= end <= n,
                n == bytes@.len(),
                data_len <= p@.len() <= STEP,
                p@ == bytes@.subrange(start as int, end as int) + Seq::new((p@.len() - data_len) as nat, |i: int| 0u8),
            decreases STEP - p@.len(),
        {
            p.push(0u8);
            proof {
                assert(p@ =~= bytes@.subrange(start as int, end as int) + Seq::new((p@.len() - data_len) as nat, |i: int| 0u8));
            }
        }
        p.push((k % 256) as u8);
        proof {
            assert(p@ =~= data_packet(bytes@, k as nat));
        }
        out.push(p);
        proof {
            assert(chunk_count(n as nat) == (n + STEP - 1) / (STEP as int));
            if end < n {
                assert(start + STEP < n);
                assert((k + 1) * STEP < n) by (nonlinear_arith)
                    requires start == k * STEP, start + STEP < n;
                assert(k + 1 < chunk_count(n as nat)) by (nonlinear_arith)
                    requires (k + 1) * STEP < n, chunk_count(n as nat) == (n + STEP - 1) / (STEP as int);
            } else {
                assert(k + 1 == chunk_count(n as nat)) by (nonlinear_arith)
                    requires start == k * STEP, start < n, n <= start + STEP,
                        chunk_count(n as nat) == (n + STEP - 1) / (STEP as int);
            }
        }
        if end < n {
            start = end;
        } else {
            start = n;
        }
        k = k + 1;
        proof {
            if start < n {
                assert(start == k * STEP) by (nonlinear_arith)
                    requires start == (k - 1) * STEP + STEP;
            }
        }
    }
    proof {
        reveal_strlit("finished");
    }
    let mut last: Vec<u8> = Vec::new();
    push_text(&mut last, "finished");
    out.push(last);
    proof {
        assert(ascii("finished"@) =~= end_packet());
    }
    out
}

} // verus!
