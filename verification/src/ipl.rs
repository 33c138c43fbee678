//! The IPL, the console's boot ROM: its contents are scrambled with a keystream from three
//! linear feedback shift registers, which loading undoes.
use crate::memory::IPL_LEN;
use vstd::prelude::*;

verus! {

/// The state of the keystream generator: three shift registers, the last output bit, and the
/// byte being assembled with how many bits it has.
#[derive(Debug, Clone, Copy, PartialEq, Eq, Structural)]
pub struct KeyState {
    pub t: u16,
    pub u: u16,
    pub v: u16,
    pub x: u8,
    pub acc: u8,
    pub nacc: u8,
}

/// The generator's state before any bit.
pub open spec fn key_start() -> KeyState {
    KeyState { t: 0x2953, u: 0xD9C2, v: 0x3FF1, x: 1, acc: 0, nacc: 0 }
}

/// The generator's state after one more bit: the output bit mixes the registers' low bits,
/// then the registers shift (`v` when the low bits of `t` and `u` agree, `u` when that of `t`
/// is clear, `t` always) with their feedback, and the bit joins the byte being assembled.
pub open spec fn key_step(s: KeyState) -> KeyState {
    let t0 = (s.t as u8) & 1;
    let t1 = ((s.t as u8) >> 1u8) & 1;
    let u0 = (s.u as u8) & 1;
    let u1 = ((s.u as u8) >> 1u8) & 1;
    let v0 = (s.v as u8) & 1;
    let x = s.x ^ t1 ^ v0 ^ (u0 | u1) ^ ((t0 ^ u1 ^ v0) & (t0 ^ u0));
    let v = if t0 == u0 {
        if v0 != 0 { (s.v >> 1u16) ^ 0xb3d0 } else { s.v >> 1u16 }
    } else {
        s.v
    };
    let u = if t0 == 0 {
        if u0 != 0 { (s.u >> 1u16) ^ 0xfb10 } else { s.u >> 1u16 }
    } else {
        s.u
    };
    let t = if t0 != 0 { (s.t >> 1u16) ^ 0xa740 } else { s.t >> 1u16 };
    let acc = s.acc.wrapping_mul(2).wrapping_add(x);
    KeyState { t, u, v, x, acc, nacc: (s.nacc + 1) as u8 }
}

/// The generator's state after `n` bits, counting the bits of the byte being assembled.
pub open spec fn key_state(n: nat) -> KeyState
    decreases n,
{
    if n == 0 {
        key_start()
    } else {
        let s = key_step(key_state((n - 1) as nat));
        if s.nacc == 8 {
            KeyState { nacc: 0, ..s }
        } else {
            s
        }
    }
}

/// Byte `k` of the keystream: the byte assembled from bits `8k` to `8k + 7`.
pub open spec fn key_byte(k: nat) -> u8 {
    key_state(8 * k + 8).acc
}

/// One bit of the generator.
fn step(s: KeyState) -> (r: KeyState)
    requires
        s.nacc < 8,
    ensures
        r == key_step(s),
{
    let t0 = (s.t as u8) & 1;
    let t1 = ((s.t as u8) >> 1u8) & 1;
    let u0 = (s.u as u8) & 1;
    let u1 = ((s.u as u8) >> 1u8) & 1;
    let v0 = (s.v as u8) & 1;
    let mut x = s.x;
    x = x ^ (t1 ^ v0);
    x = x ^ (u0 | u1);
    x = x ^ ((t0 ^ u1 ^ v0) & (t0 ^ u0));
    let sx = s.x;
    assert(x == sx ^ t1 ^ v0 ^ (u0 | u1) ^ ((t0 ^ u1 ^ v0) & (t0 ^ u0))) by (bit_vector)
        requires
            x == ((sx ^ (t1 ^ v0)) ^ (u0 | u1)) ^ ((t0 ^ u1 ^ v0) & (t0 ^ u0)),
    ;
    let mut v = s.v;
    if t0 == u0 {
        v = v >> 1u16;
        if v0 != 0 {
            v = v ^ 0xb3d0;
        }
    }
    let mut u = s.u;
    if t0 == 0 {
        u = u >> 1u16;
        if u0 != 0 {
            u = u ^ 0xfb10;
        }
    }
    let mut t = s.t >> 1u16;
    if t0 != 0 {
        t = t ^ 0xa740;
    }
    let acc = s.acc.wrapping_mul(2).wrapping_add(x);
    KeyState { t, u, v, x, acc, nacc: s.nacc + 1 }
}

/// `data` with the bytes from `start` up to `end` xored with the keystream: byte `start + k`
/// with byte `k` of it.
pub open spec fn decoded(data: Seq<u8>, start: int, end: int) -> Seq<u8> {
    Seq::new(data.len(), |j: int| if start <= j < end { data[j] ^ key_byte((j - start) as nat) } else { data[j] })
}

/// Unscrambling is its own inverse: unscrambling a range twice gives the data back.
pub proof fn law_decode_twice(data: Seq<u8>, start: int, end: int)
    requires
        0 <= start <= end <= data.len(),
    ensures
        decoded(decoded(data, start, end), start, end) == data,
{
    assert forall|j: int| 0 <= j < data.len() implies #[trigger] decoded(decoded(data, start, end), start, end)[j] == data[j] by {
        if start <= j < end {
            let a = data[j];
            let k = key_byte((j - start) as nat);
            assert((a ^ k) ^ k == a) by (bit_vector);
        }
    }
    assert(decoded(decoded(data, start, end), start, end) =~= data);
}

/// Unscrambles the bytes of `data` from `start` up to `end`: byte `start + k` is xored with
/// byte `k` of the keystream.
pub fn decode_ipl(data: &mut Vec<u8>, start: usize, end: usize)
    requires
        start <= end <= old(data)@.len(),
    ensures
        final(data)@ == decoded(old(data)@, start as int, end as int),
{
    let ghost before = data@;
    let mut s = KeyState { t: 0x2953, u: 0xD9C2, v: 0x3FF1, x: 1, acc: 0, nacc: 0 };
    let mut it: usize = start;
    while it < end
        invariant
            start <= it <= end <= before.len(),
            data@.len() == before.len(),
            s.nacc < 8,
            s == key_state((8 * (it - start) + s.nacc) as nat),
            forall|j: int| 0 <= j < before.len() ==> #[trigger] data@[j] == if start <= j < it {
                before[j] ^ key_byte((j - start) as nat)
            } else {
                before[j]
            },
        decreases end - it, 8 - s.nacc,
    {
        let ghost n = (8 * (it - start) + s.nacc) as nat;
        let next = step(s);
        assert(key_state(n + 1) == (if next.nacc == 8 { KeyState { nacc: 0, ..next } } else { next }));
        if next.nacc == 8 {
            let b = data[it] ^ next.acc;
            data.set(it, b);
            proof {
                assert(n + 1 == 8 * (it - start) + 8);
                assert(key_byte((it - start) as nat) == key_state(n + 1).acc);
            }
            it += 1;
            s = KeyState { nacc: 0, ..next };
        } else {
            s = next;
        }
    }
    assert(data@ =~= decoded(before, start as int, end as int));
}

/// The text at the start of a PAL IPL.
pub open spec fn pal_message() -> Seq<u8> {
    seq![
        0x28u8, 0x43, 0x29, 0x20, 0x31, 0x39, 0x39, 0x39, 0x2D, 0x32, 0x30, 0x30, 0x31, 0x20, 0x4E,
        0x69, 0x6E, 0x74, 0x65, 0x6E, 0x64, 0x6F, 0x2E, 0x20, 0x20, 0x41, 0x6C, 0x6C, 0x20, 0x72,
        0x69, 0x67, 0x68, 0x74, 0x73, 0x20, 0x72, 0x65, 0x73, 0x65, 0x72, 0x76, 0x65, 0x64, 0x2E,
        0x28, 0x43, 0x29, 0x20, 0x31, 0x39, 0x39, 0x39, 0x20, 0x41, 0x72, 0x74, 0x58, 0x20, 0x49,
        0x6E, 0x63, 0x2E, 0x20, 0x20, 0x41, 0x6C, 0x6C, 0x20, 0x72, 0x69, 0x67, 0x68, 0x74, 0x73,
        0x20, 0x72, 0x65, 0x73, 0x65, 0x72, 0x76, 0x65, 0x64, 0x2E, 0x50, 0x41, 0x4C, 0x20, 0x20,
        0x52, 0x65, 0x76, 0x69, 0x73, 0x69, 0x6F, 0x6E, 0x20, 0x31, 0x2E, 0x30, 0x20, 0x20,
    ]
}

/// The bytes of the PAL IPL message.
fn pal_message_bytes() -> (r: Vec<u8>)
    ensures
        r@ == pal_message(),
{
    let r: Vec<u8> = vec![
        0x28u8, 0x43, 0x29, 0x20, 0x31, 0x39, 0x39, 0x39, 0x2D, 0x32, 0x30, 0x30, 0x31, 0x20, 0x4E,
        0x69, 0x6E, 0x74, 0x65, 0x6E, 0x64, 0x6F, 0x2E, 0x20, 0x20, 0x41, 0x6C, 0x6C, 0x20, 0x72,
        0x69, 0x67, 0x68, 0x74, 0x73, 0x20, 0x72, 0x65, 0x73, 0x65, 0x72, 0x76, 0x65, 0x64, 0x2E,
        0x28, 0x43, 0x29, 0x20, 0x31, 0x39, 0x39, 0x39, 0x20, 0x41, 0x72, 0x74, 0x58, 0x20, 0x49,
        0x6E, 0x63, 0x2E, 0x20, 0x20, 0x41, 0x6C, 0x6C, 0x20, 0x72, 0x69, 0x67, 0x68, 0x74, 0x73,
        0x20, 0x72, 0x65, 0x73, 0x65, 0x72, 0x76, 0x65, 0x64, 0x2E, 0x50, 0x41, 0x4C, 0x20, 0x20,
        0x52, 0x65, 0x76, 0x69, 0x73, 0x69, 0x6F, 0x6E, 0x20, 0x31, 0x2E, 0x30, 0x20, 0x20,
    ];
    assert(r@ =~= pal_message());
    r
}

/// Whether `data` starts with the PAL message, ended by a NUL byte.
pub open spec fn is_pal(data: Seq<u8>) -> bool {
    data.len() > pal_message().len() && data.subrange(0, pal_message().len() as int) == pal_message()
        && data[pal_message().len() as int] == 0
}

/// Where the scrambled part of the IPL ends: further for a PAL IPL.
pub open spec fn scrambled_end(data: Seq<u8>) -> int {
    if is_pal(data) {
        0x001A_EEE8
    } else {
        0x0015_EE40
    }
}

/// The IPL, unscrambled.
#[derive(Debug, Clone)]
pub struct Ipl(Vec<u8>);

impl Ipl {
    /// The contents.
    pub closed spec fn view(&self) -> Seq<u8> {
        self.0@
    }

    /// Unscrambles the IPL `data`: from byte 0x100 up to where its region's scrambled part
    /// ends, told by the message it starts with.
    pub fn new(data: Vec<u8>) -> (r: Ipl)
        requires
            data@.len() == IPL_LEN,
            data@.contains(0u8),
        ensures
            r.view() == decoded(data@, 0x100, scrambled_end(data@)),
    {
        let mut data = data;
        let message = pal_message_bytes();
        let n = message.len();
        let mut same = data[n] == 0;
        let mut i: usize = 0;
        while i < n
            invariant
                i <= n,
                n == pal_message().len(),
                message@ == pal_message(),
                data@.len() == IPL_LEN,
                same == (data@[n as int] == 0 && forall|j: int| 0 <= j < i ==> data@[j] == pal_message()[j]),
            decreases n - i,
        {
            same = same && data[i] == message[i];
            i += 1;
        }
        proof {
            if same {
                assert(data@.subrange(0, n as int) =~= pal_message());
            }
            if is_pal(data@) {
                assert forall|j: int| 0 <= j < n implies data@[j] == pal_message()[j] by {
                    assert(data@.subrange(0, n as int)[j] == data@[j]);
                }
            }
        }
        let end: usize = if same { 0x001A_EEE8 } else { 0x0015_EE40 };
        decode_ipl(&mut data, 0x100, end);
        Ipl(data)
    }

    /// The contents.
    pub fn as_slice(&self) -> (r: &[u8])
        ensures
            r@ == self.view(),
    {
        self.0.as_slice()
    }
}

} // verus!
