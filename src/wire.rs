//! The bytes of a connect request: a netlink header, a generic netlink header, and a flat list
//! of attributes ending with the nested list of sockets. Netlink writes integers in the host's
//! byte order; this encoding writes them least significant byte first, as little-endian hosts do.
use vstd::prelude::*;

use crate::config::{ConnectParams, NBDConnect};

verus! {

/// Generic netlink command that attaches sockets to a new device.
pub const CMD_CONNECT: u8 = 1;

/// Version of the command set.
pub const GENL_VERSION: u8 = 1;

/// Attribute type: device index (in the reply).
pub const ATTR_INDEX: u16 = 1;

/// Attribute type: size of the device in bytes.
pub const ATTR_SIZE_BYTES: u16 = 2;

/// Attribute type: minimum block size in bytes.
pub const ATTR_BLOCK_SIZE_BYTES: u16 = 3;

/// Attribute type: server flags.
pub const ATTR_SERVER_FLAGS: u16 = 5;

/// Attribute type: client flags.
pub const ATTR_CLIENT_FLAGS: u16 = 6;

/// Attribute type: the nested list of sockets.
pub const ATTR_SOCKETS: u16 = 7;

/// Attribute type of one entry in the list of sockets.
pub const SOCK_ITEM: u16 = 1;

/// Attribute type of the descriptor inside an entry.
pub const SOCK_FD: u16 = 1;

/// Bit of an attribute type that marks an attribute holding further attributes.
pub const NLA_F_NESTED: u16 = 32768;

/// Netlink header flag of a request.
pub const NLM_F_REQUEST: u16 = 1;

/// Length of the netlink header.
pub const NLMSG_HDRLEN: usize = 16;

/// Length of the generic netlink header.
pub const GENL_HDRLEN: usize = 4;

/// Length of one entry of the socket list: its header, and the descriptor attribute of 8 bytes.
pub const SOCK_ITEM_LEN: usize = 12;

/// The most sockets whose list still fits an attribute, whose length field has 16 bits.
pub const MAX_SOCKETS: usize = 5460;

/// The `n` low bytes of `v`, least significant first.
pub open spec fn le_bytes(v: nat, n: nat) -> Seq<u8>
    decreases n,
{
    if n == 0 {
        Seq::empty()
    } else {
        seq![(v % 256) as u8] + le_bytes(v / 256, (n - 1) as nat)
    }
}

/// The little-endian 16-bit number at `i`.
pub open spec fn u16_at(b: Seq<u8>, i: int) -> nat {
    b[i] as nat + 256 * b[i + 1] as nat
}

/// The little-endian 32-bit number at `i`.
pub open spec fn u32_at(b: Seq<u8>, i: int) -> nat {
    u16_at(b, i) + 65536 * u16_at(b, i + 2)
}

/// An attribute: its total length and type on two bytes each, then its payload.
pub open spec fn attr(ty: u16, payload: Seq<u8>) -> Seq<u8> {
    le_bytes(payload.len() + 4, 2) + le_bytes(ty as nat, 2) + payload
}

/// An attribute holding a 64-bit value.
pub open spec fn u64_attr(ty: u16, v: u64) -> Seq<u8> {
    attr(ty, le_bytes(v as nat, 8))
}

/// The 32 bits of a descriptor, as an unsigned number.
pub open spec fn fd_bits(fd: i32) -> nat {
    if fd >= 0 {
        fd as nat
    } else {
        (fd + 4294967296) as nat
    }
}

/// One entry of the socket list: a nested attribute holding the descriptor's attribute.
pub open spec fn sock_item(fd: i32) -> Seq<u8> {
    attr(SOCK_ITEM | NLA_F_NESTED, attr(SOCK_FD, le_bytes(fd_bits(fd), 4)))
}

/// The entries for `fds`, in their order.
pub open spec fn sock_items(fds: Seq<i32>) -> Seq<u8>
    decreases fds.len(),
{
    if fds.len() == 0 {
        Seq::empty()
    } else {
        sock_items(fds.drop_last()) + sock_item(fds.last())
    }
}

/// The nested sockets attribute.
pub open spec fn sockets_attr(fds: Seq<i32>) -> Seq<u8> {
    attr(ATTR_SOCKETS | NLA_F_NESTED, sock_items(fds))
}

/// The attributes of a connect request, in their fixed order.
pub open spec fn connect_attrs(p: ConnectParams, fds: Seq<i32>) -> Seq<u8> {
    u64_attr(ATTR_SIZE_BYTES, p.size_bytes) + u64_attr(ATTR_BLOCK_SIZE_BYTES, p.block_size_bytes)
        + u64_attr(ATTR_SERVER_FLAGS, p.server_flags) + u64_attr(ATTR_CLIENT_FLAGS, p.client_flags)
        + sockets_attr(fds)
}

/// The generic netlink header of a connect command.
pub open spec fn genl_header() -> Seq<u8> {
    seq![CMD_CONNECT, GENL_VERSION, 0u8, 0u8]
}

/// The whole connect request addressed to `family`, with sequence number and port id 0.
pub open spec fn request_bytes(family: u16, p: ConnectParams, fds: Seq<i32>) -> Seq<u8> {
    let body = genl_header() + connect_attrs(p, fds);
    le_bytes(body.len() + 16, 4) + le_bytes(family as nat, 2) + le_bytes(NLM_F_REQUEST as nat, 2)
        + le_bytes(0, 4) + le_bytes(0, 4) + body
}

/// Append the `n` low bytes of `v`, least significant first.
fn push_le(out: &mut Vec<u8>, v: u64, n: usize)
    ensures
        final(out)@ == old(out)@ + le_bytes(v as nat, n as nat),
{
    let mut x: u64 = v;
    let mut i: usize = 0;
    while i < n
        invariant
            i <= n,
            out@ + le_bytes(x as nat, (n - i) as nat) == old(out)@ + le_bytes(v as nat, n as nat),
        decreases n - i,
    {
        let ghost before = out@;
        out.push((x % 256) as u8);
        assert(le_bytes(x as nat, (n - i) as nat) == seq![(x % 256) as u8] + le_bytes(
            (x / 256) as nat,
            (n - (i + 1)) as nat,
        ));
        assert(out@ + le_bytes((x / 256) as nat, (n - (i + 1)) as nat) =~= before + le_bytes(
            x as nat,
            (n - i) as nat,
        ));
        x = x / 256;
        i = i + 1;
    }
    assert(out@ =~= out@ + le_bytes(x as nat, 0));
}

/// Append an attribute header for a payload of `payload_len` bytes.
fn push_attr_header(out: &mut Vec<u8>, ty: u16, payload_len: u16)
    requires
        payload_len <= 65531,
    ensures
        final(out)@ == old(out)@ + le_bytes((payload_len + 4) as nat, 2) + le_bytes(ty as nat, 2),
{
    push_le(out, (payload_len + 4) as u64, 2);
    push_le(out, ty as u64, 2);
}

/// Append an attribute holding a 64-bit value.
fn push_u64_attr(out: &mut Vec<u8>, ty: u16, v: u64)
    ensures
        final(out)@ == old(out)@ + u64_attr(ty, v),
{
    let ghost start = out@;
    push_attr_header(out, ty, 8);
    push_le(out, v, 8);
    proof {
        lemma_le_bytes_len(v as nat, 8);
    }
    assert(out@ =~= start + u64_attr(ty, v));
}

/// Append one entry of the socket list.
fn push_sock_item(out: &mut Vec<u8>, fd: i32)
    ensures
        final(out)@ == old(out)@ + sock_item(fd),
{
    let ghost start = out@;
    push_attr_header(out, SOCK_ITEM | NLA_F_NESTED, 8);
    push_attr_header(out, SOCK_FD, 4);
    let bits: u64 = if fd >= 0 {
        fd as u64
    } else {
        (fd as i64 + 4294967296i64) as u64
    };
    push_le(out, bits, 4);
    proof {
        lemma_le_bytes_len(fd_bits(fd), 4);
        lemma_le_bytes_len(8, 2);
        lemma_le_bytes_len(SOCK_FD as nat, 2);
    }
    assert(out@ =~= start + sock_item(fd));
}

/// `le_bytes` has the length asked for.
pub proof fn lemma_le_bytes_len(v: nat, n: nat)
    ensures
        le_bytes(v, n).len() == n,
    decreases n,
{
    if n > 0 {
        lemma_le_bytes_len(v / 256, (n - 1) as nat);
    }
}

/// Each entry of the socket list takes twelve bytes.
pub proof fn lemma_sock_items_len(fds: Seq<i32>)
    ensures
        sock_items(fds).len() == SOCK_ITEM_LEN * fds.len(),
    decreases fds.len(),
{
    if fds.len() > 0 {
        lemma_sock_items_len(fds.drop_last());
        lemma_le_bytes_len(fd_bits(fds.last()), 4);
        lemma_le_bytes_len(8 + 4, 2);
        lemma_le_bytes_len(4 + 4, 2);
        lemma_le_bytes_len(SOCK_ITEM as nat, 2);
        lemma_le_bytes_len((SOCK_ITEM | NLA_F_NESTED) as nat, 2);
    }
}

/// The nested sockets attribute for `fds`.
pub fn encode_sockets(fds: &[i32]) -> (r: Vec<u8>)
    requires
        fds@.len() <= MAX_SOCKETS,
    ensures
        r@ == sockets_attr(fds@),
{
    let mut out: Vec<u8> = Vec::new();
    proof {
        lemma_sock_items_len(fds@);
    }
    push_attr_header(&mut out, ATTR_SOCKETS | NLA_F_NESTED, (fds.len() * SOCK_ITEM_LEN) as u16);
    let ghost head = out@;
    let mut i: usize = 0;
    while i < fds.len()
        invariant
            i <= fds@.len(),
            out@ == head + sock_items(fds@.subrange(0, i as int)),
        decreases fds@.len() - i,
    {
        push_sock_item(&mut out, fds[i]);
        assert(fds@.subrange(0, i + 1).drop_last() =~= fds@.subrange(0, i as int));
        assert(out@ =~= head + sock_items(fds@.subrange(0, i + 1)));
        i = i + 1;
    }
    assert(fds@.subrange(0, fds@.len() as int) =~= fds@);
    assert(out@ =~= sockets_attr(fds@));
    out
}

impl NBDConnect {
    /// The bytes of the connect request for this builder's parameters, addressed to `family`,
    /// attaching `fds` in their order.
    pub fn request(&self, family: u16, fds: &[i32]) -> (r: Vec<u8>)
        requires
            fds@.len() <= MAX_SOCKETS,
        ensures
            r@ == request_bytes(family, self@, fds@),
    {
        let p = self.params();
        let sockets = encode_sockets(fds);
        proof {
            lemma_sock_items_len(fds@);
            lemma_le_bytes_len(p.size_bytes as nat, 8);
            lemma_le_bytes_len(p.block_size_bytes as nat, 8);
            lemma_le_bytes_len(p.server_flags as nat, 8);
            lemma_le_bytes_len(p.client_flags as nat, 8);
            lemma_le_bytes_len(12, 2);
            lemma_le_bytes_len(ATTR_SIZE_BYTES as nat, 2);
            lemma_le_bytes_len(ATTR_BLOCK_SIZE_BYTES as nat, 2);
            lemma_le_bytes_len(ATTR_SERVER_FLAGS as nat, 2);
            lemma_le_bytes_len(ATTR_CLIENT_FLAGS as nat, 2);
            lemma_le_bytes_len(sock_items(fds@).len() + 4, 2);
            lemma_le_bytes_len((ATTR_SOCKETS | NLA_F_NESTED) as nat, 2);
        }
        let body_len: u32 = (GENL_HDRLEN + 4 * 12 + sockets.len()) as u32;
        let mut out: Vec<u8> = Vec::new();
        push_le(&mut out, (body_len + 16) as u64, 4);
        push_le(&mut out, family as u64, 2);
        push_le(&mut out, NLM_F_REQUEST as u64, 2);
        push_le(&mut out, 0, 4);
        push_le(&mut out, 0, 4);
        out.push(CMD_CONNECT);
        out.push(GENL_VERSION);
        out.push(0);
        out.push(0);
        let ghost head = out@;
        push_u64_attr(&mut out, ATTR_SIZE_BYTES, p.size_bytes);
        push_u64_attr(&mut out, ATTR_BLOCK_SIZE_BYTES, p.block_size_bytes);
        push_u64_attr(&mut out, ATTR_SERVER_FLAGS, p.server_flags);
        push_u64_attr(&mut out, ATTR_CLIENT_FLAGS, p.client_flags);
        let mut k: usize = 0;
        while k < sockets.len()
            invariant
                k <= sockets@.len(),
                out@ == head + u64_attr(ATTR_SIZE_BYTES, p.size_bytes) + u64_attr(
                    ATTR_BLOCK_SIZE_BYTES,
                    p.block_size_bytes,
                ) + u64_attr(ATTR_SERVER_FLAGS, p.server_flags) + u64_attr(
                    ATTR_CLIENT_FLAGS,
                    p.client_flags,
                ) + sockets@.subrange(0, k as int),
            decreases sockets@.len() - k,
        {
            out.push(sockets[k]);
            assert(sockets@.subrange(0, k + 1) =~= sockets@.subrange(0, k as int).push(sockets@[k as int]));
            k = k + 1;
        }
        assert(sockets@.subrange(0, sockets@.len() as int) =~= sockets@);
        assert(genl_header() + connect_attrs(p, fds@) =~= seq![CMD_CONNECT, GENL_VERSION, 0u8, 0u8] + (u64_attr(ATTR_SIZE_BYTES, p.size_bytes) + u64_attr(ATTR_BLOCK_SIZE_BYTES, p.block_size_bytes)
        + u64_attr(ATTR_SERVER_FLAGS, p.server_flags) + u64_attr(ATTR_CLIENT_FLAGS, p.client_flags)
        + sockets_attr(fds@)));
        assert(out@ =~= request_bytes(family, p, fds@));
        out
    }
}

/// Unfolding `le_bytes` by two bytes.
proof fn lemma_le_bytes_two(v: nat, n: nat)
    ensures
        le_bytes(v, n + 2) == seq![(v % 256) as u8, (v / 256 % 256) as u8] + le_bytes(
            v / 256 / 256,
            n,
        ),
{
    assert(le_bytes(v, n + 2) == seq![(v % 256) as u8] + le_bytes(v / 256, n + 1));
    assert(le_bytes(v / 256, n + 1) == seq![(v / 256 % 256) as u8] + le_bytes(v / 256 / 256, n));
    assert(le_bytes(v, n + 2) =~= seq![(v % 256) as u8, (v / 256 % 256) as u8] + le_bytes(
        v / 256 / 256,
        n,
    ));
}

/// Two bytes written by `le_bytes` read back as the number written.
pub proof fn lemma_le2_read(v: nat)
    requires
        v < 65536,
    ensures
        u16_at(le_bytes(v, 2), 0) == v,
{
    lemma_le_bytes_two(v, 0);
    let b = le_bytes(v, 2);
    assert(b[0] == (v % 256) as u8);
    assert(b[1] == (v / 256 % 256) as u8);
}

/// Four bytes written by `le_bytes` read back as the number written.
pub proof fn lemma_le4_read(v: nat)
    requires
        v < 4294967296,
    ensures
        u32_at(le_bytes(v, 4), 0) == v,
{
    let w = v / 256 / 256;
    lemma_le_bytes_two(v, 2);
    lemma_le_bytes_two(w, 0);
    let b = le_bytes(v, 4);
    assert(b[0] == (v % 256) as u8);
    assert(b[1] == (v / 256 % 256) as u8);
    assert(b[2] == (w % 256) as u8);
    assert(b[3] == (w / 256 % 256) as u8);
    assert(u16_at(b, 0) == v % 65536);
    assert(u16_at(b, 2) == w);
}

/// One entry of the socket list, read back: twelve bytes, a nested entry header, and inside it
/// a descriptor attribute of four bytes holding the descriptor.
pub proof fn lemma_sock_item_fields(fd: i32)
    ensures
        sock_item(fd).len() == SOCK_ITEM_LEN,
        u16_at(sock_item(fd), 0) == 12,
        u16_at(sock_item(fd), 2) == (SOCK_ITEM | NLA_F_NESTED) as nat,
        u16_at(sock_item(fd), 4) == 8,
        u16_at(sock_item(fd), 6) == SOCK_FD as nat,
        u32_at(sock_item(fd), 8) == fd_bits(fd),
{
    let inner = le_bytes(fd_bits(fd), 4);
    lemma_le_bytes_len(fd_bits(fd), 4);
    lemma_le_bytes_len(8, 2);
    lemma_le_bytes_len(12, 2);
    lemma_le_bytes_len(SOCK_FD as nat, 2);
    lemma_le_bytes_len((SOCK_ITEM | NLA_F_NESTED) as nat, 2);
    lemma_le2_read(12);
    lemma_le2_read(8);
    lemma_le2_read(SOCK_FD as nat);
    lemma_le2_read((SOCK_ITEM | NLA_F_NESTED) as nat);
    lemma_le4_read(fd_bits(fd));
    let it = sock_item(fd);
    assert(it.subrange(0, 2) =~= le_bytes(12, 2));
    assert(it.subrange(2, 4) =~= le_bytes((SOCK_ITEM | NLA_F_NESTED) as nat, 2));
    assert(it.subrange(4, 6) =~= le_bytes(8, 2));
    assert(it.subrange(6, 8) =~= le_bytes(SOCK_FD as nat, 2));
    assert(it.subrange(8, 12) =~= inner);
    assert(u16_at(it, 0) == u16_at(it.subrange(0, 2), 0));
    assert(u16_at(it, 2) == u16_at(it.subrange(2, 4), 0));
    assert(u16_at(it, 4) == u16_at(it.subrange(4, 6), 0));
    assert(u16_at(it, 6) == u16_at(it.subrange(6, 8), 0));
    assert(u32_at(it, 8) == u32_at(it.subrange(8, 12), 0));
}

proof fn lemma_sock_items_at(fds: Seq<i32>, i: int)
    requires
        0 <= i < fds.len(),
    ensures
        sock_items(fds).subrange(12 * i, 12 * i + 12) == sock_item(fds[i]),
    decreases fds.len(),
{
    let n = fds.len() as int;
    lemma_sock_items_len(fds.drop_last());
    lemma_sock_item_fields(fds.last());
    let s = sock_items(fds);
    if i < n - 1 {
        lemma_sock_items_at(fds.drop_last(), i);
        assert(s.subrange(12 * i, 12 * i + 12) =~= sock_items(fds.drop_last()).subrange(
            12 * i,
            12 * i + 12,
        ));
    } else {
        assert(s.subrange(12 * i, 12 * i + 12) =~= sock_item(fds.last()));
    }
}

/// For `n` descriptors the sockets attribute is a nested attribute of `4 + 12 * n` bytes whose
/// payload is `n` entries of twelve bytes, the `i`th holding the `i`th descriptor.
pub proof fn lemma_sockets_layout(fds: Seq<i32>)
    requires
        fds.len() <= MAX_SOCKETS,
    ensures
        sockets_attr(fds).len() == 4 + SOCK_ITEM_LEN * fds.len(),
        u16_at(sockets_attr(fds), 0) == 4 + SOCK_ITEM_LEN * fds.len(),
        u16_at(sockets_attr(fds), 2) == (ATTR_SOCKETS | NLA_F_NESTED) as nat,
        forall|i: int|
            #![trigger fds[i]]
            0 <= i < fds.len() ==> sockets_attr(fds).subrange(4 + 12 * i, 16 + 12 * i)
                == sock_item(fds[i]) && u32_at(sock_item(fds[i]), 8) == fd_bits(fds[i]),
{
    let s = sockets_attr(fds);
    let n = fds.len();
    lemma_sock_items_len(fds);
    lemma_le_bytes_len(4 + 12 * n, 2);
    lemma_le_bytes_len((ATTR_SOCKETS | NLA_F_NESTED) as nat, 2);
    lemma_le2_read(4 + 12 * n);
    lemma_le2_read((ATTR_SOCKETS | NLA_F_NESTED) as nat);
    assert(s.subrange(0, 2) =~= le_bytes(4 + 12 * n, 2));
    assert(s.subrange(2, 4) =~= le_bytes((ATTR_SOCKETS | NLA_F_NESTED) as nat, 2));
    assert(u16_at(s, 0) == u16_at(s.subrange(0, 2), 0));
    assert(u16_at(s, 2) == u16_at(s.subrange(2, 4), 0));
    assert forall|i: int|
        #![trigger fds[i]]
        0 <= i < fds.len() implies s.subrange(4 + 12 * i, 16 + 12 * i) == sock_item(fds[i])
        && u32_at(sock_item(fds[i]), 8) == fd_bits(fds[i]) by {
        lemma_sock_items_at(fds, i);
        lemma_sock_item_fields(fds[i]);
        assert(s.subrange(4 + 12 * i, 16 + 12 * i) =~= sock_items(fds).subrange(
            12 * i,
            12 * i + 12,
        ));
    }
}

/// The sockets attribute ends every connect request, whatever the descriptors; with none it is
/// an empty nested attribute of four bytes.
pub proof fn lemma_sockets_always_sent(family: u16, p: ConnectParams, fds: Seq<i32>)
    ensures
        ({
            let r = request_bytes(family, p, fds);
            let s = sockets_attr(fds);
            r.len() >= s.len() && r.subrange(r.len() - s.len(), r.len() as int) == s
        }),
        sockets_attr(Seq::empty()) == seq![4u8, 0u8, 7u8, 128u8],
{
    let r = request_bytes(family, p, fds);
    let s = sockets_attr(fds);
    assert(r.subrange(r.len() - s.len(), r.len() as int) =~= s);
    let e = sockets_attr(Seq::empty());
    assert(sock_items(Seq::<i32>::empty()) =~= Seq::<u8>::empty());
    lemma_le_bytes_two(4, 0);
    assert(le_bytes(4, 2) =~= seq![4u8, 0u8]);
    assert((ATTR_SOCKETS | NLA_F_NESTED) == 32775u16) by (bit_vector);
    lemma_le_bytes_two(32775, 0);
    assert(le_bytes((ATTR_SOCKETS | NLA_F_NESTED) as nat, 2) =~= seq![7u8, 128u8]);
    assert(e =~= seq![4u8, 0u8, 7u8, 128u8]);
}

} // verus!
