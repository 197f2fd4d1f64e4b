//! Reading the kernel's reply to a connect request, and the errors of the connect exchange.
use vstd::prelude::*;

use crate::wire::{u16_at, u32_at, ATTR_INDEX, CMD_CONNECT, GENL_HDRLEN, NLMSG_HDRLEN};

verus! {

/// What can go wrong while resolving the family or connecting a device.
#[derive(Clone, Copy, Debug, PartialEq, Eq, Structural)]
pub enum NbdError {
    /// The kernel has no `nbd` generic netlink family.
    FamilyNotFound,
    /// Sending the request failed.
    TransmitFailure,
    /// No reply came before the channel closed.
    NoResponse,
    /// The reply is not addressed to the family, or not an answer to the connect command.
    ProtocolMismatch,
    /// The reply lacks the device index, or holds it with the wrong width.
    MalformedResponse,
}

/// An attribute's type is its type field modulo this number: the two top bits are flags.
pub const NLA_TYPE_MOD: u16 = 16384;

/// `n` rounded up to a multiple of four.
pub open spec fn align4(n: nat) -> nat {
    ((n + 3) / 4 * 4) as nat
}

/// The device index among the attributes `a`: the first attribute whose type is the index type
/// decides; it must hold exactly four bytes. An attribute header that runs past the end, or a
/// list without that attribute, gives `MalformedResponse`.
pub open spec fn find_index(a: Seq<u8>) -> Result<u32, NbdError>
    decreases a.len(),
{
    if a.len() < 4 {
        Err(NbdError::MalformedResponse)
    } else {
        let len = u16_at(a, 0);
        let ty = u16_at(a, 2) % NLA_TYPE_MOD as nat;
        if len < 4 || len > a.len() {
            Err(NbdError::MalformedResponse)
        } else if ty == ATTR_INDEX {
            if len == 8 {
                Ok(u32_at(a, 4) as u32)
            } else {
                Err(NbdError::MalformedResponse)
            }
        } else if align4(len) >= a.len() {
            Err(NbdError::MalformedResponse)
        } else {
            find_index(a.subrange(align4(len) as int, a.len() as int))
        }
    }
}

/// What a reply `b` to a connect request addressed to `family` means. Its first 20 bytes are
/// the netlink and generic netlink headers; the length in the first must lie between 20 and
/// the bytes at hand.
pub open spec fn reply_result(b: Seq<u8>, family: u16) -> Result<u32, NbdError> {
    if b.len() < 20 || u32_at(b, 0) < 20 || u32_at(b, 0) > b.len() {
        Err(NbdError::MalformedResponse)
    } else if u16_at(b, 4) != family || b[16] != CMD_CONNECT {
        Err(NbdError::ProtocolMismatch)
    } else {
        find_index(b.subrange(20, u32_at(b, 0) as int))
    }
}

/// What the connect exchange yields once the reply, if any, has been read.
pub open spec fn connect_result(reply: Option<Seq<u8>>, family: u16) -> Result<u32, NbdError> {
    match reply {
        None => Err(NbdError::NoResponse),
        Some(b) => reply_result(b, family),
    }
}

fn read_u16(b: &[u8], i: usize) -> (r: u16)
    requires
        i + 2 <= b@.len(),
    ensures
        r == u16_at(b@, i as int),
{
    b[i] as u16 + 256 * (b[i + 1] as u16)
}

fn read_u32(b: &[u8], i: usize) -> (r: u32)
    requires
        i + 4 <= b@.len(),
    ensures
        r == u32_at(b@, i as int),
{
    let n = b.len();
    assert(i + 4 <= n);
    let lo = read_u16(b, i);
    let hi = read_u16(b, i + 2);
    assert(65536 * (hi as int) <= 65536 * 65535) by (nonlinear_arith)
        requires
            hi <= 65535,
    ;
    lo as u32 + 65536 * (hi as u32)
}

/// Read the device index out of a reply to a connect request addressed to `family`.
pub fn parse_reply(b: &[u8], family: u16) -> (r: Result<u32, NbdError>)
    ensures
        r == reply_result(b@, family),
{
    if b.len() < NLMSG_HDRLEN + GENL_HDRLEN {
        return Err(NbdError::MalformedResponse);
    }
    let msg_len = read_u32(b, 0);
    if msg_len < 20 || msg_len as usize > b.len() {
        return Err(NbdError::MalformedResponse);
    }
    if read_u16(b, 4) != family || b[16] != CMD_CONNECT {
        return Err(NbdError::ProtocolMismatch);
    }
    let end: usize = msg_len as usize;
    let ghost attrs = b@.subrange(20, end as int);
    let mut pos: usize = 20;
    while end - pos >= 4
        invariant
            20 <= pos <= end,
            end <= b@.len(),
            reply_result(b@, family) == find_index(attrs),
            find_index(b@.subrange(pos as int, end as int)) == find_index(attrs),
        decreases end - pos,
    {
        let ghost a = b@.subrange(pos as int, end as int);
        let len = read_u16(b, pos);
        let ty = read_u16(b, pos + 2) % NLA_TYPE_MOD;
        assert(u16_at(a, 0) == len && u16_at(a, 2) % NLA_TYPE_MOD as nat == ty);
        assert(a.len() == end - pos);
        if len < 4 || len as usize > end - pos {
            assert(find_index(a) == Err::<u32, NbdError>(NbdError::MalformedResponse));
            return Err(NbdError::MalformedResponse);
        }
        if ty == ATTR_INDEX {
            if len == 8 {
                let v = read_u32(b, pos + 4);
                assert(u32_at(a, 4) == v);
                return Ok(v);
            }
            return Err(NbdError::MalformedResponse);
        }
        let step: usize = ((len as usize + 3) / 4) * 4;
        assert(step == align4(len as nat));
        if step >= end - pos {
            assert(find_index(a) == Err::<u32, NbdError>(NbdError::MalformedResponse));
            return Err(NbdError::MalformedResponse);
        }
        assert(a.subrange(step as int, a.len() as int) =~= b@.subrange(pos + step, end as int));
        pos = pos + step;
    }
    Err(NbdError::MalformedResponse)
}

/// Read the device index out of the reply that came back, if any came back.
pub fn connect_reply(reply: Option<&[u8]>, family: u16) -> (r: Result<u32, NbdError>)
    ensures
        r == connect_result(
            match reply {
                Some(b) => Some(b@),
                None => None,
            },
            family,
        ),
{
    match reply {
        Some(b) => parse_reply(b, family),
        None => Err(NbdError::NoResponse),
    }
}

/// A reply can only yield an index that one of its attributes of the index type holds, on four
/// bytes: a reply lacking that attribute never yields an index.
pub proof fn lemma_index_comes_from_reply(b: Seq<u8>, family: u16)
    ensures
        reply_result(b, family) is Ok ==> exists|o: int|
            #![trigger u16_at(b, o)]
            20 <= o && o + 8 <= b.len() && u16_at(b, o) == 8 && u16_at(b, o + 2) % NLA_TYPE_MOD as nat
                == ATTR_INDEX as nat && u32_at(b, o + 4) as u32 == reply_result(b, family)->Ok_0,
{
    if b.len() >= 20 && 20 <= u32_at(b, 0) <= b.len() && u16_at(b, 4) == family && b[16]
        == CMD_CONNECT {
        lemma_find_index_ok(b, 20, u32_at(b, 0) as int);
    }
}

proof fn lemma_find_index_ok(b: Seq<u8>, start: int, end: int)
    requires
        0 <= start <= end <= b.len(),
    ensures
        find_index(b.subrange(start, end)) is Ok ==> exists|o: int|
            #![trigger u16_at(b, o)]
            start <= o && o + 8 <= end && u16_at(b, o) == 8 && u16_at(b, o + 2) % NLA_TYPE_MOD as nat
                == ATTR_INDEX as nat && u32_at(b, o + 4) as u32 == find_index(
                b.subrange(start, end),
            )->Ok_0,
    decreases end - start,
{
    let a = b.subrange(start, end);
    if a.len() >= 4 {
        let len = u16_at(a, 0);
        if 4 <= len <= a.len() && u16_at(a, 2) % NLA_TYPE_MOD as nat != ATTR_INDEX && align4(len) < a.len() {
            let step = align4(len) as int;
            assert(a.subrange(step, a.len() as int) =~= b.subrange(start + step, end));
            lemma_find_index_ok(b, start + step, end);
        } else if 4 <= len <= a.len() && u16_at(a, 2) % NLA_TYPE_MOD as nat == ATTR_INDEX && len == 8 {
            assert(u16_at(b, start) == u16_at(a, 0));
            assert(u16_at(b, start + 2) == u16_at(a, 2));
            assert(u32_at(b, start + 4) == u32_at(a, 4));
        }
    }
}

/// A reply whose headers are whole and name the family and the connect command yields an index
/// or `MalformedResponse`, and nothing else.
pub proof fn lemma_well_addressed_reply(b: Seq<u8>, family: u16)
    requires
        b.len() >= 20,
        20 <= u32_at(b, 0) <= b.len(),
        u16_at(b, 4) == family,
        b[16] == CMD_CONNECT,
    ensures
        reply_result(b, family) is Ok || reply_result(b, family) == Err::<u32, NbdError>(
            NbdError::MalformedResponse,
        ),
{
    lemma_find_index_err(b.subrange(20, u32_at(b, 0) as int));
}

proof fn lemma_find_index_err(a: Seq<u8>)
    ensures
        find_index(a) is Ok || find_index(a) == Err::<u32, NbdError>(NbdError::MalformedResponse),
    decreases a.len(),
{
    if a.len() >= 4 {
        let len = u16_at(a, 0);
        if 4 <= len <= a.len() && u16_at(a, 2) % NLA_TYPE_MOD as nat != ATTR_INDEX && align4(len) < a.len() {
            lemma_find_index_err(a.subrange(align4(len) as int, a.len() as int));
        }
    }
}

/// A reply whose headers are whole but whose family differs from the resolved one yields
/// `ProtocolMismatch`.
pub proof fn lemma_family_mismatch(b: Seq<u8>, family: u16)
    requires
        b.len() >= 20,
        20 <= u32_at(b, 0) <= b.len(),
        u16_at(b, 4) != family,
    ensures
        reply_result(b, family) == Err::<u32, NbdError>(NbdError::ProtocolMismatch),
{
}

} // verus!
