//! The parameters of a connect request, set through a builder whose flag setters each
//! touch a single bit.
use vstd::prelude::*;

verus! {

/// Server flag: the flags field is valid. Always set.
pub const HAS_FLAGS: u64 = 1;

/// Server flag: the device is read-only.
pub const READ_ONLY: u64 = 2;

/// Server flag: the device may be served over several connections at once.
pub const CAN_MULTI_CONN: u64 = 256;

/// Client flag: disconnect the transport when the device is closed for the last time.
pub const DISCONNECT_ON_CLOSE: u64 = 2;

/// Default minimum block size, in bytes.
pub const DEFAULT_BLOCK_SIZE: u64 = 4096;

/// The four values that a connect request carries besides its sockets.
#[derive(Clone, Copy, Debug, PartialEq, Eq, Structural)]
pub struct ConnectParams {
    pub size_bytes: u64,
    pub block_size_bytes: u64,
    pub server_flags: u64,
    pub client_flags: u64,
}

/// `flags` with the bits of `bit` set when `on` holds, and cleared otherwise.
pub open spec fn with_bit(flags: u64, bit: u64, on: bool) -> u64 {
    if on {
        flags | bit
    } else {
        flags & !bit
    }
}

/// The parameters that a fresh builder holds.
pub open spec fn default_params() -> ConnectParams {
    ConnectParams {
        size_bytes: 0,
        block_size_bytes: DEFAULT_BLOCK_SIZE,
        server_flags: HAS_FLAGS,
        client_flags: 0,
    }
}

/// A builder for a connect request.
pub struct NBDConnect {
    size_bytes: u64,
    block_size_bytes: u64,
    server_flags: u64,
    client_flags: u64,
}

impl View for NBDConnect {
    type V = ConnectParams;

    closed spec fn view(&self) -> ConnectParams {
        ConnectParams {
            size_bytes: self.size_bytes,
            block_size_bytes: self.block_size_bytes,
            server_flags: self.server_flags,
            client_flags: self.client_flags,
        }
    }
}

impl NBDConnect {
    /// The builder's invariant: the flags-valid marker is set.
    pub open spec fn wf(&self) -> bool {
        self@.server_flags & HAS_FLAGS == HAS_FLAGS
    }

    /// Create a builder with size 0, block size 4096, only the flags-valid marker among the
    /// server flags, and no client flags.
    pub fn new() -> (r: Self)
        ensures
            r@ == default_params(),
            r.wf(),
    {
        let r = NBDConnect {
            size_bytes: 0,
            block_size_bytes: DEFAULT_BLOCK_SIZE,
            server_flags: HAS_FLAGS,
            client_flags: 0,
        };
        assert(HAS_FLAGS & HAS_FLAGS == HAS_FLAGS) by (bit_vector);
        r
    }

    /// The parameters that the builder holds.
    pub fn params(&self) -> (r: ConnectParams)
        ensures
            r == self@,
    {
        ConnectParams {
            size_bytes: self.size_bytes,
            block_size_bytes: self.block_size_bytes,
            server_flags: self.server_flags,
            client_flags: self.client_flags,
        }
    }

    /// Set the size of the device, in bytes.
    pub fn size_bytes(self, bytes: u64) -> (r: Self)
        ensures
            r@ == (ConnectParams { size_bytes: bytes, ..self@ }),
            self.wf() ==> r.wf(),
    {
        NBDConnect { size_bytes: bytes, ..self }
    }

    /// Set the minimum block size of the device, in bytes.
    pub fn block_size(self, bytes: u64) -> (r: Self)
        ensures
            r@ == (ConnectParams { block_size_bytes: bytes, ..self@ }),
            self.wf() ==> r.wf(),
    {
        NBDConnect { block_size_bytes: bytes, ..self }
    }

    /// Mark the device read-only, or clear that mark.
    pub fn read_only(self, read_only: bool) -> (r: Self)
        ensures
            r@ == (ConnectParams {
                server_flags: with_bit(self@.server_flags, READ_ONLY, read_only),
                ..self@
            }),
            self.wf() ==> r.wf(),
    {
        let f = self.server_flags;
        let server_flags = if read_only { f | READ_ONLY } else { f & !READ_ONLY };
        proof { lemma_marker_kept(f, READ_ONLY, read_only); }
        NBDConnect { server_flags, ..self }
    }

    /// Allow the device to be served over several connections at once, or forbid it.
    pub fn can_multi_conn(self, can_multi_conn: bool) -> (r: Self)
        ensures
            r@ == (ConnectParams {
                server_flags: with_bit(self@.server_flags, CAN_MULTI_CONN, can_multi_conn),
                ..self@
            }),
            self.wf() ==> r.wf(),
    {
        let f = self.server_flags;
        let server_flags = if can_multi_conn { f | CAN_MULTI_CONN } else { f & !CAN_MULTI_CONN };
        proof { lemma_marker_kept(f, CAN_MULTI_CONN, can_multi_conn); }
        NBDConnect { server_flags, ..self }
    }

    /// Have the kernel disconnect the transport when the device is closed for the last time,
    /// or not.
    pub fn disconnect_on_close(self, disconnect_on_close: bool) -> (r: Self)
        ensures
            r@ == (ConnectParams {
                client_flags: with_bit(
                    self@.client_flags,
                    DISCONNECT_ON_CLOSE,
                    disconnect_on_close,
                ),
                ..self@
            }),
            self.wf() ==> r.wf(),
    {
        let f = self.client_flags;
        let client_flags = if disconnect_on_close {
            f | DISCONNECT_ON_CLOSE
        } else {
            f & !DISCONNECT_ON_CLOSE
        };
        NBDConnect { client_flags, ..self }
    }
}

/// Setting or clearing a server flag leaves the flags-valid marker as it was, so no sequence of
/// setter calls can clear it.
pub proof fn lemma_marker_kept(flags: u64, bit: u64, on: bool)
    requires
        bit == READ_ONLY || bit == CAN_MULTI_CONN,
    ensures
        with_bit(flags, bit, on) & HAS_FLAGS == flags & HAS_FLAGS,
{
    if bit == READ_ONLY {
        assert((flags | 2u64) & 1u64 == flags & 1u64) by (bit_vector);
        assert((flags & !2u64) & 1u64 == flags & 1u64) by (bit_vector);
    } else {
        assert((flags | 256u64) & 1u64 == flags & 1u64) by (bit_vector);
        assert((flags & !256u64) & 1u64 == flags & 1u64) by (bit_vector);
    }
}

/// Setting or clearing one flag changes that bit alone, and setting it back to what it was
/// restores the mask bit for bit.
pub proof fn lemma_toggle_one_bit(flags: u64, bit: u64, on: bool)
    requires
        bit == READ_ONLY || bit == CAN_MULTI_CONN || bit == DISCONNECT_ON_CLOSE,
    ensures
        with_bit(flags, bit, on) & !bit == flags & !bit,
        with_bit(flags, bit, on) & bit == (if on { bit } else { 0 }),
        with_bit(with_bit(flags, bit, on), bit, flags & bit == bit) == flags,
{
    if bit == READ_ONLY {
        assert((flags | 2u64) & !2u64 == flags & !2u64) by (bit_vector);
        assert((flags & !2u64) & !2u64 == flags & !2u64) by (bit_vector);
        assert((flags | 2u64) & 2u64 == 2u64) by (bit_vector);
        assert((flags & !2u64) & 2u64 == 0u64) by (bit_vector);
        assert(flags & 2u64 == 2u64 ==> (flags | 2u64) | 2u64 == flags) by (bit_vector);
        assert(flags & 2u64 == 2u64 ==> (flags & !2u64) | 2u64 == flags) by (bit_vector);
        assert(flags & 2u64 != 2u64 ==> (flags | 2u64) & !2u64 == flags) by (bit_vector);
        assert(flags & 2u64 != 2u64 ==> (flags & !2u64) & !2u64 == flags) by (bit_vector);
    } else {
        assert((flags | 256u64) & !256u64 == flags & !256u64) by (bit_vector);
        assert((flags & !256u64) & !256u64 == flags & !256u64) by (bit_vector);
        assert((flags | 256u64) & 256u64 == 256u64) by (bit_vector);
        assert((flags & !256u64) & 256u64 == 0u64) by (bit_vector);
        assert(flags & 256u64 == 256u64 ==> (flags | 256u64) | 256u64 == flags) by (bit_vector);
        assert(flags & 256u64 == 256u64 ==> (flags & !256u64) | 256u64 == flags) by (bit_vector);
        assert(flags & 256u64 != 256u64 ==> (flags | 256u64) & !256u64 == flags) by (bit_vector);
        assert(flags & 256u64 != 256u64 ==> (flags & !256u64) & !256u64 == flags) by (bit_vector);
    }
}

} // verus!
