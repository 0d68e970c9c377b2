//! The `sysFlag` bitfield of a message: transaction type, host address
//! widths, and the inner-batch marker.

use vstd::prelude::*;

verus! {

/// Transaction bits of an ordinary (non-transactional) message.
pub const TRANSACTION_NOT_TYPE: u32 = 0;

/// Transaction bits of a prepared (half) transactional message.
pub const TRANSACTION_PREPARED_TYPE: u32 = 4;

/// Transaction bits of a transaction-commit message.
pub const TRANSACTION_COMMIT_TYPE: u32 = 8;

/// Transaction bits of a transaction-rollback message.
pub const TRANSACTION_ROLLBACK_TYPE: u32 = 12;

/// Mask selecting the transaction bits of `sysFlag`.
pub const TRANSACTION_TYPE_MASK: u32 = 12;

/// Set when `bornHost` is an IPv6 address (20-byte host field).
pub const BORNHOST_V6_FLAG: u32 = 16;

/// Set when `storeHost` is an IPv6 address (20-byte host field).
pub const STOREHOSTADDRESS_V6_FLAG: u32 = 32;

/// Set on inner-batch messages, which occupy several logical queue slots.
pub const INNER_BATCH_FLAG: u32 = 128;

/// The transaction bits of a `sysFlag` value.
pub open spec fn spec_transaction_value(sys_flag: u32) -> u32 {
    sys_flag & TRANSACTION_TYPE_MASK
}

/// Whether a message with this `sysFlag` consumes and advances the logical
/// queue counter: only ordinary and transaction-commit messages do.
pub open spec fn spec_advances_queue(sys_flag: u32) -> bool {
    spec_transaction_value(sys_flag) == TRANSACTION_NOT_TYPE || spec_transaction_value(sys_flag)
        == TRANSACTION_COMMIT_TYPE
}

/// The width in bytes of the `bornHost` frame field under this `sysFlag`.
pub open spec fn spec_born_host_len(sys_flag: u32) -> u32 {
    if sys_flag & BORNHOST_V6_FLAG == 0 {
        8
    } else {
        20
    }
}

/// The width in bytes of the `storeHost` frame field under this `sysFlag`.
pub open spec fn spec_store_host_len(sys_flag: u32) -> u32 {
    if sys_flag & STOREHOSTADDRESS_V6_FLAG == 0 {
        8
    } else {
        20
    }
}

/// The transaction bits of a `sysFlag` value.
pub fn transaction_value(sys_flag: u32) -> (r: u32)
    ensures
        r == spec_transaction_value(sys_flag),
{
    sys_flag & TRANSACTION_TYPE_MASK
}

/// Whether a message with this `sysFlag` advances the logical queue counter.
pub fn advances_queue(sys_flag: u32) -> (r: bool)
    ensures
        r == spec_advances_queue(sys_flag),
{
    let tran = transaction_value(sys_flag);
    tran == TRANSACTION_NOT_TYPE || tran == TRANSACTION_COMMIT_TYPE
}

/// The `sysFlag` after the append engine stamps the two host-width bits
/// from the actual host byte lengths (20 bytes means IPv6).
pub open spec fn spec_stamped_sysflag(f: u32, born_len: int, store_len: int) -> u32 {
    let f1 = if born_len == 20 {
        f | BORNHOST_V6_FLAG
    } else {
        f & !BORNHOST_V6_FLAG
    };
    if store_len == 20 {
        f1 | STOREHOSTADDRESS_V6_FLAG
    } else {
        f1 & !STOREHOSTADDRESS_V6_FLAG
    }
}

/// Setting or clearing a host-width bit touches no other bit the log
/// reads: the other width bit, the transaction bits and the batch bit
/// stay put.
proof fn lemma_v6_bit_ops(f: u32)
    by (bit_vector)
    ensures
        (f | 16u32) & 16u32 == 16u32,
        (f & !16u32) & 16u32 == 0u32,
        (f | 16u32) & 32u32 == f & 32u32,
        (f & !16u32) & 32u32 == f & 32u32,
        (f | 32u32) & 32u32 == 32u32,
        (f & !32u32) & 32u32 == 0u32,
        (f | 32u32) & 16u32 == f & 16u32,
        (f & !32u32) & 16u32 == f & 16u32,
        (f | 16u32) & 12u32 == f & 12u32,
        (f & !16u32) & 12u32 == f & 12u32,
        (f | 32u32) & 12u32 == f & 12u32,
        (f & !32u32) & 12u32 == f & 12u32,
        (f | 16u32) & 128u32 == f & 128u32,
        (f & !16u32) & 128u32 == f & 128u32,
        (f | 32u32) & 128u32 == f & 128u32,
        (f & !32u32) & 128u32 == f & 128u32,
{
}

/// The stamped `sysFlag` carries exactly the given host widths and keeps
/// the transaction and inner-batch bits.
pub proof fn lemma_stamped_sysflag(f: u32, born_len: int, store_len: int)
    requires
        born_len == 8 || born_len == 20,
        store_len == 8 || store_len == 20,
    ensures
        spec_born_host_len(spec_stamped_sysflag(f, born_len, store_len)) == born_len,
        spec_store_host_len(spec_stamped_sysflag(f, born_len, store_len)) == store_len,
        spec_transaction_value(spec_stamped_sysflag(f, born_len, store_len))
            == spec_transaction_value(f),
        spec_advances_queue(spec_stamped_sysflag(f, born_len, store_len))
            == spec_advances_queue(f),
        (spec_stamped_sysflag(f, born_len, store_len) & INNER_BATCH_FLAG) == (f
            & INNER_BATCH_FLAG),
{
    lemma_v6_bit_ops(f);
    lemma_v6_bit_ops(f | 16u32);
    lemma_v6_bit_ops(f & !16u32);
}

/// Whether the given flag bits are all set, as the broker tests them.
pub fn flag_check(sys_flag: u32, flag: u32) -> (r: bool)
    ensures
        r == ((sys_flag & flag) == flag),
{
    (sys_flag & flag) == flag
}

} // verus!
