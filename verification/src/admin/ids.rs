//! The numbers by which a `prometheus` registry tells metrics apart.

use vstd::prelude::*;
use vstd::utf8::*;

verus! {

/// What the FNV-1a hash of no bytes is.
pub const FNV_START: u64 = 0xcbf29ce484222325;

/// How one byte goes into an FNV-1a hash.
pub open spec fn fnv_step(hash: u64, byte: u8) -> u64 {
    #[verifier::truncate]
    (((hash ^ (byte as u64)) * 0x100000001b3) as u64)
}

/// The FNV-1a hash of a byte string.
pub open spec fn fnv(bytes: Seq<u8>) -> u64
    decreases bytes.len(),
{
    if bytes.len() == 0 {
        FNV_START
    } else {
        fnv_step(fnv(bytes.drop_last()), bytes.last())
    }
}

/// The number of a metric without constant labels, as `prometheus::core::Desc::new` computes it: the
/// hash of its name and a separator.
pub open spec fn metric_id(name: Seq<char>) -> u64 {
    fnv(encode_utf8(name).push(0xff))
}

/// How four bytes go into a hash.
spec fn four(hash: u64, a: u8, b: u8, c: u8, d: u8) -> u64 {
    fnv_step(fnv_step(fnv_step(fnv_step(hash, a), b), c), d)
}

/// One more byte.
proof fn lemma_one(bytes: Seq<u8>, i: int)
    requires
        0 <= i < bytes.len(),
    ensures
        fnv(bytes.take(i + 1)) == fnv_step(fnv(bytes.take(i)), bytes[i]),
{
    assert(bytes.take(i + 1).drop_last() =~= bytes.take(i));
}

/// Four more bytes.
proof fn lemma_four(bytes: Seq<u8>, i: int)
    requires
        0 <= i <= bytes.len() - 4,
    ensures
        fnv(bytes.take(i + 4)) == four(
            fnv(bytes.take(i)),
            bytes[i],
            bytes[i + 1],
            bytes[i + 2],
            bytes[i + 3],
        ),
{
    lemma_one(bytes, i);
    lemma_one(bytes, i + 1);
    lemma_one(bytes, i + 2);
    lemma_one(bytes, i + 3);
}

/// The number of `pgmux_client_connections_total`.
pub(crate) proof fn lemma_client_connections_total()
    ensures
        metric_id("pgmux_client_connections_total"@) == 0xad0adb3cb6443fd4,
{
    reveal_strlit("pgmux_client_connections_total");
    is_ascii_chars_encode_utf8("pgmux_client_connections_total"@);
    let bytes = encode_utf8("pgmux_client_connections_total"@).push(0xff);
    lemma_four(bytes, 0);
    lemma_four(bytes, 4);
    lemma_four(bytes, 8);
    lemma_four(bytes, 12);
    lemma_four(bytes, 16);
    lemma_four(bytes, 20);
    lemma_four(bytes, 24);
    lemma_one(bytes, 28);
    lemma_one(bytes, 29);
    lemma_one(bytes, 30);
    assert(bytes.take(31) =~= bytes);
    assert({
        let hash = FNV_START;
        let hash = four(hash, 0x70, 0x67, 0x6d, 0x75);
        let hash = four(hash, 0x78, 0x5f, 0x63, 0x6c);
        let hash = four(hash, 0x69, 0x65, 0x6e, 0x74);
        let hash = four(hash, 0x5f, 0x63, 0x6f, 0x6e);
        let hash = four(hash, 0x6e, 0x65, 0x63, 0x74);
        let hash = four(hash, 0x69, 0x6f, 0x6e, 0x73);
        let hash = four(hash, 0x5f, 0x74, 0x6f, 0x74);
        let hash = fnv_step(hash, 0x61);
        let hash = fnv_step(hash, 0x6c);
        let hash = fnv_step(hash, 0xff);
        hash == 0xad0adb3cb6443fd4
    }) by (bit_vector);
}

/// The number of `pgmux_client_connections_active`.
pub(crate) proof fn lemma_client_connections_active()
    ensures
        metric_id("pgmux_client_connections_active"@) == 0xeb0f710656f99516,
{
    reveal_strlit("pgmux_client_connections_active");
    is_ascii_chars_encode_utf8("pgmux_client_connections_active"@);
    let bytes = encode_utf8("pgmux_client_connections_active"@).push(0xff);
    lemma_four(bytes, 0);
    lemma_four(bytes, 4);
    lemma_four(bytes, 8);
    lemma_four(bytes, 12);
    lemma_four(bytes, 16);
    lemma_four(bytes, 20);
    lemma_four(bytes, 24);
    lemma_four(bytes, 28);
    assert(bytes.take(32) =~= bytes);
    assert({
        let hash = FNV_START;
        let hash = four(hash, 0x70, 0x67, 0x6d, 0x75);
        let hash = four(hash, 0x78, 0x5f, 0x63, 0x6c);
        let hash = four(hash, 0x69, 0x65, 0x6e, 0x74);
        let hash = four(hash, 0x5f, 0x63, 0x6f, 0x6e);
        let hash = four(hash, 0x6e, 0x65, 0x63, 0x74);
        let hash = four(hash, 0x69, 0x6f, 0x6e, 0x73);
        let hash = four(hash, 0x5f, 0x61, 0x63, 0x74);
        let hash = four(hash, 0x69, 0x76, 0x65, 0xff);
        hash == 0xeb0f710656f99516
    }) by (bit_vector);
}

/// The number of `pgmux_server_connections_total`.
pub(crate) proof fn lemma_server_connections_total()
    ensures
        metric_id("pgmux_server_connections_total"@) == 0x5a42fd364d91b270,
{
    reveal_strlit("pgmux_server_connections_total");
    is_ascii_chars_encode_utf8("pgmux_server_connections_total"@);
    let bytes = encode_utf8("pgmux_server_connections_total"@).push(0xff);
    lemma_four(bytes, 0);
    lemma_four(bytes, 4);
    lemma_four(bytes, 8);
    lemma_four(bytes, 12);
    lemma_four(bytes, 16);
    lemma_four(bytes, 20);
    lemma_four(bytes, 24);
    lemma_one(bytes, 28);
    lemma_one(bytes, 29);
    lemma_one(bytes, 30);
    assert(bytes.take(31) =~= bytes);
    assert({
        let hash = FNV_START;
        let hash = four(hash, 0x70, 0x67, 0x6d, 0x75);
        let hash = four(hash, 0x78, 0x5f, 0x73, 0x65);
        let hash = four(hash, 0x72, 0x76, 0x65, 0x72);
        let hash = four(hash, 0x5f, 0x63, 0x6f, 0x6e);
        let hash = four(hash, 0x6e, 0x65, 0x63, 0x74);
        let hash = four(hash, 0x69, 0x6f, 0x6e, 0x73);
        let hash = four(hash, 0x5f, 0x74, 0x6f, 0x74);
        let hash = fnv_step(hash, 0x61);
        let hash = fnv_step(hash, 0x6c);
        let hash = fnv_step(hash, 0xff);
        hash == 0x5a42fd364d91b270
    }) by (bit_vector);
}

/// The number of `pgmux_server_connections_active`.
pub(crate) proof fn lemma_server_connections_active()
    ensures
        metric_id("pgmux_server_connections_active"@) == 0x100f44d90b3734e2,
{
    reveal_strlit("pgmux_server_connections_active");
    is_ascii_chars_encode_utf8("pgmux_server_connections_active"@);
    let bytes = encode_utf8("pgmux_server_connections_active"@).push(0xff);
    lemma_four(bytes, 0);
    lemma_four(bytes, 4);
    lemma_four(bytes, 8);
    lemma_four(bytes, 12);
    lemma_four(bytes, 16);
    lemma_four(bytes, 20);
    lemma_four(bytes, 24);
    lemma_four(bytes, 28);
    assert(bytes.take(32) =~= bytes);
    assert({
        let hash = FNV_START;
        let hash = four(hash, 0x70, 0x67, 0x6d, 0x75);
        let hash = four(hash, 0x78, 0x5f, 0x73, 0x65);
        let hash = four(hash, 0x72, 0x76, 0x65, 0x72);
        let hash = four(hash, 0x5f, 0x63, 0x6f, 0x6e);
        let hash = four(hash, 0x6e, 0x65, 0x63, 0x74);
        let hash = four(hash, 0x69, 0x6f, 0x6e, 0x73);
        let hash = four(hash, 0x5f, 0x61, 0x63, 0x74);
        let hash = four(hash, 0x69, 0x76, 0x65, 0xff);
        hash == 0x100f44d90b3734e2
    }) by (bit_vector);
}

/// The number of `pgmux_server_connection_errors_total`.
pub(crate) proof fn lemma_server_connection_errors_total()
    ensures
        metric_id("pgmux_server_connection_errors_total"@) == 0x12efac15c0d83e11,
{
    reveal_strlit("pgmux_server_connection_errors_total");
    is_ascii_chars_encode_utf8("pgmux_server_connection_errors_total"@);
    let bytes = encode_utf8("pgmux_server_connection_errors_total"@).push(0xff);
    lemma_four(bytes, 0);
    lemma_four(bytes, 4);
    lemma_four(bytes, 8);
    lemma_four(bytes, 12);
    lemma_four(bytes, 16);
    lemma_four(bytes, 20);
    lemma_four(bytes, 24);
    lemma_four(bytes, 28);
    lemma_four(bytes, 32);
    lemma_one(bytes, 36);
    assert(bytes.take(37) =~= bytes);
    assert({
        let hash = FNV_START;
        let hash = four(hash, 0x70, 0x67, 0x6d, 0x75);
        let hash = four(hash, 0x78, 0x5f, 0x73, 0x65);
        let hash = four(hash, 0x72, 0x76, 0x65, 0x72);
        let hash = four(hash, 0x5f, 0x63, 0x6f, 0x6e);
        let hash = four(hash, 0x6e, 0x65, 0x63, 0x74);
        let hash = four(hash, 0x69, 0x6f, 0x6e, 0x5f);
        let hash = four(hash, 0x65, 0x72, 0x72, 0x6f);
        let hash = four(hash, 0x72, 0x73, 0x5f, 0x74);
        let hash = four(hash, 0x6f, 0x74, 0x61, 0x6c);
        let hash = fnv_step(hash, 0xff);
        hash == 0x12efac15c0d83e11
    }) by (bit_vector);
}

/// The number of `pgmux_pool_hits_total`.
pub(crate) proof fn lemma_pool_hits_total()
    ensures
        metric_id("pgmux_pool_hits_total"@) == 0x3782f45db4785ef2,
{
    reveal_strlit("pgmux_pool_hits_total");
    is_ascii_chars_encode_utf8("pgmux_pool_hits_total"@);
    let bytes = encode_utf8("pgmux_pool_hits_total"@).push(0xff);
    lemma_four(bytes, 0);
    lemma_four(bytes, 4);
    lemma_four(bytes, 8);
    lemma_four(bytes, 12);
    lemma_four(bytes, 16);
    lemma_one(bytes, 20);
    lemma_one(bytes, 21);
    assert(bytes.take(22) =~= bytes);
    assert({
        let hash = FNV_START;
        let hash = four(hash, 0x70, 0x67, 0x6d, 0x75);
        let hash = four(hash, 0x78, 0x5f, 0x70, 0x6f);
        let hash = four(hash, 0x6f, 0x6c, 0x5f, 0x68);
        let hash = four(hash, 0x69, 0x74, 0x73, 0x5f);
        let hash = four(hash, 0x74, 0x6f, 0x74, 0x61);
        let hash = fnv_step(hash, 0x6c);
        let hash = fnv_step(hash, 0xff);
        hash == 0x3782f45db4785ef2
    }) by (bit_vector);
}

/// The number of `pgmux_pool_misses_total`.
pub(crate) proof fn lemma_pool_misses_total()
    ensures
        metric_id("pgmux_pool_misses_total"@) == 0xf93cb2faebd84a84,
{
    reveal_strlit("pgmux_pool_misses_total");
    is_ascii_chars_encode_utf8("pgmux_pool_misses_total"@);
    let bytes = encode_utf8("pgmux_pool_misses_total"@).push(0xff);
    lemma_four(bytes, 0);
    lemma_four(bytes, 4);
    lemma_four(bytes, 8);
    lemma_four(bytes, 12);
    lemma_four(bytes, 16);
    lemma_four(bytes, 20);
    assert(bytes.take(24) =~= bytes);
    assert({
        let hash = FNV_START;
        let hash = four(hash, 0x70, 0x67, 0x6d, 0x75);
        let hash = four(hash, 0x78, 0x5f, 0x70, 0x6f);
        let hash = four(hash, 0x6f, 0x6c, 0x5f, 0x6d);
        let hash = four(hash, 0x69, 0x73, 0x73, 0x65);
        let hash = four(hash, 0x73, 0x5f, 0x74, 0x6f);
        let hash = four(hash, 0x74, 0x61, 0x6c, 0xff);
        hash == 0xf93cb2faebd84a84
    }) by (bit_vector);
}

/// The number of `pgmux_pool_timeouts_total`.
pub(crate) proof fn lemma_pool_timeouts_total()
    ensures
        metric_id("pgmux_pool_timeouts_total"@) == 0x922af8a8fdb2618c,
{
    reveal_strlit("pgmux_pool_timeouts_total");
    is_ascii_chars_encode_utf8("pgmux_pool_timeouts_total"@);
    let bytes = encode_utf8("pgmux_pool_timeouts_total"@).push(0xff);
    lemma_four(bytes, 0);
    lemma_four(bytes, 4);
    lemma_four(bytes, 8);
    lemma_four(bytes, 12);
    lemma_four(bytes, 16);
    lemma_four(bytes, 20);
    lemma_one(bytes, 24);
    lemma_one(bytes, 25);
    assert(bytes.take(26) =~= bytes);
    assert({
        let hash = FNV_START;
        let hash = four(hash, 0x70, 0x67, 0x6d, 0x75);
        let hash = four(hash, 0x78, 0x5f, 0x70, 0x6f);
        let hash = four(hash, 0x6f, 0x6c, 0x5f, 0x74);
        let hash = four(hash, 0x69, 0x6d, 0x65, 0x6f);
        let hash = four(hash, 0x75, 0x74, 0x73, 0x5f);
        let hash = four(hash, 0x74, 0x6f, 0x74, 0x61);
        let hash = fnv_step(hash, 0x6c);
        let hash = fnv_step(hash, 0xff);
        hash == 0x922af8a8fdb2618c
    }) by (bit_vector);
}

/// The number of `pgmux_db_size_bytes`.
pub(crate) proof fn lemma_db_size_bytes()
    ensures
        metric_id("pgmux_db_size_bytes"@) == 0x146dc46eb99d2558,
{
    reveal_strlit("pgmux_db_size_bytes");
    is_ascii_chars_encode_utf8("pgmux_db_size_bytes"@);
    let bytes = encode_utf8("pgmux_db_size_bytes"@).push(0xff);
    lemma_four(bytes, 0);
    lemma_four(bytes, 4);
    lemma_four(bytes, 8);
    lemma_four(bytes, 12);
    lemma_four(bytes, 16);
    assert(bytes.take(20) =~= bytes);
    assert({
        let hash = FNV_START;
        let hash = four(hash, 0x70, 0x67, 0x6d, 0x75);
        let hash = four(hash, 0x78, 0x5f, 0x64, 0x62);
        let hash = four(hash, 0x5f, 0x73, 0x69, 0x7a);
        let hash = four(hash, 0x65, 0x5f, 0x62, 0x79);
        let hash = four(hash, 0x74, 0x65, 0x73, 0xff);
        hash == 0x146dc46eb99d2558
    }) by (bit_vector);
}

/// The number of `pgmux_db_size_limit_bytes`.
pub(crate) proof fn lemma_db_size_limit_bytes()
    ensures
        metric_id("pgmux_db_size_limit_bytes"@) == 0xbbe5e49815b375e4,
{
    reveal_strlit("pgmux_db_size_limit_bytes");
    is_ascii_chars_encode_utf8("pgmux_db_size_limit_bytes"@);
    let bytes = encode_utf8("pgmux_db_size_limit_bytes"@).push(0xff);
    lemma_four(bytes, 0);
    lemma_four(bytes, 4);
    lemma_four(bytes, 8);
    lemma_four(bytes, 12);
    lemma_four(bytes, 16);
    lemma_four(bytes, 20);
    lemma_one(bytes, 24);
    lemma_one(bytes, 25);
    assert(bytes.take(26) =~= bytes);
    assert({
        let hash = FNV_START;
        let hash = four(hash, 0x70, 0x67, 0x6d, 0x75);
        let hash = four(hash, 0x78, 0x5f, 0x64, 0x62);
        let hash = four(hash, 0x5f, 0x73, 0x69, 0x7a);
        let hash = four(hash, 0x65, 0x5f, 0x6c, 0x69);
        let hash = four(hash, 0x6d, 0x69, 0x74, 0x5f);
        let hash = four(hash, 0x62, 0x79, 0x74, 0x65);
        let hash = fnv_step(hash, 0x73);
        let hash = fnv_step(hash, 0xff);
        hash == 0xbbe5e49815b375e4
    }) by (bit_vector);
}

/// The number of `pgmux_db_over_limit`.
pub(crate) proof fn lemma_db_over_limit()
    ensures
        metric_id("pgmux_db_over_limit"@) == 0xa9c3f6b51ed0abb1,
{
    reveal_strlit("pgmux_db_over_limit");
    is_ascii_chars_encode_utf8("pgmux_db_over_limit"@);
    let bytes = encode_utf8("pgmux_db_over_limit"@).push(0xff);
    lemma_four(bytes, 0);
    lemma_four(bytes, 4);
    lemma_four(bytes, 8);
    lemma_four(bytes, 12);
    lemma_four(bytes, 16);
    assert(bytes.take(20) =~= bytes);
    assert({
        let hash = FNV_START;
        let hash = four(hash, 0x70, 0x67, 0x6d, 0x75);
        let hash = four(hash, 0x78, 0x5f, 0x64, 0x62);
        let hash = four(hash, 0x5f, 0x6f, 0x76, 0x65);
        let hash = four(hash, 0x72, 0x5f, 0x6c, 0x69);
        let hash = four(hash, 0x6d, 0x69, 0x74, 0xff);
        hash == 0xa9c3f6b51ed0abb1
    }) by (bit_vector);
}

/// The number of `pgmux_queries_total`.
pub(crate) proof fn lemma_queries_total()
    ensures
        metric_id("pgmux_queries_total"@) == 0xde496ed080626cb1,
{
    reveal_strlit("pgmux_queries_total");
    is_ascii_chars_encode_utf8("pgmux_queries_total"@);
    let bytes = encode_utf8("pgmux_queries_total"@).push(0xff);
    lemma_four(bytes, 0);
    lemma_four(bytes, 4);
    lemma_four(bytes, 8);
    lemma_four(bytes, 12);
    lemma_four(bytes, 16);
    assert(bytes.take(20) =~= bytes);
    assert({
        let hash = FNV_START;
        let hash = four(hash, 0x70, 0x67, 0x6d, 0x75);
        let hash = four(hash, 0x78, 0x5f, 0x71, 0x75);
        let hash = four(hash, 0x65, 0x72, 0x69, 0x65);
        let hash = four(hash, 0x73, 0x5f, 0x74, 0x6f);
        let hash = four(hash, 0x74, 0x61, 0x6c, 0xff);
        hash == 0xde496ed080626cb1
    }) by (bit_vector);
}

/// The number of `pgmux_queries_read_only_enforced`.
pub(crate) proof fn lemma_queries_read_only_enforced()
    ensures
        metric_id("pgmux_queries_read_only_enforced"@) == 0x6f98b6a295daf639,
{
    reveal_strlit("pgmux_queries_read_only_enforced");
    is_ascii_chars_encode_utf8("pgmux_queries_read_only_enforced"@);
    let bytes = encode_utf8("pgmux_queries_read_only_enforced"@).push(0xff);
    lemma_four(bytes, 0);
    lemma_four(bytes, 4);
    lemma_four(bytes, 8);
    lemma_four(bytes, 12);
    lemma_four(bytes, 16);
    lemma_four(bytes, 20);
    lemma_four(bytes, 24);
    lemma_four(bytes, 28);
    lemma_one(bytes, 32);
    assert(bytes.take(33) =~= bytes);
    assert({
        let hash = FNV_START;
        let hash = four(hash, 0x70, 0x67, 0x6d, 0x75);
        let hash = four(hash, 0x78, 0x5f, 0x71, 0x75);
        let hash = four(hash, 0x65, 0x72, 0x69, 0x65);
        let hash = four(hash, 0x73, 0x5f, 0x72, 0x65);
        let hash = four(hash, 0x61, 0x64, 0x5f, 0x6f);
        let hash = four(hash, 0x6e, 0x6c, 0x79, 0x5f);
        let hash = four(hash, 0x65, 0x6e, 0x66, 0x6f);
        let hash = four(hash, 0x72, 0x63, 0x65, 0x64);
        let hash = fnv_step(hash, 0xff);
        hash == 0x6f98b6a295daf639
    }) by (bit_vector);
}

} // verus!
