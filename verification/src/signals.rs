//! The kernel-signal collector: turns the four kernel-exposed text
//! sources into typed numeric metrics.
//!
//! Every reader takes the source's bytes; reading the pseudo-files
//! themselves is the caller's business.  The fragmentation index is kept
//! as an exact pair of page counts (numerator and denominator of the
//! ratio); the load average is kept in hundredths.

use vstd::prelude::*;

verus! {

use crate::arith::cap64;
use crate::arith::lemma_cap_add_cap;
use crate::arith::lemma_cap_mul_cap;
use crate::arith::lemma_pow2n_pos;
use crate::arith::pow2n;
use crate::arith::pow2_capped;
use crate::arith::sat_add64;
use crate::arith::sat_mul64;
use crate::digits::is_centi_token;
use crate::digits::is_uint_token;
use crate::digits::centi_val;
use crate::digits::parse_centi_token;
use crate::digits::parse_count;
use crate::digits::parse_u64_token;
use crate::digits::token_count;
use crate::digits::uint_val;
use crate::scan::bytes_eq;
use crate::scan::lines_of;
use crate::scan::split_lines;
use crate::scan::split_tokens;
use crate::scan::tokens_of;
use crate::scan::views_of;

/// Bytes per base page, for turning a dirty-page count into bytes.
pub const PAGE_SIZE_BYTES: u64 = 4096;

/// A fragmentation-table row needs this many tokens to be counted.
pub const FRAG_MIN_TOKENS: usize = 15;

/// Leading tokens of a fragmentation-table row before the counts.
pub const FRAG_LEADING_TOKENS: usize = 4;

/// Free blocks of this order or above count as huge.
pub const HUGE_ORDER: usize = 9;

/// The four kernel sources a collection reads.
#[derive(Clone, Copy, PartialEq, Eq, Structural, Debug)]
pub enum SignalSource {
    /// The buddy-allocator free-block table.
    Fragmentation,
    /// The scheduler-statistics table.
    SchedulerStats,
    /// The virtual-memory-statistics table.
    VmStat,
    /// The load-average line.
    LoadAvg,
}

/// Why a collection cycle failed; never fatal.
#[derive(Clone, Copy, PartialEq, Eq, Structural, Debug)]
pub enum CollectionError {
    /// The source could not be read at all.
    ReadFailed(SignalSource),
    /// The source was read but a value in it did not parse.
    Malformed(SignalSource),
}

/// The fragmentation index as an exact ratio: huge free pages over all
/// free pages, with the ratio read as zero when no page is free.
#[derive(Clone, Copy, PartialEq, Eq, Structural, Debug)]
pub struct FragIndex {
    pub huge_free_pages: u64,
    pub total_free_pages: u64,
}

impl FragIndex {
    /// The ratio always lies in [0, 1]: the numerator never exceeds the
    /// denominator.
    pub open spec fn wf(self) -> bool {
        self.huge_free_pages <= self.total_free_pages
    }
}

/// One cycle's snapshot of the four kernel signals.
#[derive(Clone, Copy, PartialEq, Eq, Structural, Debug)]
pub struct SystemSignals {
    /// Fraction of free memory that exists only in huge contiguous blocks.
    pub mem_frag: FragIndex,
    /// Processes in uninterruptible sleep.
    pub procs_blocked: u32,
    /// Bytes of modified, not-yet-flushed page-cache content.
    pub dirty_pages_bytes: u64,
    /// One-minute load average, in hundredths.
    pub load_avg_1m_centi: u64,
}

/// The key of the blocked-process line.
pub open spec fn procs_blocked_key() -> Seq<u8> {
    seq![112u8, 114u8, 111u8, 99u8, 115u8, 95u8, 98u8, 108u8, 111u8, 99u8, 107u8, 101u8, 100u8]
}

/// The key of the dirty-page line.
pub open spec fn nr_dirty_key() -> Seq<u8> {
    seq![110u8, 114u8, 95u8, 100u8, 105u8, 114u8, 116u8, 121u8]
}

/// The tokens of the first line whose first token is `key`, if any.
pub open spec fn kv_line_tokens(ls: Seq<Seq<u8>>, key: Seq<u8>) -> Option<Seq<Seq<u8>>>
    decreases ls.len(),
{
    if ls.len() == 0 {
        None
    } else {
        let toks = tokens_of(ls[0]);
        if toks.len() > 0 && toks[0] == key {
            Some(toks)
        } else {
            kv_line_tokens(ls.drop_first(), key)
        }
    }
}

/// What the scheduler-stats table says about blocked processes: zero
/// without a matching line or a second token, the token's value when it
/// parses, nothing when it does not.
pub open spec fn spec_procs_blocked(content: Seq<u8>) -> Option<u32> {
    match kv_line_tokens(lines_of(content), procs_blocked_key()) {
        Option::None => Some(0u32),
        Option::Some(toks) => if toks.len() < 2 {
            Some(0u32)
        } else if is_uint_token(toks[1]) && uint_val(toks[1]) <= u32::MAX {
            Some(uint_val(toks[1]) as u32)
        } else {
            None
        },
    }
}

/// What the vmstat table says about dirty pages, in bytes: the page
/// count times the page size.
pub open spec fn spec_dirty_pages_bytes(content: Seq<u8>) -> Option<u64> {
    match kv_line_tokens(lines_of(content), nr_dirty_key()) {
        Option::None => Some(0u64),
        Option::Some(toks) => if toks.len() < 2 {
            Some(0u64)
        } else if is_uint_token(toks[1]) && uint_val(toks[1]) * PAGE_SIZE_BYTES <= u64::MAX {
            Some((uint_val(toks[1]) * PAGE_SIZE_BYTES) as u64)
        } else {
            None
        },
    }
}

/// What the load-average line says: its first token in hundredths, zero
/// when the line is empty.
pub open spec fn spec_load_avg_centi(content: Seq<u8>) -> Option<u64> {
    let toks = tokens_of(content);
    if toks.len() == 0 {
        Some(0u64)
    } else if is_centi_token(toks[0]) && centi_val(toks[0]) <= u64::MAX {
        Some(centi_val(toks[0]) as u64)
    } else {
        None
    }
}

/// Builds the blocked-process key as bytes.
fn procs_blocked_key_bytes() -> (r: Vec<u8>)
    ensures
        r@ == procs_blocked_key(),
{
    let mut v: Vec<u8> = Vec::new();
    v.push(112);
    v.push(114);
    v.push(111);
    v.push(99);
    v.push(115);
    v.push(95);
    v.push(98);
    v.push(108);
    v.push(111);
    v.push(99);
    v.push(107);
    v.push(101);
    v.push(100);
    proof {
        assert(v@ =~= procs_blocked_key());
    }
    v
}

/// Builds the dirty-page key as bytes.
fn nr_dirty_key_bytes() -> (r: Vec<u8>)
    ensures
        r@ == nr_dirty_key(),
{
    let mut v: Vec<u8> = Vec::new();
    v.push(110);
    v.push(114);
    v.push(95);
    v.push(100);
    v.push(105);
    v.push(114);
    v.push(116);
    v.push(121);
    proof {
        assert(v@ =~= nr_dirty_key());
    }
    v
}

/// Finds the tokens of the first line keyed by `key`.
fn find_kv_line(content: &[u8], key: &Vec<u8>) -> (r: Option<Vec<Vec<u8>>>)
    ensures
        match r {
            Some(toks) => kv_line_tokens(lines_of(content@), key@) == Some(views_of(toks@)),
            None => kv_line_tokens(lines_of(content@), key@) is None,
        },
{
    let lines = split_lines(content);
    let ghost ls = lines_of(content@);
    let mut li: usize = 0;
    proof {
        assert(ls.skip(0) =~= ls);
    }
    while li < lines.len()
        invariant
            li <= lines@.len(),
            ls == lines_of(content@),
            views_of(lines@) == ls,
            kv_line_tokens(ls, key@) == kv_line_tokens(ls.skip(li as int), key@),
        decreases lines@.len() - li,
    {
        let toks = split_tokens(lines[li].as_slice());
        proof {
            assert(lines@[li as int]@ == ls[li as int]);
            assert(ls.skip(li as int)[0] == ls[li as int]);
        }
        if toks.len() > 0 && bytes_eq(toks[0].as_slice(), key.as_slice()) {
            proof {
                assert(views_of(toks@)[0] == toks@[0]@);
                assert(views_of(toks@) == tokens_of(ls.skip(li as int)[0]));
                assert(tokens_of(ls.skip(li as int)[0]).len() > 0);
                assert(tokens_of(ls.skip(li as int)[0])[0] == key@);
                assert(kv_line_tokens(ls.skip(li as int), key@) == Some(
                    tokens_of(ls.skip(li as int)[0]),
                ));
            }
            return Some(toks);
        }
        proof {
            assert(ls.skip(li as int).drop_first() =~= ls.skip(li as int + 1));
        }
        li += 1;
    }
    proof {
        assert(ls.skip(ls.len() as int) =~= Seq::<Seq<u8>>::empty());
    }
    None
}

/// Reads the blocked-process count from the scheduler-stats table.
pub fn read_procs_blocked(content: &[u8]) -> (r: Result<u32, CollectionError>)
    ensures
        match r {
            Ok(v) => spec_procs_blocked(content@) == Some(v),
            Err(e) => spec_procs_blocked(content@) is None && e == CollectionError::Malformed(
                SignalSource::SchedulerStats,
            ),
        },
{
    let key = procs_blocked_key_bytes();
    match find_kv_line(content, &key) {
        None => Ok(0),
        Some(toks) => {
            if toks.len() < 2 {
                return Ok(0);
            }
            proof {
                assert(views_of(toks@)[1] == toks@[1]@);
            }
            match parse_u64_token(toks[1].as_slice()) {
                Some(v) => {
                    if v <= u32::MAX as u64 {
                        Ok(v as u32)
                    } else {
                        Err(CollectionError::Malformed(SignalSource::SchedulerStats))
                    }
                },
                None => Err(CollectionError::Malformed(SignalSource::SchedulerStats)),
            }
        },
    }
}

/// Reads the dirty-page backlog, in bytes, from the vmstat table.
pub fn read_dirty_pages(content: &[u8]) -> (r: Result<u64, CollectionError>)
    ensures
        match r {
            Ok(v) => spec_dirty_pages_bytes(content@) == Some(v),
            Err(e) => spec_dirty_pages_bytes(content@) is None && e == CollectionError::Malformed(
                SignalSource::VmStat,
            ),
        },
{
    let key = nr_dirty_key_bytes();
    match find_kv_line(content, &key) {
        None => Ok(0),
        Some(toks) => {
            if toks.len() < 2 {
                return Ok(0);
            }
            proof {
                assert(views_of(toks@)[1] == toks@[1]@);
            }
            match parse_u64_token(toks[1].as_slice()) {
                Some(v) => {
                    if v <= u64::MAX / PAGE_SIZE_BYTES {
                        Ok(v * PAGE_SIZE_BYTES)
                    } else {
                        Err(CollectionError::Malformed(SignalSource::VmStat))
                    }
                },
                None => Err(CollectionError::Malformed(SignalSource::VmStat)),
            }
        },
    }
}

/// Reads the one-minute load average, in hundredths, from the
/// load-average line.
pub fn read_load_avg(content: &[u8]) -> (r: Result<u64, CollectionError>)
    ensures
        match r {
            Ok(v) => spec_load_avg_centi(content@) == Some(v),
            Err(e) => spec_load_avg_centi(content@) is None && e == CollectionError::Malformed(
                SignalSource::LoadAvg,
            ),
        },
{
    let toks = split_tokens(content);
    if toks.len() == 0 {
        return Ok(0);
    }
    proof {
        assert(views_of(toks@)[0] == toks@[0]@);
    }
    match parse_centi_token(toks[0].as_slice()) {
        Some(v) => Ok(v),
        None => Err(CollectionError::Malformed(SignalSource::LoadAvg)),
    }
}

/// Free pages held by a row's counts: each count weighs `2^order` base
/// pages, orders running from zero in the order the counts stand.
pub open spec fn weighted_pages(cs: Seq<Seq<u8>>) -> nat
    decreases cs.len(),
{
    if cs.len() == 0 {
        0
    } else {
        weighted_pages(cs.drop_last()) + token_count(cs.last()) * pow2n((cs.len() - 1) as nat)
    }
}

/// The same sum restricted to huge orders.
pub open spec fn huge_weighted_pages(cs: Seq<Seq<u8>>) -> nat
    decreases cs.len(),
{
    if cs.len() == 0 {
        0
    } else {
        huge_weighted_pages(cs.drop_last()) + (if cs.len() - 1 >= HUGE_ORDER {
            token_count(cs.last()) * pow2n((cs.len() - 1) as nat)
        } else {
            0
        })
    }
}

/// The count tokens of a table row: everything after the leading tokens.
pub open spec fn line_counts(line: Seq<u8>) -> Seq<Seq<u8>> {
    tokens_of(line).skip(FRAG_LEADING_TOKENS as int)
}

/// Free pages a row contributes; a row with too few tokens contributes
/// nothing.
pub open spec fn line_total_pages(line: Seq<u8>) -> nat {
    if tokens_of(line).len() >= FRAG_MIN_TOKENS {
        weighted_pages(line_counts(line))
    } else {
        0
    }
}

/// Huge free pages a row contributes.
pub open spec fn line_huge_pages(line: Seq<u8>) -> nat {
    if tokens_of(line).len() >= FRAG_MIN_TOKENS {
        huge_weighted_pages(line_counts(line))
    } else {
        0
    }
}

/// Free pages of a whole table.
pub open spec fn table_total_pages(ls: Seq<Seq<u8>>) -> nat
    decreases ls.len(),
{
    if ls.len() == 0 {
        0
    } else {
        table_total_pages(ls.drop_last()) + line_total_pages(ls.last())
    }
}

/// Huge free pages of a whole table.
pub open spec fn table_huge_pages(ls: Seq<Seq<u8>>) -> nat
    decreases ls.len(),
{
    if ls.len() == 0 {
        0
    } else {
        table_huge_pages(ls.drop_last()) + line_huge_pages(ls.last())
    }
}

/// Free pages the fragmentation table reports.
pub open spec fn frag_total_pages(content: Seq<u8>) -> nat {
    table_total_pages(lines_of(content))
}

/// Huge free pages the fragmentation table reports.
pub open spec fn frag_huge_pages(content: Seq<u8>) -> nat {
    table_huge_pages(lines_of(content))
}

/// A row's huge pages never exceed its pages.
proof fn lemma_weighted_huge_le(cs: Seq<Seq<u8>>)
    ensures
        huge_weighted_pages(cs) <= weighted_pages(cs),
    decreases cs.len(),
{
    if cs.len() > 0 {
        lemma_weighted_huge_le(cs.drop_last());
    }
}

/// A table's huge pages never exceed its pages.
proof fn lemma_table_huge_le(ls: Seq<Seq<u8>>)
    ensures
        table_huge_pages(ls) <= table_total_pages(ls),
    decreases ls.len(),
{
    if ls.len() > 0 {
        lemma_table_huge_le(ls.drop_last());
        lemma_weighted_huge_le(line_counts(ls.last()));
    }
}

/// Law: for any table the fragmentation ratio lies in [0, 1]: the huge
/// page count never exceeds the total page count.
pub proof fn lemma_frag_huge_le_total(content: Seq<u8>)
    ensures
        frag_huge_pages(content) <= frag_total_pages(content),
{
    lemma_table_huge_le(lines_of(content));
}

/// A row whose counts are all zero contributes nothing.
proof fn lemma_weighted_zero(cs: Seq<Seq<u8>>)
    requires
        forall|j: int| 0 <= j < cs.len() ==> token_count(#[trigger] cs[j]) == 0,
    ensures
        weighted_pages(cs) == 0,
        huge_weighted_pages(cs) == 0,
    decreases cs.len(),
{
    if cs.len() > 0 {
        assert(cs.last() == cs[cs.len() - 1]);
        assert forall|j: int| 0 <= j < cs.drop_last().len() implies token_count(
            #[trigger] cs.drop_last()[j],
        ) == 0 by {
            assert(cs.drop_last()[j] == cs[j]);
        }
        lemma_weighted_zero(cs.drop_last());
    }
}

/// A table of zero-contribution rows reports nothing.
proof fn lemma_table_zero(ls: Seq<Seq<u8>>)
    requires
        forall|i: int| 0 <= i < ls.len() ==> line_total_pages(#[trigger] ls[i]) == 0
            && line_huge_pages(ls[i]) == 0,
    ensures
        table_total_pages(ls) == 0,
        table_huge_pages(ls) == 0,
    decreases ls.len(),
{
    if ls.len() > 0 {
        assert(ls.last() == ls[ls.len() - 1]);
        assert forall|i: int| 0 <= i < ls.drop_last().len() implies line_total_pages(
            #[trigger] ls.drop_last()[i],
        ) == 0 && line_huge_pages(ls.drop_last()[i]) == 0 by {
            assert(ls.drop_last()[i] == ls[i]);
        }
        lemma_table_zero(ls.drop_last());
    }
}

/// Law: a table whose counted tokens are all zero --- the empty table
/// among them --- reports no free pages, so its fragmentation index is
/// exactly zero.
pub proof fn lemma_frag_zero_table(content: Seq<u8>)
    requires
        forall|i: int, k: int|
            0 <= i < lines_of(content).len() && FRAG_LEADING_TOKENS <= k < tokens_of(
                #[trigger] lines_of(content)[i],
            ).len() ==> token_count(#[trigger] tokens_of(lines_of(content)[i])[k]) == 0,
    ensures
        frag_total_pages(content) == 0,
        frag_huge_pages(content) == 0,
{
    let ls = lines_of(content);
    assert forall|i: int| 0 <= i < ls.len() implies line_total_pages(#[trigger] ls[i]) == 0
        && line_huge_pages(ls[i]) == 0 by {
        if tokens_of(ls[i]).len() >= FRAG_MIN_TOKENS {
            let cs = line_counts(ls[i]);
            assert forall|j: int| 0 <= j < cs.len() implies token_count(#[trigger] cs[j]) == 0 by {
                assert(cs[j] == tokens_of(ls[i])[j + FRAG_LEADING_TOKENS]);
            }
            lemma_weighted_zero(cs);
        }
    }
    lemma_table_zero(ls);
}

/// Adds one row's pages to the running table sums.
fn line_pages(line: &[u8]) -> (r: (u64, u64))
    ensures
        r.0 as nat == cap64(line_total_pages(line@)),
        r.1 as nat == cap64(line_huge_pages(line@)),
{
    let toks = split_tokens(line);
    if toks.len() < FRAG_MIN_TOKENS {
        return (0, 0);
    }
    let ghost cs = line_counts(line@);
    proof {
        assert(cs.take(0) =~= Seq::<Seq<u8>>::empty());
    }
    let mut total: u64 = 0;
    let mut huge: u64 = 0;
    let mut k: usize = FRAG_LEADING_TOKENS;
    while k < toks.len()
        invariant
            FRAG_LEADING_TOKENS <= k <= toks@.len(),
            toks@.len() >= FRAG_MIN_TOKENS,
            views_of(toks@) == tokens_of(line@),
            cs == line_counts(line@),
            total as nat == cap64(weighted_pages(cs.take(k - FRAG_LEADING_TOKENS))),
            huge as nat == cap64(huge_weighted_pages(cs.take(k - FRAG_LEADING_TOKENS))),
        decreases toks@.len() - k,
    {
        let ghost j = k - FRAG_LEADING_TOKENS;
        proof {
            assert(cs[j] == tokens_of(line@)[k as int]);
            assert(views_of(toks@)[k as int] == toks@[k as int]@);
            assert(cs.take(j + 1).drop_last() =~= cs.take(j));
            assert(cs.take(j + 1).last() == cs[j]);
        }
        let count = parse_count(toks[k].as_slice());
        let weight = pow2_capped(k - FRAG_LEADING_TOKENS);
        proof {
            lemma_pow2n_pos(j as nat);
            lemma_cap_mul_cap(token_count(cs[j]), pow2n(j as nat));
        }
        let term = sat_mul64(count, weight);
        proof {
            lemma_cap_add_cap(
                weighted_pages(cs.take(j)),
                token_count(cs[j]) * pow2n(j as nat),
            );
        }
        total = sat_add64(total, term);
        if k - FRAG_LEADING_TOKENS >= HUGE_ORDER {
            proof {
                lemma_cap_add_cap(
                    huge_weighted_pages(cs.take(j)),
                    token_count(cs[j]) * pow2n(j as nat),
                );
            }
            huge = sat_add64(huge, term);
        }
        k += 1;
    }
    proof {
        assert(cs.take(cs.len() as int) =~= cs);
    }
    (total, huge)
}

/// Reads the fragmentation index from the buddy-allocator table: the
/// exact page sums, capped at `u64::MAX`, with the huge count never
/// above the total.
pub fn read_fragmentation(content: &[u8]) -> (r: FragIndex)
    ensures
        r.total_free_pages as nat == cap64(frag_total_pages(content@)),
        r.huge_free_pages as nat == cap64(frag_huge_pages(content@)),
        r.wf(),
{
    let lines = split_lines(content);
    let ghost ls = lines_of(content@);
    proof {
        assert(ls.take(0) =~= Seq::<Seq<u8>>::empty());
    }
    let mut total: u64 = 0;
    let mut huge: u64 = 0;
    let mut li: usize = 0;
    while li < lines.len()
        invariant
            li <= lines@.len(),
            views_of(lines@) == ls,
            total as nat == cap64(table_total_pages(ls.take(li as int))),
            huge as nat == cap64(table_huge_pages(ls.take(li as int))),
        decreases lines@.len() - li,
    {
        proof {
            assert(lines@[li as int]@ == ls[li as int]);
            assert(ls.take(li as int + 1).drop_last() =~= ls.take(li as int));
            assert(ls.take(li as int + 1).last() == ls[li as int]);
        }
        let (lt, lh) = line_pages(lines[li].as_slice());
        proof {
            lemma_cap_add_cap(table_total_pages(ls.take(li as int)), line_total_pages(ls[li as int]));
            lemma_cap_add_cap(table_huge_pages(ls.take(li as int)), line_huge_pages(ls[li as int]));
        }
        total = sat_add64(total, lt);
        huge = sat_add64(huge, lh);
        li += 1;
    }
    proof {
        assert(ls.take(ls.len() as int) =~= ls);
        lemma_frag_huge_le_total(content@);
    }
    FragIndex { huge_free_pages: huge, total_free_pages: total }
}

/// Collects all four signals, all or nothing: any reader's failure
/// aborts the whole collection with that reader's error, in source
/// order.
pub fn collect(buddyinfo: &[u8], scheduler_stats: &[u8], vmstat: &[u8], loadavg: &[u8]) -> (r:
    Result<SystemSignals, CollectionError>)
    ensures
        match r {
            Ok(s) => {
                &&& s.mem_frag.total_free_pages as nat == cap64(frag_total_pages(buddyinfo@))
                &&& s.mem_frag.huge_free_pages as nat == cap64(frag_huge_pages(buddyinfo@))
                &&& s.mem_frag.wf()
                &&& spec_procs_blocked(scheduler_stats@) == Some(s.procs_blocked)
                &&& spec_dirty_pages_bytes(vmstat@) == Some(s.dirty_pages_bytes)
                &&& spec_load_avg_centi(loadavg@) == Some(s.load_avg_1m_centi)
            },
            Err(e) => {
                &&& (spec_procs_blocked(scheduler_stats@) is None || spec_dirty_pages_bytes(
                    vmstat@,
                ) is None || spec_load_avg_centi(loadavg@) is None)
                &&& e == (if spec_procs_blocked(scheduler_stats@) is None {
                    CollectionError::Malformed(SignalSource::SchedulerStats)
                } else if spec_dirty_pages_bytes(vmstat@) is None {
                    CollectionError::Malformed(SignalSource::VmStat)
                } else {
                    CollectionError::Malformed(SignalSource::LoadAvg)
                })
            },
        },
{
    let mem_frag = read_fragmentation(buddyinfo);
    let procs_blocked = match read_procs_blocked(scheduler_stats) {
        Ok(v) => v,
        Err(e) => {
            return Err(e);
        },
    };
    let dirty_pages_bytes = match read_dirty_pages(vmstat) {
        Ok(v) => v,
        Err(e) => {
            return Err(e);
        },
    };
    let load_avg_1m_centi = match read_load_avg(loadavg) {
        Ok(v) => v,
        Err(e) => {
            return Err(e);
        },
    };
    Ok(SystemSignals { mem_frag, procs_blocked, dirty_pages_bytes, load_avg_1m_centi })
}

} // verus!
