//! Properties that relate several operations on pages, frames and their ranges.
use super::{
    Page, PageRange, PageRangeInclusive, PageSize, PhysFrame, PhysFrameRange,
    PhysFrameRangeInclusive, frame_step_back_ok, frame_step_ok, is_page_size, lemma_aligned_step, lemma_page_size_facts,
    lemma_sign_extend_aligned, page_step_back_ok, page_step_ok, table_indices_address,
};
use crate::addr::{align_down_spec, is_canonical, sign_extend};
use crate::text::{hex_digits, hex_text, hex_value, is_hex_numeral, lemma_hex_digits_read_back};
use vstd::prelude::*;

verus! {

/// The page built from four table indices has exactly those indices: the address of
/// `from_page_table_indices(p4, p3, p2, p1)` gives back `p4`, `p3`, `p2` and `p1` through
/// `p4_index`, `p3_index`, `p2_index` and `p1_index`.
pub proof fn law_table_indices_roundtrip(p4: u16, p3: u16, p2: u16, p1: u16)
    requires
        p4 < 512,
        p3 < 512,
        p2 < 512,
        p1 < 512,
    ensures
        (table_indices_address(p4, p3, p2, p1) / 0x80_0000_0000) % 512 == p4,
        (table_indices_address(p4, p3, p2, p1) / 0x4000_0000) % 512 == p3,
        (table_indices_address(p4, p3, p2, p1) / 0x20_0000) % 512 == p2,
        (table_indices_address(p4, p3, p2, p1) / 0x1000) % 512 == p1,
        is_canonical(table_indices_address(p4, p3, p2, p1)),
{
    let a = table_indices_address(p4, p3, p2, p1);
    assert(p4 < 512 && p3 < 512 && p2 < 512 && p1 < 512 ==> {
        let x = sign_extend(
            (p4 * 0x80_0000_0000 + p3 * 0x4000_0000 + p2 * 0x20_0000 + p1 * 0x1000) as u64,
        );
        &&& (x / 0x80_0000_0000) % 512 == p4
        &&& (x / 0x4000_0000) % 512 == p3
        &&& (x / 0x20_0000) % 512 == p2
        &&& (x / 0x1000) % 512 == p1
        &&& is_canonical(x)
    }) by (bit_vector);
}

/// The page containing an address has the same four table indices as the address.
pub proof fn law_containing_page_indices(addr: u64)
    ensures
        (align_down_spec(addr, 0x1000) / 0x80_0000_0000) % 512 == (addr / 0x80_0000_0000) % 512,
        (align_down_spec(addr, 0x1000) / 0x4000_0000) % 512 == (addr / 0x4000_0000) % 512,
        (align_down_spec(addr, 0x1000) / 0x20_0000) % 512 == (addr / 0x20_0000) % 512,
        (align_down_spec(addr, 0x1000) / 0x1000) % 512 == (addr / 0x1000) % 512,
{
    assert({
        let d = (addr - addr % 0x1000) as u64;
        &&& (d / 0x80_0000_0000) % 512 == (addr / 0x80_0000_0000) % 512
        &&& (d / 0x4000_0000) % 512 == (addr / 0x4000_0000) % 512
        &&& (d / 0x20_0000) % 512 == (addr / 0x20_0000) % 512
        &&& (d / 0x1000) % 512 == (addr / 0x1000) % 512
    }) by (bit_vector);
}

/// Adding `n` pages and then subtracting `n` pages gives back the page, and the pages between
/// them number `n`, as long as both pages lie on the same side of the non-canonical hole.
pub proof fn law_page_add_sub(start: u64, n: u64, size: u64)
    requires
        is_page_size(size),
        start % size == 0,
        is_canonical(start),
        start + n * size <= u64::MAX,
        is_canonical((start + n * size) as u64),
    ensures
        page_step_ok(start, n, size),
        sign_extend((start + n * size) as u64) == start + n * size,
        page_step_back_ok(sign_extend((start + n * size) as u64), n, size),
        sign_extend((sign_extend((start + n * size) as u64) - n * size) as u64) == start,
        (sign_extend((start + n * size) as u64) - start) / (size as int) == n,
{
    let b = (start + n * size) as u64;
    crate::addr::law_sign_extend(b);
    crate::addr::law_sign_extend(start);
    assert((n * size) / (size as int) == n) by (nonlinear_arith)
        requires
            size > 0,
    ;
}

/// Subtracting `n` pages and then adding `n` pages gives back the page, as long as both pages
/// lie on the same side of the non-canonical hole.
pub proof fn law_page_sub_add(start: u64, n: u64, size: u64)
    requires
        is_page_size(size),
        start % size == 0,
        is_canonical(start),
        start >= n * size,
        is_canonical((start - n * size) as u64),
    ensures
        page_step_back_ok(start, n, size),
        page_step_ok(sign_extend((start - n * size) as u64), n, size),
        sign_extend((sign_extend((start - n * size) as u64) + n * size) as u64) == start,
{
    let b = (start - n * size) as u64;
    crate::addr::law_sign_extend(b);
    crate::addr::law_sign_extend(start);
}

/// Adding `n` frames and then subtracting `n` frames gives back the frame, and the frames
/// between them number `n`.
pub proof fn law_frame_add_sub(start: u64, n: u64, size: u64)
    requires
        is_page_size(size),
        frame_step_ok(start, n, size),
    ensures
        frame_step_back_ok((start + n * size) as u64, n, size),
        (start + n * size) - n * size == start,
        ((start + n * size) - start) / (size as int) == n,
{
    assert((n * size) / (size as int) == n) by (nonlinear_arith)
        requires
            size > 0,
    ;
}

/// Iterating a page range that starts at a canonical address never violates the
/// precondition of `next`: each step is allowed and leads to a canonical start again.
pub proof fn law_page_range_step(start: u64, end: u64, size: u64)
    requires
        is_page_size(size),
        start % size == 0,
        end % size == 0,
        is_canonical(start),
        start < end,
    ensures
        page_step_ok(start, 1, size),
        is_canonical(sign_extend((start + size) as u64)),
        sign_extend((start + size) as u64) % size == 0,
{
    lemma_page_size_facts(size);
    lemma_aligned_step(start as int, 1, size as int);
    lemma_aligned_step(end as int, -1, size as int);
    lemma_aligned_step(0x8000_0000_0000, -1, size as int);
    crate::addr::law_sign_extend((start + size) as u64);
    lemma_sign_extend_aligned((start + size) as u64, size);
}

/// Each step of a page range whose start does not cross the non-canonical hole takes one
/// page off the range: a range from `start` to `end` yields `(end - start) / size` pages.
pub proof fn law_page_range_length(start: u64, end: u64, size: u64)
    requires
        is_page_size(size),
        start % size == 0,
        end % size == 0,
        start < end,
        is_canonical(start),
        is_canonical((start + size) as u64),
    ensures
        sign_extend((start + size) as u64) == start + size,
        (end - sign_extend((start + size) as u64)) / (size as int) + 1 == (end - start) / (
        size as int),
{
    lemma_page_size_facts(size);
    law_page_range_step(start, end, size);
    crate::addr::law_sign_extend((start + size) as u64);
    lemma_aligned_step(start as int, 1, size as int);
    let k = (end - start - size) as int;
    assert(k >= 0) by {
        lemma_aligned_step(end as int, -1, size as int);
        vstd::arithmetic::div_mod::lemma_fundamental_div_mod(end as int, size as int);
        vstd::arithmetic::div_mod::lemma_fundamental_div_mod(start as int, size as int);
        vstd::arithmetic::div_mod::lemma_div_is_ordered(start as int, end as int, size as int);
        assert(end as int / size as int != start as int / size as int);
        assert(end as int / size as int >= start as int / size as int + 1);
        assert(size * (end as int / size as int) >= size * (start as int / size as int + 1))
            by (nonlinear_arith)
            requires
                end as int / size as int >= start as int / size as int + 1,
                size > 0,
        ;
        assert(size * (start as int / size as int + 1) == size * (start as int / size as int)
            + size) by (nonlinear_arith);
    }
    vstd::arithmetic::div_mod::lemma_div_plus_one(k, size as int);
}

/// Each step of an inclusive page range whose start does not cross the non-canonical hole
/// takes one page off the range: a range from `start` to `end` yields `(end - start) / size + 1`
/// pages, and after its last page the range is empty.
pub proof fn law_page_range_inclusive_length(start: u64, end: u64, size: u64)
    requires
        is_page_size(size),
        start % size == 0,
        end % size == 0,
        start <= end,
        start + size <= u64::MAX,
        is_canonical(start),
        is_canonical((start + size) as u64),
    ensures
        page_step_ok(start, 1, size),
        sign_extend((start + size) as u64) == start + size,
        start == end ==> sign_extend((start + size) as u64) > end,
        start < end ==> (end - sign_extend((start + size) as u64)) / (size as int) + 1 == (end
            - start) / (size as int),
{
    crate::addr::law_sign_extend((start + size) as u64);
    if start < end {
        law_page_range_length(start, end, size);
    }
}

/// The distance between two aligned addresses is a whole number of steps.
proof fn lemma_range_multiple(start: u64, end: u64, size: u64)
    requires
        is_page_size(size),
        start % size == 0,
        end % size == 0,
        start <= end,
    ensures
        (end - start) % (size as int) == 0,
        start + ((end - start) / (size as int)) * size == end,
        start < end ==> (end - start) / (size as int) >= 1,
{
    let d = size as int;
    let n = (end - start) / d;
    vstd::arithmetic::div_mod::lemma_fundamental_div_mod(start as int, d);
    vstd::arithmetic::div_mod::lemma_fundamental_div_mod((end - start) as int, d);
    lemma_aligned_step(end as int, start as int / d, d);
    assert(d * (start as int / d) == (start as int / d) * d) by (nonlinear_arith);
    assert(d * n == n * d) by (nonlinear_arith);
    if start < end {
        assert(n >= 1) by (nonlinear_arith)
            requires
                n * d == end - start,
                end - start > 0,
                d > 0,
        ;
    }
}

/// Facts on the positions `start + k * size` of a run through an aligned range.
proof fn lemma_run_positions(start: u64, end: u64, size: u64, k: int)
    requires
        is_page_size(size),
        start % size == 0,
        end % size == 0,
        start <= end,
        0 <= k < (end - start) / (size as int),
    ensures
        (end - start) % (size as int) == 0,
        start + ((end - start) / (size as int)) * size == end,
        start + k * size < end,
        start + (k + 1) * size <= end,
        start + (k + 1) * size == start + k * size + size,
        (start + k * size) % (size as int) == 0,
        k + 1 < (end - start) / (size as int) ==> start + (k + 1) * size < end,
{
    let d = size as int;
    let n = (end - start) / d;
    vstd::arithmetic::div_mod::lemma_fundamental_div_mod(start as int, d);
    vstd::arithmetic::div_mod::lemma_fundamental_div_mod(end as int, d);
    vstd::arithmetic::div_mod::lemma_fundamental_div_mod((end - start) as int, d);
    lemma_aligned_step(end as int, start as int / d, d);
    assert(d * (start as int / d) == (start as int / d) * d) by (nonlinear_arith);
    assert((end - start) % d == 0);
    assert(d * n == n * d) by (nonlinear_arith);
    assert(k * d < n * d) by (nonlinear_arith)
        requires
            k < n,
            d > 0,
    ;
    assert((k + 1) * d <= n * d) by (nonlinear_arith)
        requires
            k + 1 <= n,
            d > 0,
    ;
    assert((k + 1) * d == k * d + d) by (nonlinear_arith);
    assert(k + 1 < n ==> (k + 1) * d < n * d) by (nonlinear_arith)
        requires
            d > 0,
    ;
    lemma_aligned_step(start as int, k, d);
}

/// A run of `next` calls on a page range that does not cross the non-canonical hole visits
/// `start`, `start + size`, ..., `end - size` in turn: while `k < (end - start) / size` the
/// start after `k` calls is `start + k * size`, below `end`, and the call is allowed; it yields
/// that page and moves the start to `start + (k + 1) * size`, or to an address not below `end`
/// after the last page, where every later call returns `None` and changes nothing.
pub proof fn law_page_range_run(start: u64, end: u64, size: u64, k: int)
    requires
        is_page_size(size),
        start % size == 0,
        end % size == 0,
        start <= end,
        end <= 0x8000_0000_0000 || start >= 0xffff_8000_0000_0000,
        0 <= k < (end - start) / (size as int),
    ensures
        start + k * size < end,
        page_step_ok((start + k * size) as u64, 1, size),
        sign_extend((start + k * size) as u64) == start + k * size,
        k + 1 < (end - start) / (size as int) ==> sign_extend(
            (start + k * size + size) as u64,
        ) == start + (k + 1) * size,
        k + 1 == (end - start) / (size as int) ==> !(sign_extend(
            (start + k * size + size) as u64,
        ) < end),
{
    lemma_run_positions(start, end, size, k);
    let x = (start + k * size) as u64;
    let y = (start + k * size + size) as u64;
    crate::addr::law_sign_extend(x);
    crate::addr::law_sign_extend(y);
    lemma_page_size_facts(size);
    if end <= 0x8000_0000_0000 {
        if k + 1 < (end - start) / (size as int) {
            assert(y < end);
        }
    }
}

/// A run of `next` calls on an inclusive page range that does not cross the non-canonical
/// hole, and whose end is not the last page of the address space, visits `start`,
/// `start + size`, ..., `end`: while `k <= (end - start) / size` the start after `k` calls is
/// `start + k * size`, at most `end`, and the call is allowed; after the call that yields `end`
/// the start lies beyond `end`, so every later call returns `None`.
pub proof fn law_page_range_inclusive_run(start: u64, end: u64, size: u64, k: int)
    requires
        is_page_size(size),
        start % size == 0,
        end % size == 0,
        start <= end,
        end + size <= u64::MAX,
        end < 0x8000_0000_0000 || start >= 0xffff_8000_0000_0000,
        0 <= k <= (end - start) / (size as int),
    ensures
        start + k * size <= end,
        page_step_ok((start + k * size) as u64, 1, size),
        sign_extend((start + k * size) as u64) == start + k * size,
        k < (end - start) / (size as int) ==> sign_extend((start + k * size + size) as u64)
            == start + (k + 1) * size,
        k == (end - start) / (size as int) ==> start + k * size == end && sign_extend(
            (start + k * size + size) as u64,
        ) > end,
{
    let d = size as int;
    let e2 = (end + size) as u64;
    lemma_page_size_facts(size);
    lemma_aligned_step(end as int, 1, d);
    lemma_run_positions(start, e2, size, k);
    assert((e2 - start) / d == (end - start) / d + 1) by {
        vstd::arithmetic::div_mod::lemma_div_plus_one((end - start) as int, d);
    }
    let x = (start + k * size) as u64;
    let y = (start + k * size + size) as u64;
    crate::addr::law_sign_extend(x);
    crate::addr::law_sign_extend(y);
    if end < 0x8000_0000_0000 {
        lemma_aligned_step(0x8000_0000_0000, -1, d);
        assert(end + size <= 0x8000_0000_0000);
    }
}

/// A run of `next` calls on a frame range below 2^52 visits `start`, `start + size`, ...,
/// `end - size` in turn: while `k < (end - start) / size` the start after `k` calls is
/// `start + k * size`, below `end`, the call is allowed and moves the start to
/// `start + (k + 1) * size`; after the last frame the start is `end` and every later call
/// returns `None`.
pub proof fn law_frame_range_run(start: u64, end: u64, size: u64, k: int)
    requires
        is_page_size(size),
        start % size == 0,
        end % size == 0,
        start <= end,
        end < 0x10_0000_0000_0000,
        0 <= k < (end - start) / (size as int),
    ensures
        start + k * size < end,
        frame_step_ok((start + k * size) as u64, 1, size),
        start + k * size + size <= end,
        k + 1 == (end - start) / (size as int) ==> start + k * size + size == end,
{
    lemma_run_positions(start, end, size, k);
}

/// A run of `next` calls on an inclusive frame range whose step past `end` stays below 2^52
/// visits `start`, `start + size`, ..., `end`: while `k <= (end - start) / size` the start
/// after `k` calls is `start + k * size`, at most `end`, and the call is allowed; after the
/// call that yields `end` the start lies beyond `end`.
pub proof fn law_frame_range_inclusive_run(start: u64, end: u64, size: u64, k: int)
    requires
        is_page_size(size),
        start % size == 0,
        end % size == 0,
        start <= end,
        end + size < 0x10_0000_0000_0000,
        0 <= k <= (end - start) / (size as int),
    ensures
        start + k * size <= end,
        frame_step_ok((start + k * size) as u64, 1, size),
        k == (end - start) / (size as int) ==> start + k * size == end && start + k * size
            + size > end,
{
    let d = size as int;
    let e2 = (end + size) as u64;
    lemma_aligned_step(end as int, 1, d);
    lemma_run_positions(start, e2, size, k);
    assert((e2 - start) / d == (end - start) / d + 1) by {
        vstd::arithmetic::div_mod::lemma_div_plus_one((end - start) as int, d);
    }
}

/// Each step of a frame range takes one frame off it: a frame range from `start` to `end`
/// yields `(end - start) / size` frames.
pub proof fn law_frame_range_length(start: u64, end: u64, size: u64)
    requires
        is_page_size(size),
        start % size == 0,
        end % size == 0,
        start < end,
        end < 0x10_0000_0000_0000,
    ensures
        frame_step_ok(start, 1, size),
        (end - (start + size)) / (size as int) + 1 == (end - start) / (size as int),
{
    lemma_range_multiple(start, end, size);
    lemma_run_positions(start, end, size, 0);
    assert(end - start >= size);
    vstd::arithmetic::div_mod::lemma_div_plus_one((end - start - size) as int, size as int);
}

/// A range of 2MiB pages, seen as 4KiB pages, covers the same addresses and holds 512 small
/// pages for each huge page.
pub proof fn law_as_4kb_page_count(start: u64, end: u64)
    requires
        start % 0x20_0000 == 0,
        end % 0x20_0000 == 0,
        start <= end,
    ensures
        start % 0x1000 == 0,
        end % 0x1000 == 0,
        (end - start) / 0x1000 == 512 * ((end - start) / 0x20_0000),
{
    assert(start % 0x20_0000 == 0 ==> start % 0x1000 == 0) by (bit_vector);
    assert(end % 0x20_0000 == 0 ==> end % 0x1000 == 0) by (bit_vector);
    lemma_page_size_facts(0x20_0000);
    lemma_range_multiple(start, end, 0x20_0000);
    let n = (end - start) / 0x20_0000int;
    assert(end - start == n * 0x20_0000);
    assert((n * 0x20_0000) / 0x1000 == 512 * n) by (nonlinear_arith);
}

/// A range of frames given by bootloader frame numbers gives those frame numbers back.
pub proof fn law_frame_numbers_roundtrip(start_frame_number: u64, end_frame_number: u64)
    requires
        start_frame_number * 4096 < 0x10_0000_0000_0000,
        end_frame_number * 4096 < 0x10_0000_0000_0000,
    ensures
        (start_frame_number * 4096) / 4096 == start_frame_number,
        (end_frame_number * 4096) / 4096 == end_frame_number,
{
}

/// Equal texts with equal fixed parts around them have equal middles.
proof fn lemma_middle_cancels(x: Seq<char>, a: Seq<char>, b: Seq<char>, y: Seq<char>)
    requires
        x + a + y == x + b + y,
    ensures
        a == b,
{
    let t1 = x + a + y;
    let t2 = x + b + y;
    assert(t1.len() == t2.len());
    assert(a.len() == b.len());
    assert forall|i: int| 0 <= i < a.len() implies a[i] == b[i] by {
        assert(t1[x.len() + i] == a[i]);
        assert(t2[x.len() + i] == b[i]);
    }
    assert(a =~= b);
}

/// The debug text of a page is `Page[`, the name of its size, `](0x`, a hexadecimal numeral
/// without leading zeros that reads back as its full start address, and `)`.
pub proof fn law_page_debug_text<S: PageSize>(x: Page<S>)
    ensures
        ({
            let t = x.debug_text();
            let n = S::SIZE_AS_DEBUG_STR@.len() as int;
            &&& t.len() >= 5 + n + 5
            &&& t.subrange(0, 5) == "Page["@
            &&& t.subrange(5, 5 + n) == S::SIZE_AS_DEBUG_STR@
            &&& t.subrange(5 + n, 5 + n + 4) == "](0x"@
            &&& t.last() == ')'
            &&& is_hex_numeral(t.subrange(5 + n + 4, t.len() - 1))
            &&& hex_value(t.subrange(5 + n + 4, t.len() - 1)) == x@
        }),
{
    reveal_strlit("Page[");
    reveal_strlit("](");
    reveal_strlit("](0x");
    reveal_strlit(")");
    lemma_hex_digits_read_back(x@ as nat);
    let t = x.debug_text();
    let name = S::SIZE_AS_DEBUG_STR@;
    let n = name.len() as int;
    let d = hex_digits(x@ as nat);
    assert(t =~= "Page["@ + name + "]("@ + (seq!['0', 'x'] + d) + ")"@);
    assert(t.subrange(0, 5) =~= "Page["@);
    assert(t.subrange(5, 5 + n) =~= name);
    assert(t.subrange(5 + n, 5 + n + 4) =~= "](0x"@);
    assert(t.subrange(5 + n + 4, t.len() - 1) =~= d);
}

/// Two pages of one size with the same debug text start at the same address.
pub proof fn law_page_debug_text_distinct<S: PageSize>(x: Page<S>, y: Page<S>)
    requires
        x.debug_text() == y.debug_text(),
    ensures
        x@ == y@,
{
    law_page_debug_text(x);
    law_page_debug_text(y);
}

/// The debug text of a frame is `PhysFrame[`, the name of its size, `](0x`, a hexadecimal numeral
/// without leading zeros that reads back as its full start address, and `)`.
pub proof fn law_frame_debug_text<S: PageSize>(x: PhysFrame<S>)
    ensures
        ({
            let t = x.debug_text();
            let n = S::SIZE_AS_DEBUG_STR@.len() as int;
            &&& t.len() >= 10 + n + 5
            &&& t.subrange(0, 10) == "PhysFrame["@
            &&& t.subrange(10, 10 + n) == S::SIZE_AS_DEBUG_STR@
            &&& t.subrange(10 + n, 10 + n + 4) == "](0x"@
            &&& t.last() == ')'
            &&& is_hex_numeral(t.subrange(10 + n + 4, t.len() - 1))
            &&& hex_value(t.subrange(10 + n + 4, t.len() - 1)) == x@
        }),
{
    reveal_strlit("PhysFrame[");
    reveal_strlit("](");
    reveal_strlit("](0x");
    reveal_strlit(")");
    lemma_hex_digits_read_back(x@ as nat);
    let t = x.debug_text();
    let name = S::SIZE_AS_DEBUG_STR@;
    let n = name.len() as int;
    let d = hex_digits(x@ as nat);
    assert(t =~= "PhysFrame["@ + name + "]("@ + (seq!['0', 'x'] + d) + ")"@);
    assert(t.subrange(0, 10) =~= "PhysFrame["@);
    assert(t.subrange(10, 10 + n) =~= name);
    assert(t.subrange(10 + n, 10 + n + 4) =~= "](0x"@);
    assert(t.subrange(10 + n + 4, t.len() - 1) =~= d);
}

/// Two frames of one size with the same debug text start at the same address.
pub proof fn law_frame_debug_text_distinct<S: PageSize>(x: PhysFrame<S>, y: PhysFrame<S>)
    requires
        x.debug_text() == y.debug_text(),
    ensures
        x@ == y@,
{
    law_frame_debug_text(x);
    law_frame_debug_text(y);
}

/// The debug text of a `PageRange` is `PageRange { start: `, the debug text of its start page,
/// `, end: `, the debug text of its end page, and ` }`.
pub proof fn law_page_range_debug_text<S: PageSize>(r: PageRange<S>)
    ensures
        r.debug_text() == "PageRange { start: "@ + r.start.debug_text() + ", end: "@
            + r.end.debug_text() + " }"@,
{
}

/// Two `PageRange`s whose debug texts agree and whose starts agree have the same end, and two
/// whose debug texts agree and whose ends agree have the same start.
pub proof fn law_page_range_debug_text_distinct<S: PageSize>(r1: PageRange<S>, r2: PageRange<S>)
    requires
        r1.debug_text() == r2.debug_text(),
    ensures
        r1.start@ == r2.start@ ==> r1.end@ == r2.end@,
        r1.end@ == r2.end@ ==> r1.start@ == r2.start@,
{
    let p = "PageRange { start: "@;
    let m = ", end: "@;
    let q = " }"@;
    if r1.start@ == r2.start@ {
        assert(r1.start.debug_text() == r2.start.debug_text());
        lemma_middle_cancels(p + r1.start.debug_text() + m, r1.end.debug_text(), r2.end.debug_text(), q);
        law_page_debug_text_distinct(r1.end, r2.end);
    }
    if r1.end@ == r2.end@ {
        assert(r1.end.debug_text() == r2.end.debug_text());
        assert(r1.debug_text() =~= p + r1.start.debug_text() + (m + r1.end.debug_text() + q));
        assert(r2.debug_text() =~= p + r2.start.debug_text() + (m + r1.end.debug_text() + q));
        lemma_middle_cancels(p, r1.start.debug_text(), r2.start.debug_text(), m + r1.end.debug_text() + q);
        law_page_debug_text_distinct(r1.start, r2.start);
    }
}

/// The debug text of a `PageRangeInclusive` is `PageRangeInclusive { start: `, the debug text of its start page,
/// `, end: `, the debug text of its end page, and ` }`.
pub proof fn law_page_range_inclusive_debug_text<S: PageSize>(r: PageRangeInclusive<S>)
    ensures
        r.debug_text() == "PageRangeInclusive { start: "@ + r.start.debug_text() + ", end: "@
            + r.end.debug_text() + " }"@,
{
}

/// Two `PageRangeInclusive`s whose debug texts agree and whose starts agree have the same end, and two
/// whose debug texts agree and whose ends agree have the same start.
pub proof fn law_page_range_inclusive_debug_text_distinct<S: PageSize>(r1: PageRangeInclusive<S>, r2: PageRangeInclusive<S>)
    requires
        r1.debug_text() == r2.debug_text(),
    ensures
        r1.start@ == r2.start@ ==> r1.end@ == r2.end@,
        r1.end@ == r2.end@ ==> r1.start@ == r2.start@,
{
    let p = "PageRangeInclusive { start: "@;
    let m = ", end: "@;
    let q = " }"@;
    if r1.start@ == r2.start@ {
        assert(r1.start.debug_text() == r2.start.debug_text());
        lemma_middle_cancels(p + r1.start.debug_text() + m, r1.end.debug_text(), r2.end.debug_text(), q);
        law_page_debug_text_distinct(r1.end, r2.end);
    }
    if r1.end@ == r2.end@ {
        assert(r1.end.debug_text() == r2.end.debug_text());
        assert(r1.debug_text() =~= p + r1.start.debug_text() + (m + r1.end.debug_text() + q));
        assert(r2.debug_text() =~= p + r2.start.debug_text() + (m + r1.end.debug_text() + q));
        lemma_middle_cancels(p, r1.start.debug_text(), r2.start.debug_text(), m + r1.end.debug_text() + q);
        law_page_debug_text_distinct(r1.start, r2.start);
    }
}

/// The debug text of a `PhysFrameRange` is `PhysFrameRange { start: `, the debug text of its start frame,
/// `, end: `, the debug text of its end frame, and ` }`.
pub proof fn law_frame_range_debug_text<S: PageSize>(r: PhysFrameRange<S>)
    ensures
        r.debug_text() == "PhysFrameRange { start: "@ + r.start.debug_text() + ", end: "@
            + r.end.debug_text() + " }"@,
{
}

/// Two `PhysFrameRange`s whose debug texts agree and whose starts agree have the same end, and two
/// whose debug texts agree and whose ends agree have the same start.
pub proof fn law_frame_range_debug_text_distinct<S: PageSize>(r1: PhysFrameRange<S>, r2: PhysFrameRange<S>)
    requires
        r1.debug_text() == r2.debug_text(),
    ensures
        r1.start@ == r2.start@ ==> r1.end@ == r2.end@,
        r1.end@ == r2.end@ ==> r1.start@ == r2.start@,
{
    let p = "PhysFrameRange { start: "@;
    let m = ", end: "@;
    let q = " }"@;
    if r1.start@ == r2.start@ {
        assert(r1.start.debug_text() == r2.start.debug_text());
        lemma_middle_cancels(p + r1.start.debug_text() + m, r1.end.debug_text(), r2.end.debug_text(), q);
        law_frame_debug_text_distinct(r1.end, r2.end);
    }
    if r1.end@ == r2.end@ {
        assert(r1.end.debug_text() == r2.end.debug_text());
        assert(r1.debug_text() =~= p + r1.start.debug_text() + (m + r1.end.debug_text() + q));
        assert(r2.debug_text() =~= p + r2.start.debug_text() + (m + r1.end.debug_text() + q));
        lemma_middle_cancels(p, r1.start.debug_text(), r2.start.debug_text(), m + r1.end.debug_text() + q);
        law_frame_debug_text_distinct(r1.start, r2.start);
    }
}

/// The debug text of a `PhysFrameRangeInclusive` is `PhysFrameRangeInclusive { start: `, the debug text of its start frame,
/// `, end: `, the debug text of its end frame, and ` }`.
pub proof fn law_frame_range_inclusive_debug_text<S: PageSize>(r: PhysFrameRangeInclusive<S>)
    ensures
        r.debug_text() == "PhysFrameRangeInclusive { start: "@ + r.start.debug_text() + ", end: "@
            + r.end.debug_text() + " }"@,
{
}

/// Two `PhysFrameRangeInclusive`s whose debug texts agree and whose starts agree have the same end, and two
/// whose debug texts agree and whose ends agree have the same start.
pub proof fn law_frame_range_inclusive_debug_text_distinct<S: PageSize>(r1: PhysFrameRangeInclusive<S>, r2: PhysFrameRangeInclusive<S>)
    requires
        r1.debug_text() == r2.debug_text(),
    ensures
        r1.start@ == r2.start@ ==> r1.end@ == r2.end@,
        r1.end@ == r2.end@ ==> r1.start@ == r2.start@,
{
    let p = "PhysFrameRangeInclusive { start: "@;
    let m = ", end: "@;
    let q = " }"@;
    if r1.start@ == r2.start@ {
        assert(r1.start.debug_text() == r2.start.debug_text());
        lemma_middle_cancels(p + r1.start.debug_text() + m, r1.end.debug_text(), r2.end.debug_text(), q);
        law_frame_debug_text_distinct(r1.end, r2.end);
    }
    if r1.end@ == r2.end@ {
        assert(r1.end.debug_text() == r2.end.debug_text());
        assert(r1.debug_text() =~= p + r1.start.debug_text() + (m + r1.end.debug_text() + q));
        assert(r2.debug_text() =~= p + r2.start.debug_text() + (m + r1.end.debug_text() + q));
        lemma_middle_cancels(p, r1.start.debug_text(), r2.start.debug_text(), m + r1.end.debug_text() + q);
        law_frame_debug_text_distinct(r1.start, r2.start);
    }
}

} // verus!
