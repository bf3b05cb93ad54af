//! Decisions of a flashing or verification session: padding the image to
//! whole pages, batching checksum requests, choosing the pages to write and
//! listing mismatches.
use vstd::prelude::*;
use vstd::arithmetic::div_mod::{lemma_basic_div, lemma_div_plus_one, lemma_fundamental_div_mod};
use crate::catalog::{write_flash_page_command, BinInfo, BinInfoMode, WRITE_FLASH_PAGE};
use crate::command::{Command, Error};
use crate::wire::le_u32_bytes;

verus! {

/// The CRC-16/XMODEM checksum of `data`.
pub uninterp spec fn crc16_xmodem(data: Seq<u8>) -> u16;

/// Relies on crc_any's `CRCu16::crc16xmodem`, `digest` and `get_crc`: the
/// CRC-16/XMODEM of the bytes, which depends on the bytes alone.
#[verifier::external_body]
fn crc16_xmodem_of(data: &Vec<u8>) -> (r: u16)
    ensures
        r == crc16_xmodem(data@),
{
    let mut xmodem = crc_any::CRCu16::crc16xmodem();
    xmodem.digest(data.as_slice());
    xmodem.get_crc()
}

/// Computes the CRC-16/XMODEM checksum of `data`.
pub fn checksum(data: &Vec<u8>) -> (r: u16)
    ensures
        r == crc16_xmodem(data@),
{
    crc16_xmodem_of(data)
}

/// Stage of a session at which a command failed.
#[derive(Debug, Clone, Copy, PartialEq, Eq, Structural)]
pub enum FlashStage {
    ModeQuery,
    StartFlash,
    ChecksumBatch,
    PageWrite,
    Reboot,
}

/// A failed session: the stage and the error of the command.
#[derive(Debug, Clone, Copy, PartialEq, Eq, Structural)]
pub struct FlashError {
    pub stage: FlashStage,
    pub error: Error,
}

impl FlashError {
    pub fn new(stage: FlashStage, error: Error) -> (r: FlashError)
        ensures
            r.stage == stage,
            r.error == error,
    {
        FlashError { stage, error }
    }
}

/// One page whose local and device checksums differ.
#[derive(Debug, Clone, Copy, PartialEq, Eq, Structural)]
pub struct Mismatch {
    pub index: usize,
    pub expected: u16,
    pub observed: u16,
}

/// Whether the device must be armed with a start-flash command.
pub fn needs_start_flash(info: &BinInfo) -> (r: bool)
    ensures
        r == (info.mode != BinInfoMode::Bootloader),
{
    match info.mode {
        BinInfoMode::Bootloader => false,
        BinInfoMode::UserApplication => true,
    }
}

/// The smallest multiple of `page` not less than `len`.
pub open spec fn padded_len(len: nat, page: nat) -> nat {
    if len % page == 0 {
        len
    } else {
        (len + page - len % page) as nat
    }
}

/// Appends zero bytes to `image` up to a whole number of pages.
pub fn pad_image(image: &mut Vec<u8>, page_size: u32)
    requires
        page_size > 0,
        old(image).len() + page_size <= usize::MAX,
    ensures
        final(image)@.len() == padded_len(old(image)@.len(), page_size as nat),
        final(image)@.len() % (page_size as nat) == 0,
        final(image)@.len() < old(image)@.len() + page_size,
        final(image)@.take(old(image)@.len() as int) == old(image)@,
        forall|i: int| old(image)@.len() <= i < final(image)@.len() ==> final(image)@[i] == 0u8,
{
    let p = page_size as usize;
    let rem = image.len() % p;
    if rem == 0 {
        assert(final(image)@.take(old(image)@.len() as int) =~= old(image)@);
        return;
    }
    let target = image.len() + (p - rem);
    let ghost start = image@;
    let ghost len = start.len() as int;
    let ghost pi = p as int;
    assert((len + pi - len % pi) % pi == 0) by {
        lemma_fundamental_div_mod(len, pi);
        let q = len / pi;
        assert((pi * q + pi) % pi == 0) by (nonlinear_arith)
            requires
                pi > 0,
        ;
        assert(len + pi - len % pi == pi * q + pi);
    }
    while image.len() < target
        invariant
            start.len() <= image@.len() <= target,
            image@.take(start.len() as int) == start,
            forall|i: int| start.len() <= i < image@.len() ==> image@[i] == 0u8,
        decreases target - image@.len(),
    {
        let ghost before = image@;
        image.push(0u8);
        assert(image@.take(start.len() as int) =~= before.take(start.len() as int));
    }
}

/// Bytes of page `i` of a padded image.
pub open spec fn page_of(image: Seq<u8>, i: int, page: nat) -> Seq<u8> {
    image.subrange(i * page, (i + 1) * page)
}

/// Checksums of every page of a padded image, in page order.
pub open spec fn page_checksums_of(image: Seq<u8>, page: nat) -> Seq<u16> {
    Seq::new(image.len() / page, |i: int| crc16_xmodem(page_of(image, i, page)))
}

proof fn lemma_page_in_bounds(len: nat, page: nat, i: int)
    requires
        page > 0,
        len % page == 0,
        0 <= i < len / page,
    ensures
        0 <= i <= i * page,
        (i + 1) * page == i * page + page,
        (i + 1) * page <= len,
{
    lemma_fundamental_div_mod(len as int, page as int);
    let q = len / page;
    assert((i + 1) * page <= q * page) by (nonlinear_arith)
        requires
            i < q,
            page > 0,
    ;
    assert(0 <= i <= i * page) by (nonlinear_arith)
        requires
            0 <= i,
            page > 0,
    ;
    assert((i + 1) * page == i * page + page) by (nonlinear_arith);
}

/// Copies page `i` out of a padded image.
pub fn page_bytes(image: &Vec<u8>, page_size: u32, i: usize) -> (r: Vec<u8>)
    requires
        page_size > 0,
        image@.len() % (page_size as nat) == 0,
        i < image@.len() / (page_size as nat),
    ensures
        r@ == page_of(image@, i as int, page_size as nat),
{
    proof {
        lemma_page_in_bounds(image@.len(), page_size as nat, i as int);
        assert(image@.len() == image.len());
    }
    let p = page_size as usize;
    let start = i * p;
    let end = start + p;
    let mut r: Vec<u8> = Vec::new();
    let mut k: usize = start;
    while k < end
        invariant
            start <= k <= end <= image@.len(),
            r@ == image@.subrange(start as int, k as int),
        decreases end - k,
    {
        r.push(image[k]);
        assert(image@.subrange(start as int, k + 1) =~= image@.subrange(start as int, k as int).push(image@[k as int]));
        k = k + 1;
    }
    r
}

/// Checksums every page of a padded image.
pub fn page_checksums(image: &Vec<u8>, page_size: u32) -> (r: Vec<u16>)
    requires
        page_size > 0,
        image@.len() % (page_size as nat) == 0,
    ensures
        r@ == page_checksums_of(image@, page_size as nat),
{
    let n = image.len() / page_size as usize;
    let mut r: Vec<u16> = Vec::new();
    let mut i: usize = 0;
    while i < n
        invariant
            page_size > 0,
            image@.len() % (page_size as nat) == 0,
            n == image@.len() / (page_size as nat),
            i <= n,
            r@ == page_checksums_of(image@, page_size as nat).take(i as int),
        decreases n - i,
    {
        let page = page_bytes(image, page_size, i);
        let c = crc16_xmodem_of(&page);
        r.push(c);
        assert(r@ =~= page_checksums_of(image@, page_size as nat).take(i + 1));
        i = i + 1;
    }
    assert(r@ =~= page_checksums_of(image@, page_size as nat));
    r
}

/// Most pages that one checksum request may cover.
pub open spec fn max_pages_of(info: BinInfo) -> nat {
    (info.max_message_size / 2 - 2) as nat
}

/// Most pages that one checksum request may cover: two bytes per
/// checksum, with the response header taking the room of two.
pub fn max_pages_per_batch(info: &BinInfo) -> (r: u32)
    requires
        info.wf(),
    ensures
        r == max_pages_of(*info),
        r >= 1,
{
    info.max_message_size / 2 - 2
}

/// The checksum requests covering `num_pages` pages from address `address`,
/// in address order: (start address, page count), each at most `max` pages.
pub open spec fn batch_plan(address: int, num_pages: nat, max: nat, page: nat) -> Seq<(u32, u32)>
    decreases num_pages,
{
    if num_pages == 0 || max == 0 {
        Seq::empty()
    } else {
        let n = if num_pages < max { num_pages } else { max };
        seq![(address as u32, n as u32)] + batch_plan(address + n * page, (num_pages - n) as nat, max, page)
    }
}

/// Number of pages that a list of checksum requests covers.
pub open spec fn pages_covered(plan: Seq<(u32, u32)>) -> nat
    decreases plan.len(),
{
    if plan.len() == 0 {
        0
    } else {
        (plan[0].1 + pages_covered(plan.drop_first())) as nat
    }
}

/// The checksum requests of a session cover exactly the image's pages, so
/// that the answers, joined in request order, line up with the local pages.
pub proof fn lemma_batches_cover(address: int, num_pages: nat, max: nat, page: nat)
    requires
        max > 0,
        num_pages <= u32::MAX,
    ensures
        pages_covered(batch_plan(address, num_pages, max, page)) == num_pages,
    decreases num_pages,
{
    if num_pages > 0 {
        let n = if num_pages < max { num_pages } else { max };
        let plan = batch_plan(address, num_pages, max, page);
        lemma_batches_cover(address + n * page, (num_pages - n) as nat, max, page);
        assert(plan.drop_first() =~= batch_plan(address + n * page, (num_pages - n) as nat, max, page));
    }
}

/// `num_pages` pages take `ceil(num_pages / max)` checksum requests: every
/// request but the last covers `max` pages, the last covers what is left,
/// and each starts where the one before it ended.
pub proof fn lemma_batch_count(address: int, num_pages: nat, max: nat, page: nat)
    requires
        0 < max <= u32::MAX,
        address + num_pages * page <= u32::MAX,
        0 <= address,
    ensures
        batch_plan(address, num_pages, max, page).len() == (num_pages + max - 1) / (max as int),
        forall|k: int|
            0 <= k < batch_plan(address, num_pages, max, page).len() - 1 ==> (#[trigger] batch_plan(
                address,
                num_pages,
                max,
                page,
            )[k]).1 == max,
        forall|k: int|
            0 <= k < batch_plan(address, num_pages, max, page).len() ==> (#[trigger] batch_plan(
                address,
                num_pages,
                max,
                page,
            )[k]).0 == address + k * max * page,
        num_pages > 0 ==> batch_plan(address, num_pages, max, page).last().1 == num_pages - (
        batch_plan(address, num_pages, max, page).len() - 1) * max,
    decreases num_pages,
{
    let plan = batch_plan(address, num_pages, max, page);
    let m = max as int;
    assert(num_pages * page >= 0) by (nonlinear_arith);
    if num_pages == 0 {
        lemma_basic_div(m - 1, m);
    } else if num_pages <= max {
        lemma_basic_div(num_pages - 1, m);
        lemma_div_plus_one(num_pages - 1, m);
        assert(batch_plan(address + num_pages * page, 0, max, page).len() == 0);
        assert(plan.len() == 1);
        assert(plan[0].0 == address);
        assert(0 * m * page == 0) by (nonlinear_arith);
    } else {
        let next = address + m * page;
        let left = (num_pages - max) as nat;
        assert(m * page <= num_pages * page) by (nonlinear_arith)
            requires
                m <= num_pages,
        ;
        assert(next + left * page == address + num_pages * page) by (nonlinear_arith)
            requires
                next == address + m * page,
                left == num_pages - m,
        ;
        lemma_batch_count(next, left, max, page);
        let rest = batch_plan(next, left, max, page);
        assert(plan =~= seq![(address as u32, max as u32)] + rest);
        lemma_div_plus_one(num_pages - 1, m);
        assert(left + max - 1 == num_pages - 1);
        let n = rest.len() as int;
        assert((n - 1) * m + m == n * m) by (nonlinear_arith);
        assert forall|k: int| 0 <= k < plan.len() - 1 implies (#[trigger] plan[k]).1 == max by {
            if k > 0 {
                assert(plan[k] == rest[k - 1]);
            }
        }
        assert forall|k: int| 0 <= k < plan.len() implies (#[trigger] plan[k]).0 == address + k * max * page by {
            if k == 0 {
                assert(plan[0].0 == address);
                assert(0 * max * page == 0) by (nonlinear_arith);
            } else {
                assert(plan[k] == rest[k - 1]);
                assert(rest[k - 1].0 == next + (k - 1) * max * page);
                assert(next + (k - 1) * m * page == address + k * m * page) by (nonlinear_arith)
                    requires
                        next == address + m * page,
                ;
            }
        }
        assert(plan.last() == rest.last());
    }
}

/// The checksum requests for `num_pages` pages starting at `address`.
pub fn checksum_batches(address: u32, num_pages: u32, info: &BinInfo) -> (r: Vec<(u32, u32)>)
    requires
        info.wf(),
        address + num_pages * info.flash_page_size <= u32::MAX,
    ensures
        r@ == batch_plan(address as int, num_pages as nat, max_pages_of(*info), info.flash_page_size as nat),
{
    let max = max_pages_per_batch(info);
    let p = info.flash_page_size;
    let ghost full = batch_plan(address as int, num_pages as nat, max as nat, p as nat);
    let mut r: Vec<(u32, u32)> = Vec::new();
    let mut addr = address;
    let mut left = num_pages;
    assert(r@ + full =~= full);
    while left > 0
        invariant
            max >= 1,
            p > 0,
            addr + left * p <= u32::MAX,
            r@ + batch_plan(addr as int, left as nat, max as nat, p as nat) == full,
        decreases left,
    {
        let n = if left < max { left } else { max };
        assert(n * p <= left * p) by (nonlinear_arith)
            requires
                n <= left,
        ;
        assert((left - n) * p == left * p - n * p) by (nonlinear_arith);
        let ghost before = r@;
        r.push((addr, n));
        assert(r@ + batch_plan((addr + n * p) as int, (left - n) as nat, max as nat, p as nat)
            =~= before + batch_plan(addr as int, left as nat, max as nat, p as nat));
        addr = addr + n * p;
        left = left - n;
    }
    assert(r@ =~= full);
    r
}

/// Indices of the pages whose local checksum differs from the device's, in
/// increasing order.
pub open spec fn changed_pages(local: Seq<u16>, device: Seq<u16>) -> Seq<int>
    decreases local.len(),
{
    if local.len() == 0 {
        Seq::empty()
    } else {
        let k = local.len() - 1;
        changed_pages(local.take(k), device) + if local[k] != device[k] {
            seq![k]
        } else {
            Seq::empty()
        }
    }
}

/// Pages whose checksums differ: index, local checksum, device checksum.
pub open spec fn mismatches(local: Seq<u16>, device: Seq<u16>) -> Seq<(int, u16, u16)>
    decreases local.len(),
{
    if local.len() == 0 {
        Seq::empty()
    } else {
        let k = local.len() - 1;
        mismatches(local.take(k), device) + if local[k] != device[k] {
            seq![(k, local[k], device[k])]
        } else {
            Seq::empty()
        }
    }
}

/// The indices of a list of pages.
pub open spec fn indices_view(v: Seq<usize>) -> Seq<int> {
    v.map_values(|x: usize| x as int)
}

/// The view of a list of mismatches.
pub open spec fn mismatches_view(v: Seq<Mismatch>) -> Seq<(int, u16, u16)> {
    v.map_values(|m: Mismatch| (m.index as int, m.expected, m.observed))
}

/// Pages to write in checksum-diff mode: those whose local checksum differs
/// from the device's. Device checksums past the local pages are ignored.
pub fn pages_to_write(local: &Vec<u16>, device: &Vec<u16>) -> (r: Vec<usize>)
    requires
        device@.len() >= local@.len(),
    ensures
        indices_view(r@) == changed_pages(local@, device@),
{
    let mut r: Vec<usize> = Vec::new();
    let mut i: usize = 0;
    while i < local.len()
        invariant
            i <= local@.len() <= device@.len(),
            indices_view(r@) == changed_pages(local@.take(i as int), device@),
        decreases local@.len() - i,
    {
        let ghost before = r@;
        assert(local@.take(i + 1).take(i as int) =~= local@.take(i as int));
        if local[i] != device[i] {
            r.push(i);
        }
        assert(indices_view(r@) =~= changed_pages(local@.take(i + 1), device@));
        i = i + 1;
    }
    assert(local@.take(i as int) =~= local@);
    r
}

/// Every page index of an image of `n` pages, in order: the pages written
/// when checksums are skipped.
pub fn all_pages(n: usize) -> (r: Vec<usize>)
    ensures
        indices_view(r@) == Seq::new(n as nat, |i: int| i),
        r@.len() == n,
        forall|k: int| 0 <= k < n ==> #[trigger] r@[k] == k,
{
    let mut r: Vec<usize> = Vec::new();
    let mut i: usize = 0;
    while i < n
        invariant
            i <= n,
            r@.len() == i,
            forall|j: int| 0 <= j < i ==> r@[j] == j,
        decreases n - i,
    {
        r.push(i);
        i = i + 1;
    }
    assert(indices_view(r@) =~= Seq::new(n as nat, |j: int| j));
    r
}

/// Compares local and device checksums over the local pages and lists
/// every page that differs.
pub fn verify_checksums(local: &Vec<u16>, device: &Vec<u16>) -> (r: Vec<Mismatch>)
    requires
        device@.len() >= local@.len(),
    ensures
        mismatches_view(r@) == mismatches(local@, device@),
{
    let mut r: Vec<Mismatch> = Vec::new();
    let mut i: usize = 0;
    while i < local.len()
        invariant
            i <= local@.len() <= device@.len(),
            mismatches_view(r@) == mismatches(local@.take(i as int), device@),
        decreases local@.len() - i,
    {
        assert(local@.take(i + 1).take(i as int) =~= local@.take(i as int));
        if local[i] != device[i] {
            r.push(Mismatch { index: i, expected: local[i], observed: device[i] });
        }
        assert(mismatches_view(r@) =~= mismatches(local@.take(i + 1), device@));
        i = i + 1;
    }
    assert(local@.take(i as int) =~= local@);
    r
}

/// The write request for page `i` of a padded image flashed at `base`.
pub fn write_page_command(image: &Vec<u8>, base: u32, page_size: u32, i: usize) -> (c: Command)
    requires
        page_size > 0,
        image@.len() % (page_size as nat) == 0,
        i < image@.len() / (page_size as nat),
        base + image@.len() <= u32::MAX,
    ensures
        c.opcode == WRITE_FLASH_PAGE,
        c.payload@ == le_u32_bytes((base + i * page_size) as u32) + page_of(image@, i as int, page_size as nat),
{
    proof {
        lemma_page_in_bounds(image@.len(), page_size as nat, i as int);
    }
    let page = page_bytes(image, page_size, i);
    assert(i * page_size <= image@.len());
    let address = base + (i as u32) * page_size;
    write_flash_page_command(address, &page)
}

/// The pages a session writes: every page when checksums are skipped,
/// else those whose checksum differs from the device's.
pub open spec fn selected_pages(image: Seq<u8>, page: nat, skip_checksum: bool, device: Seq<u16>) -> Seq<int> {
    if skip_checksum {
        Seq::new(image.len() / page, |i: int| i)
    } else {
        changed_pages(page_checksums_of(image, page), device)
    }
}

/// Chooses the pages of a padded image to write.
pub fn pages_for_session(image: &Vec<u8>, page_size: u32, skip_checksum: bool, device: &Vec<u16>) -> (r: Vec<usize>)
    requires
        page_size > 0,
        image@.len() % (page_size as nat) == 0,
        !skip_checksum ==> device@.len() >= image@.len() / (page_size as nat),
    ensures
        indices_view(r@) == selected_pages(image@, page_size as nat, skip_checksum, device@),
        forall|k: int| 0 <= k < r@.len() ==> #[trigger] r@[k] < image@.len() / (page_size as nat),
{
    if skip_checksum {
        all_pages(image.len() / page_size as usize)
    } else {
        let local = page_checksums(image, page_size);
        let r = pages_to_write(&local, device);
        proof {
            lemma_changed_pages_bounded(local@, device@);
            assert forall|k: int| 0 <= k < r@.len() implies #[trigger] r@[k] < image@.len() / (page_size as nat) by {
                assert(indices_view(r@)[k] == r@[k] as int);
            }
        }
        r
    }
}

/// The write requests for the chosen pages of a padded image flashed at
/// `base`, in the order of `pages`.
pub fn write_commands(image: &Vec<u8>, base: u32, page_size: u32, pages: &Vec<usize>) -> (r: Vec<Command>)
    requires
        page_size > 0,
        image@.len() % (page_size as nat) == 0,
        base + image@.len() <= u32::MAX,
        forall|k: int| 0 <= k < pages@.len() ==> #[trigger] pages@[k] < image@.len() / (page_size as nat),
    ensures
        r@.len() == pages@.len(),
        forall|k: int| 0 <= k < r@.len() ==> (#[trigger] r@[k]).opcode == WRITE_FLASH_PAGE
            && r@[k].payload@ == le_u32_bytes((base + pages@[k] * page_size) as u32) + page_of(
                image@,
                pages@[k] as int,
                page_size as nat,
            ),
{
    let mut r: Vec<Command> = Vec::new();
    let mut k: usize = 0;
    while k < pages.len()
        invariant
            page_size > 0,
            image@.len() % (page_size as nat) == 0,
            base + image@.len() <= u32::MAX,
            forall|k: int| 0 <= k < pages@.len() ==> #[trigger] pages@[k] < image@.len() / (page_size as nat),
            k <= pages@.len(),
            r@.len() == k,
            forall|j: int| 0 <= j < k ==> (#[trigger] r@[j]).opcode == WRITE_FLASH_PAGE
                && r@[j].payload@ == le_u32_bytes((base + pages@[j] * page_size) as u32) + page_of(
                    image@,
                    pages@[j] as int,
                    page_size as nat,
                ),
        decreases pages@.len() - k,
    {
        let c = write_page_command(image, base, page_size, pages[k]);
        r.push(c);
        k = k + 1;
    }
    r
}

/// Checks a padded image against the device's page checksums and lists
/// every page that differs.
pub fn verify_image(image: &Vec<u8>, page_size: u32, device: &Vec<u16>) -> (r: Vec<Mismatch>)
    requires
        page_size > 0,
        image@.len() % (page_size as nat) == 0,
        device@.len() >= image@.len() / (page_size as nat),
    ensures
        mismatches_view(r@) == mismatches(page_checksums_of(image@, page_size as nat), device@),
{
    let local = page_checksums(image, page_size);
    verify_checksums(&local, device)
}

/// With local checksums `[a, b, c]` and device checksums `[a, x, c]`,
/// `x` differing from `b`, only page 1 is written.
pub proof fn lemma_only_differing_page_written(a: u16, b: u16, c: u16, x: u16)
    requires
        x != b,
    ensures
        changed_pages(seq![a, b, c], seq![a, x, c]) == seq![1int],
{
    let l = seq![a, b, c];
    let d = seq![a, x, c];
    assert(l.take(2).take(1) =~= seq![a]);
    assert(l.take(2).take(1).take(0) =~= Seq::<u16>::empty());
    assert(l.take(2) =~= seq![a, b]);
    assert(changed_pages(seq![a], d) =~= Seq::<int>::empty()) by {
        assert(seq![a].take(0) =~= Seq::<u16>::empty());
        assert(changed_pages(Seq::<u16>::empty(), d) =~= Seq::<int>::empty());
        assert(seq![a][0] == d[0]);
    }
    assert(changed_pages(seq![a, b], d) =~= seq![1int]) by {
        assert(seq![a, b].take(1) =~= seq![a]);
    }
    assert(changed_pages(l, d) =~= seq![1int]);
}

/// A page is written exactly when its checksums differ.
pub proof fn lemma_changed_pages_exact(local: Seq<u16>, device: Seq<u16>, k: int)
    requires
        device.len() >= local.len(),
    ensures
        changed_pages(local, device).contains(k) <==> (0 <= k < local.len() && local[k] != device[k]),
    decreases local.len(),
{
    if local.len() > 0 {
        let n = local.len() - 1;
        let front = local.take(n);
        lemma_changed_pages_exact(front, device, k);
        lemma_changed_pages_bounded(front, device);
        let tail = if local[n] != device[n] { seq![n] } else { Seq::<int>::empty() };
        let all = changed_pages(front, device) + tail;
        if all.contains(k) {
            let j = choose|j: int| 0 <= j < all.len() && all[j] == k;
            if j >= changed_pages(front, device).len() {
                assert(tail[j - changed_pages(front, device).len()] == k);
            } else {
                assert(changed_pages(front, device).contains(k));
            }
        }
        if 0 <= k < local.len() && local[k] != device[k] {
            if k == n {
                assert(all[all.len() - 1] == k);
            } else {
                assert(front[k] == local[k]);
                let j = choose|j: int| 0 <= j < changed_pages(front, device).len() && changed_pages(front, device)[j] == k;
                assert(all[j] == k);
            }
        }
    }
}

proof fn lemma_changed_pages_bounded(local: Seq<u16>, device: Seq<u16>)
    ensures
        forall|j: int| 0 <= j < changed_pages(local, device).len() ==> 0 <= #[trigger] changed_pages(local, device)[j] < local.len(),
    decreases local.len(),
{
    if local.len() > 0 {
        let n = local.len() - 1;
        let front = changed_pages(local.take(n), device);
        lemma_changed_pages_bounded(local.take(n), device);
        let all = changed_pages(local, device);
        assert forall|j: int| 0 <= j < all.len() implies 0 <= #[trigger] all[j] < local.len() by {
            if j < front.len() {
                assert(all[j] == front[j]);
            }
        }
    }
}

/// Verifying against a device that holds the image reports no mismatch;
/// device checksums past the local pages are ignored.
pub proof fn lemma_verify_unmodified(local: Seq<u16>, device: Seq<u16>)
    requires
        device.len() >= local.len(),
        forall|j: int| 0 <= j < local.len() ==> device[j] == local[j],
    ensures
        mismatches(local, device) == Seq::<(int, u16, u16)>::empty(),
    decreases local.len(),
{
    if local.len() > 0 {
        let front = local.take(local.len() - 1);
        lemma_verify_unmodified(front, device);
        assert(mismatches(local, device) =~= Seq::<(int, u16, u16)>::empty());
    }
}

/// Verifying against a device on which exactly one page `k` differs
/// reports exactly that page, with the local and the device checksum.
pub proof fn lemma_verify_one_corrupted(local: Seq<u16>, device: Seq<u16>, k: int)
    requires
        device.len() >= local.len(),
        0 <= k < local.len(),
        device[k] != local[k],
        forall|j: int| 0 <= j < local.len() && j != k ==> device[j] == local[j],
    ensures
        mismatches(local, device) == seq![(k, local[k], device[k])],
    decreases local.len(),
{
    let n = local.len() - 1;
    let front = local.take(n);
    if k == n {
        lemma_verify_unmodified(front, device);
    } else {
        lemma_verify_one_corrupted(front, device, k);
    }
    assert(mismatches(local, device) =~= seq![(k, local[k], device[k])]);
}

} // verus!
