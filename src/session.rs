//! A flashing or verification session as a state machine: each reply of the
//! device moves the session on and yields the next action. The caller owns
//! the transport, sends each command it is given and hands back the reply.
use vstd::prelude::*;
use crate::catalog::{
    bare_command, bin_info_outcome, copy_bytes, bin_info_response, checksum_pages_command, checksum_pages_response,
    checksums_of, BinInfoMode, BININFO, CHKSUM_PAGES, RESET_INTO_APP, START_FLASH,
};
use crate::command::{response_outcome, response_payload, Command, DecodeError, Error};
use crate::flash::{
    batch_plan, lemma_batches_cover, max_pages_of, mismatches, mismatches_view, needs_start_flash,
    pad_image, padded_len, page_checksums_of, page_of, pages_covered, pages_for_session, selected_pages,
    verify_image, write_commands, checksum_batches, FlashError, FlashStage, Mismatch,
};
use crate::wire::le_u32_bytes;

verus! {

/// Where a session stands.
#[derive(Debug, Clone, Copy, PartialEq, Eq, Structural)]
pub enum Phase {
    ModeQuery,
    StartFlash,
    Checksums,
    Writing,
    Reboot,
    Done,
    Failed,
}

/// What the caller does next.
#[derive(Debug)]
pub enum Action {
    /// Send this command and hand back the reply.
    Send(Command),
    /// The session ended well; a verification lists the differing pages.
    Finished(Vec<Mismatch>),
    /// The session failed.
    Abort(FlashError),
}

/// The state of one session.
#[derive(Debug)]
pub struct Session {
    pub address: u32,
    pub image: Vec<u8>,
    pub skip_checksum: bool,
    pub verify_only: bool,
    pub phase: Phase,
    pub page_size: u32,
    pub batches: Vec<(u32, u32)>,
    pub device: Vec<u16>,
    pub writes: Vec<Command>,
    pub next: usize,
}

/// The opcode and payload of a command.
pub open spec fn command_view(c: Command) -> (u32, Seq<u8>) {
    (c.opcode, c.payload@)
}

/// The stage that a phase reports its failures under.
pub open spec fn stage_of(p: Phase) -> FlashStage {
    match p {
        Phase::ModeQuery => FlashStage::ModeQuery,
        Phase::StartFlash => FlashStage::StartFlash,
        Phase::Checksums => FlashStage::ChecksumBatch,
        Phase::Writing => FlashStage::PageWrite,
        _ => FlashStage::Reboot,
    }
}

impl Phase {
    /// The stage that this phase reports its failures under.
    pub fn stage(&self) -> (r: FlashStage)
        ensures
            r == stage_of(*self),
    {
        match self {
            Phase::ModeQuery => FlashStage::ModeQuery,
            Phase::StartFlash => FlashStage::StartFlash,
            Phase::Checksums => FlashStage::ChecksumBatch,
            Phase::Writing => FlashStage::PageWrite,
            _ => FlashStage::Reboot,
        }
    }
}

/// Whether an image of `len` bytes, padded to pages of `page` bytes, fits
/// at `address` in the 32-bit address space.
pub open spec fn image_fits(address: u32, len: nat, page: u32) -> bool {
    len + page <= usize::MAX && address + padded_len(len, page as nat) <= u32::MAX
}

impl Session {
    /// Number of pages of the padded image.
    pub open spec fn num_pages(&self) -> nat {
        self.image@.len() / (self.page_size as nat)
    }

    /// Whether the session asks the device for checksums.
    pub open spec fn wants_checksums(&self) -> bool {
        self.verify_only || !self.skip_checksum
    }

    /// The write requests match the pages chosen for writing.
    pub open spec fn writes_planned(&self) -> bool {
        let sel = selected_pages(self.image@, self.page_size as nat, self.skip_checksum, self.device@);
        &&& self.writes@.len() == sel.len()
        &&& forall|k: int|
            0 <= k < sel.len() ==> command_view(#[trigger] self.writes@[k]) == (
                crate::catalog::WRITE_FLASH_PAGE,
                le_u32_bytes((self.address + sel[k] * self.page_size) as u32) + page_of(
                    self.image@,
                    sel[k],
                    self.page_size as nat,
                ),
            )
    }

    /// The session's internal invariant.
    pub open spec fn wf(&self) -> bool {
        &&& self.phase != Phase::ModeQuery && self.phase != Phase::Failed ==> {
            &&& self.page_size > 0
            &&& self.image@.len() % (self.page_size as nat) == 0
            &&& self.address + self.image@.len() <= u32::MAX
            &&& pages_covered(self.batches@) == self.num_pages()
        }
        &&& self.phase == Phase::Checksums ==> {
            &&& self.wants_checksums()
            &&& self.next < self.batches@.len()
            &&& self.device@.len() + pages_covered(self.batches@.skip(self.next as int)) == self.num_pages()
        }
        &&& (self.phase == Phase::Writing || self.phase == Phase::Reboot) ==> {
            &&& !self.verify_only
            &&& self.writes_planned()
            &&& self.wants_checksums() ==> self.device@.len() >= self.num_pages()
        }
        &&& self.phase == Phase::Writing ==> self.next < self.writes@.len()
    }

    /// Whether the session still waits for a reply.
    pub open spec fn active(&self) -> bool {
        self.phase != Phase::Done && self.phase != Phase::Failed
    }
}

/// The checksum request for one batch.
pub open spec fn checksum_request(b: (u32, u32)) -> (u32, Seq<u8>) {
    (CHKSUM_PAGES, le_u32_bytes(b.0) + le_u32_bytes(b.1))
}

/// A command without payload.
pub open spec fn bare_request(opcode: u32) -> (u32, Seq<u8>) {
    (opcode, Seq::empty())
}

/// Once the write requests are planned: the first write, or the reset
/// when nothing needs writing.
pub open spec fn writes_step(s: Session, r: Action) -> bool {
    &&& s.writes_planned()
    &&& if s.writes@.len() > 0 {
        &&& s.phase == Phase::Writing
        &&& s.next == 0
        &&& r matches Action::Send(c) && command_view(c) == command_view(s.writes@[0])
    } else {
        &&& s.phase == Phase::Reboot
        &&& r matches Action::Send(c) && command_view(c) == bare_request(RESET_INTO_APP)
    }
}

/// Once every device checksum is in: the verdict of a verification, else
/// the writes.
pub open spec fn checksums_done_step(s: Session, r: Action) -> bool {
    if s.verify_only {
        &&& s.phase == Phase::Done
        &&& r matches Action::Finished(m) && mismatches_view(m@) == mismatches(
            page_checksums_of(s.image@, s.page_size as nat),
            s.device@,
        )
    } else {
        writes_step(s, r)
    }
}

/// Once the device is armed: the first checksum request, or what follows
/// the checksums when none is needed.
pub open spec fn armed_step(s: Session, r: Action) -> bool {
    if s.wants_checksums() && s.batches@.len() > 0 {
        &&& s.phase == Phase::Checksums
        &&& s.next == 0
        &&& s.device@.len() == 0
        &&& r matches Action::Send(c) && command_view(c) == checksum_request(s.batches@[0])
    } else {
        &&& s.device@.len() == 0
        &&& checksums_done_step(s, r)
    }
}

/// A failed session with its stage and error.
pub open spec fn aborted(s: Session, r: Action, stage: FlashStage, e: Error) -> bool {
    &&& s.phase == Phase::Failed
    &&& r matches Action::Abort(f) && f.stage == stage && f.error == e
}

/// The fields that no reply changes.
pub open spec fn same_request(a: Session, b: Session) -> bool {
    &&& a.address == b.address
    &&& a.skip_checksum == b.skip_checksum
    &&& a.verify_only == b.verify_only
}

/// The image and plan that no reply after the mode query changes.
pub open spec fn same_plan(a: Session, b: Session) -> bool {
    &&& a.image@ == b.image@
    &&& a.page_size == b.page_size
    &&& a.batches@ == b.batches@
}

/// The reply to the mode query: the device's mode and geometry. The image
/// is padded and the checksum batches planned; a flashing session arms a
/// device that is not in its bootloader, a verification never does.
pub open spec fn mode_reply_step(before: Session, after: Session, msg: Seq<u8>, r: Action) -> bool {
    match bin_info_outcome(msg) {
        Err(e) => aborted(after, r, FlashStage::ModeQuery, e),
        Ok(info) => if !image_fits(before.address, before.image@.len(), info.flash_page_size) {
            aborted(after, r, FlashStage::ModeQuery, Error::ImageOutOfRange)
        } else {
            &&& after.page_size == info.flash_page_size
            &&& after.image@.len() == padded_len(before.image@.len(), info.flash_page_size as nat)
            &&& after.image@.take(before.image@.len() as int) == before.image@
            &&& forall|i: int| before.image@.len() <= i < after.image@.len() ==> after.image@[i] == 0u8
            &&& after.batches@ == batch_plan(
                before.address as int,
                after.num_pages(),
                max_pages_of(info),
                info.flash_page_size as nat,
            )
            &&& if info.mode != BinInfoMode::Bootloader && !before.verify_only {
                &&& after.phase == Phase::StartFlash
                &&& r matches Action::Send(c) && command_view(c) == bare_request(START_FLASH)
            } else {
                armed_step(after, r)
            }
        },
    }
}

/// The reply to a checksum request: its checksums are appended, then the
/// next batch is requested or the checksums are done.
pub open spec fn checksum_reply_step(before: Session, after: Session, msg: Seq<u8>, r: Action) -> bool {
    let b = before.batches@[before.next as int];
    match response_outcome(msg) {
        Err(e) => aborted(after, r, FlashStage::ChecksumBatch, e),
        Ok(p) => if p.len() < 2 * b.1 {
            aborted(after, r, FlashStage::ChecksumBatch, Error::Decode(DecodeError::Truncated))
        } else {
            &&& after.device@ == before.device@ + checksums_of(p, b.1 as nat)
            &&& if before.next + 1 < before.batches@.len() {
                &&& after.phase == Phase::Checksums
                &&& after.next == before.next + 1
                &&& r matches Action::Send(c) && command_view(c) == checksum_request(before.batches@[before.next + 1])
            } else {
                checksums_done_step(after, r)
            }
        },
    }
}

impl Session {
    /// Starts a session that flashes `image` at `address` (or only compares
    /// it, with `verify_only`), and returns the first command: the mode
    /// query.
    pub fn new(address: u32, image: Vec<u8>, skip_checksum: bool, verify_only: bool) -> (r: (Session, Command))
        ensures
            r.0.phase == Phase::ModeQuery,
            r.0.address == address,
            r.0.image@ == image@,
            r.0.skip_checksum == skip_checksum,
            r.0.verify_only == verify_only,
            r.0.wf(),
            command_view(r.1) == bare_request(BININFO),
    {
        let s = Session {
            address,
            image,
            skip_checksum,
            verify_only,
            phase: Phase::ModeQuery,
            page_size: 0,
            batches: Vec::new(),
            device: Vec::new(),
            writes: Vec::new(),
            next: 0,
        };
        (s, bare_command(BININFO))
    }

    fn fail(&mut self, stage: FlashStage, e: Error) -> (r: Action)
        ensures
            aborted(*final(self), r, stage, e),
            same_request(*old(self), *final(self)),
            same_plan(*old(self), *final(self)),
            final(self).wf(),
    {
        self.phase = Phase::Failed;
        Action::Abort(FlashError::new(stage, e))
    }

    fn start_writes(&mut self) -> (r: Action)
        requires
            !old(self).verify_only,
            old(self).page_size > 0,
            old(self).image@.len() % (old(self).page_size as nat) == 0,
            old(self).address + old(self).image@.len() <= u32::MAX,
            pages_covered(old(self).batches@) == old(self).num_pages(),
            old(self).wants_checksums() ==> old(self).device@.len() >= old(self).num_pages(),
        ensures
            writes_step(*final(self), r),
            final(self).wf(),
            same_request(*old(self), *final(self)),
            same_plan(*old(self), *final(self)),
            final(self).device@ == old(self).device@,
    {
        let pages = pages_for_session(&self.image, self.page_size, self.skip_checksum, &self.device);
        self.writes = write_commands(&self.image, self.address, self.page_size, &pages);
        self.next = 0;
        assert(self.writes_planned()) by {
            let sel = selected_pages(self.image@, self.page_size as nat, self.skip_checksum, self.device@);
            assert forall|k: int| 0 <= k < sel.len() implies command_view(#[trigger] self.writes@[k]) == (
                crate::catalog::WRITE_FLASH_PAGE,
                le_u32_bytes((self.address + sel[k] * self.page_size) as u32) + page_of(
                    self.image@,
                    sel[k],
                    self.page_size as nat,
                ),
            ) by {
                assert(crate::flash::indices_view(pages@)[k] == pages@[k] as int);
            }
        }
        if self.writes.len() > 0 {
            self.phase = Phase::Writing;
            let c = Command::new(self.writes[0].opcode, copy_bytes(&self.writes[0].payload));
            Action::Send(c)
        } else {
            self.phase = Phase::Reboot;
            Action::Send(bare_command(RESET_INTO_APP))
        }
    }

    fn checksums_done(&mut self) -> (r: Action)
        requires
            old(self).wants_checksums(),
            old(self).page_size > 0,
            old(self).image@.len() % (old(self).page_size as nat) == 0,
            old(self).address + old(self).image@.len() <= u32::MAX,
            pages_covered(old(self).batches@) == old(self).num_pages(),
            old(self).device@.len() == old(self).num_pages(),
        ensures
            checksums_done_step(*final(self), r),
            final(self).wf(),
            same_request(*old(self), *final(self)),
            same_plan(*old(self), *final(self)),
            final(self).device@ == old(self).device@,
    {
        if self.verify_only {
            let m = verify_image(&self.image, self.page_size, &self.device);
            self.phase = Phase::Done;
            Action::Finished(m)
        } else {
            self.start_writes()
        }
    }

    fn armed(&mut self) -> (r: Action)
        requires
            old(self).page_size > 0,
            old(self).image@.len() % (old(self).page_size as nat) == 0,
            old(self).address + old(self).image@.len() <= u32::MAX,
            pages_covered(old(self).batches@) == old(self).num_pages(),
        ensures
            armed_step(*final(self), r),
            final(self).wf(),
            same_request(*old(self), *final(self)),
            same_plan(*old(self), *final(self)),
    {
        self.device = Vec::new();
        if (self.verify_only || !self.skip_checksum) && self.batches.len() > 0 {
            self.phase = Phase::Checksums;
            self.next = 0;
            assert(self.batches@.skip(0) =~= self.batches@);
            let (a, n) = self.batches[0];
            Action::Send(checksum_pages_command(a, n))
        } else {
            if self.verify_only || !self.skip_checksum {
                assert(self.batches@.len() == 0);
                self.checksums_done()
            } else {
                self.start_writes()
            }
        }
    }

    fn on_mode(&mut self, msg: &Vec<u8>) -> (r: Action)
        requires
            old(self).phase == Phase::ModeQuery,
        ensures
            final(self).wf(),
            same_request(*old(self), *final(self)),
            mode_reply_step(*old(self), *final(self), msg@, r),
    {
        let info = match bin_info_response(msg) {
            Ok(info) => info,
            Err(e) => {
                return self.fail(FlashStage::ModeQuery, e);
            },
        };
        let p = info.flash_page_size;
        if self.image.len() > usize::MAX - p as usize {
            return self.fail(FlashStage::ModeQuery, Error::ImageOutOfRange);
        }
        pad_image(&mut self.image, p);
        if self.image.len() as u64 > u32::MAX as u64 - self.address as u64 {
            return self.fail(FlashStage::ModeQuery, Error::ImageOutOfRange);
        }
        self.page_size = p;
        let num_pages = self.image.len() / p as usize;
        proof {
            let len = self.image@.len() as int;
            vstd::arithmetic::div_mod::lemma_fundamental_div_mod(len, p as int);
            assert(len % (p as int) == 0);
            assert(num_pages as int == len / (p as int));
            assert(num_pages * p == self.image@.len()) by (nonlinear_arith)
                requires
                    len == (p as int) * (len / (p as int)) + 0,
                    num_pages as int == len / (p as int),
                    len == self.image@.len(),
            ;
            assert(num_pages <= self.image@.len()) by (nonlinear_arith)
                requires
                    num_pages * p == self.image@.len(),
                    p > 0,
            ;
        }
        self.batches = checksum_batches(self.address, num_pages as u32, &info);
        proof {
            lemma_batches_cover(self.address as int, num_pages as nat, max_pages_of(info), p as nat);
        }
        if needs_start_flash(&info) && !self.verify_only {
            self.phase = Phase::StartFlash;
            Action::Send(bare_command(START_FLASH))
        } else {
            self.armed()
        }
    }

    fn on_checksums(&mut self, msg: &Vec<u8>) -> (r: Action)
        requires
            old(self).wf(),
            old(self).phase == Phase::Checksums,
        ensures
            final(self).wf(),
            same_request(*old(self), *final(self)),
            same_plan(*old(self), *final(self)),
            checksum_reply_step(*old(self), *final(self), msg@, r),
    {
        let (_, n) = self.batches[self.next];
        let chk = match checksum_pages_response(msg, n) {
            Ok(c) => c,
            Err(e) => {
                return self.fail(FlashStage::ChecksumBatch, e);
            },
        };
        let ghost rest = self.batches@.skip(self.next as int);
        assert(rest.drop_first() =~= self.batches@.skip(self.next + 1));
        assert(chk.checksums@.len() == n);
        assert(rest[0] == self.batches@[self.next as int]);
        assert(pages_covered(rest) == rest[0].1 + pages_covered(rest.drop_first()));
        append_checksums(&mut self.device, &chk.checksums);
        let nb = self.batches.len();
        assert(self.next < nb);
        self.next = self.next + 1;
        if self.next < self.batches.len() {
            let (a, m) = self.batches[self.next];
            Action::Send(checksum_pages_command(a, m))
        } else {
            assert(self.batches@.skip(self.next as int).len() == 0);
            assert(pages_covered(self.batches@.skip(self.next as int)) == 0);
            self.checksums_done()
        }
    }

    /// Moves the session on by the device's reply to the last command sent:
    /// the whole response message, or the transport's failure.
    pub fn on_reply(&mut self, reply: Result<Vec<u8>, Error>) -> (r: Action)
        requires
            old(self).wf(),
            old(self).active(),
        ensures
            final(self).wf(),
            same_request(*old(self), *final(self)),
            reply matches Err(e) ==> aborted(*final(self), r, stage_of(old(self).phase), e),
            reply matches Ok(msg) ==> match old(self).phase {
                Phase::ModeQuery => mode_reply_step(*old(self), *final(self), msg@, r),
                Phase::StartFlash => match response_outcome(msg@) {
                    Err(e) => aborted(*final(self), r, FlashStage::StartFlash, e),
                    Ok(_) => {
                        &&& same_plan(*old(self), *final(self))
                        &&& armed_step(*final(self), r)
                    },
                },
                Phase::Checksums => {
                    &&& same_plan(*old(self), *final(self))
                    &&& checksum_reply_step(*old(self), *final(self), msg@, r)
                },
                Phase::Writing => match response_outcome(msg@) {
                    Err(e) => aborted(*final(self), r, FlashStage::PageWrite, e),
                    Ok(_) => {
                        &&& same_plan(*old(self), *final(self))
                        &&& final(self).writes@ == old(self).writes@
                        &&& if old(self).next + 1 < old(self).writes@.len() {
                            &&& final(self).phase == Phase::Writing
                            &&& final(self).next == old(self).next + 1
                            &&& r matches Action::Send(c) && command_view(c) == command_view(
                                old(self).writes@[old(self).next + 1],
                            )
                        } else {
                            &&& final(self).phase == Phase::Reboot
                            &&& r matches Action::Send(c) && command_view(c) == bare_request(RESET_INTO_APP)
                        }
                    },
                },
                _ => match response_outcome(msg@) {
                    Err(e) => aborted(*final(self), r, FlashStage::Reboot, e),
                    Ok(_) => final(self).phase == Phase::Done && (r matches Action::Finished(m) && m@.len() == 0),
                },
            },
    {
        let msg = match reply {
            Ok(msg) => msg,
            Err(e) => {
                return self.fail(self.phase.stage(), e);
            },
        };
        match self.phase {
            Phase::ModeQuery => self.on_mode(&msg),
            Phase::Checksums => self.on_checksums(&msg),
            Phase::StartFlash => match response_payload(&msg) {
                Err(e) => self.fail(FlashStage::StartFlash, e),
                Ok(_) => self.armed(),
            },
            Phase::Writing => match response_payload(&msg) {
                Err(e) => self.fail(FlashStage::PageWrite, e),
                Ok(_) => {
                    let nw = self.writes.len();
                    assert(self.next < nw);
                    self.next = self.next + 1;
                    if self.next < self.writes.len() {
                        let c = Command::new(self.writes[self.next].opcode, copy_bytes(&self.writes[self.next].payload));
                        Action::Send(c)
                    } else {
                        self.phase = Phase::Reboot;
                        Action::Send(bare_command(RESET_INTO_APP))
                    }
                },
            },
            _ => match response_payload(&msg) {
                Err(e) => self.fail(FlashStage::Reboot, e),
                Ok(_) => {
                    self.phase = Phase::Done;
                    Action::Finished(Vec::new())
                },
            },
        }
    }
}

/// Appends `more` to `device`.
fn append_checksums(device: &mut Vec<u16>, more: &Vec<u16>)
    ensures
        final(device)@ == old(device)@ + more@,
{
    let mut k: usize = 0;
    while k < more.len()
        invariant
            k <= more@.len(),
            device@ == old(device)@ + more@.take(k as int),
        decreases more@.len() - k,
    {
        device.push(more[k]);
        assert(more@.take(k + 1) =~= more@.take(k as int).push(more@[k as int]));
        k = k + 1;
    }
    assert(more@.take(k as int) =~= more@);
}

} // verus!
