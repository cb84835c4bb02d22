//! The PCI transport behind HDV: base address registers, their probing, and
//! how MMIO is routed.
//!
//! HDV sizes the registers from what the device reports, places them for the
//! guest, and delivers MMIO as a register and an offset. The emulator keeps bases
//! of its own, which the guest never sees, to route those.

use crate::pci::PciDetails;
use vstd::prelude::*;

verus! {

/// The internal base of register 0, the transport.
pub const BAR0_BASE: u64 = 0x1_0000_0000;

/// The internal base of register 2, the MSI-X table.
pub const BAR2_BASE: u64 = 0x1_0000_1000;

/// The internal bases leave this much for each register.
pub const BAR_SPAN: u64 = 0x1000;

/// The internal base of a register, where the device uses it.
pub open spec fn internal_base(bar: int) -> Option<u64> {
    if bar == 0 {
        Some(BAR0_BASE)
    } else if bar == 2 {
        Some(BAR2_BASE)
    } else {
        None
    }
}

/// The internal base of a register, where the device uses it.
pub fn bar_base(bar: u8) -> (r: Option<u64>)
    ensures
        r == internal_base(bar as int),
{
    if bar == 0 {
        Some(BAR0_BASE)
    } else if bar == 2 {
        Some(BAR2_BASE)
    } else {
        None
    }
}

/// A config space register is to be written.
#[derive(Clone, Copy, Debug, PartialEq, Eq, Structural)]
pub struct ConfigWrite {
    pub offset: u16,
    pub value: u32,
}

/// The writes that give the emulator its internal bases: two 64-bit registers,
/// low half first.
pub fn program_internal_bars() -> (w: [ConfigWrite; 4])
    ensures
        w@ == internal_bar_writes(),
{
    let w = [
        ConfigWrite { offset: 0x10, value: (BAR0_BASE % 0x1_0000_0000) as u32 },
        ConfigWrite { offset: 0x14, value: (BAR0_BASE / 0x1_0000_0000) as u32 },
        ConfigWrite { offset: 0x18, value: (BAR2_BASE % 0x1_0000_0000) as u32 },
        ConfigWrite { offset: 0x1c, value: (BAR2_BASE / 0x1_0000_0000) as u32 },
    ];
    assert(w@ =~= internal_bar_writes());
    w
}

/// The two dwords of a 64-bit register.
pub open spec fn bar_writes(offset: u16, base: u64) -> Seq<ConfigWrite> {
    seq![
        ConfigWrite { offset, value: (base % 0x1_0000_0000) as u32 },
        ConfigWrite { offset: (offset + 4) as u16, value: (base / 0x1_0000_0000) as u32 },
    ]
}

/// The writes that give the emulator its internal bases.
pub open spec fn internal_bar_writes() -> Seq<ConfigWrite> {
    bar_writes(0x10, BAR0_BASE) + bar_writes(0x18, BAR2_BASE)
}

// ---------------------------------------------------------------------------
// Reading and writing a register
// ---------------------------------------------------------------------------

/// What an MMIO access came to.
#[derive(Clone, Copy, Debug, PartialEq, Eq, Structural)]
pub enum MmioOutcome {
    Success,
    Failed,
    /// The device answers later.
    Deferred,
}

/// What to do next for an access to a register.
#[derive(Clone, Copy, Debug, PartialEq, Eq, Structural)]
pub enum BarStep {
    /// Access the device at this address.
    Mmio(u64),
    /// Let the device go on, and wait for its answer.
    Wait,
    /// The access is done: the data stands.
    Done,
    /// A read gives all ones.
    Ones,
}

/// Starts a read at `offset` in a register: a register that the device does not
/// use reads as ones.
pub fn read_bar(bar: u8, offset: u64) -> (s: BarStep)
    requires
        internal_base(bar as int) matches Some(base) ==> base + offset <= u64::MAX,
    ensures
        s == match internal_base(bar as int) {
            Some(base) => BarStep::Mmio((base + offset) as u64),
            None => BarStep::Ones,
        },
{
    match bar_base(bar) {
        Some(base) => BarStep::Mmio(base + offset),
        None => BarStep::Ones,
    }
}

/// Goes on with a read: an access that failed, at once or after a wait, reads as
/// ones.
pub fn read_outcome(outcome: MmioOutcome) -> (s: BarStep)
    ensures
        s == match outcome {
            MmioOutcome::Success => BarStep::Done,
            MmioOutcome::Failed => BarStep::Ones,
            MmioOutcome::Deferred => BarStep::Wait,
        },
{
    match outcome {
        MmioOutcome::Success => BarStep::Done,
        MmioOutcome::Failed => BarStep::Ones,
        MmioOutcome::Deferred => BarStep::Wait,
    }
}

/// Starts a write at `offset` in a register: one to a register that the device
/// does not use is dropped.
pub fn write_bar(bar: u8, offset: u64) -> (s: BarStep)
    requires
        internal_base(bar as int) matches Some(base) ==> base + offset <= u64::MAX,
    ensures
        s == match internal_base(bar as int) {
            Some(base) => BarStep::Mmio((base + offset) as u64),
            None => BarStep::Done,
        },
{
    match bar_base(bar) {
        Some(base) => BarStep::Mmio(base + offset),
        None => BarStep::Done,
    }
}

/// Goes on with a write: a failure is dropped.
pub fn write_outcome(outcome: MmioOutcome) -> (s: BarStep)
    ensures
        s == match outcome {
            MmioOutcome::Deferred => BarStep::Wait,
            _ => BarStep::Done,
        },
{
    match outcome {
        MmioOutcome::Deferred => BarStep::Wait,
        _ => BarStep::Done,
    }
}

/// Sets every byte to `value`.
pub fn fill(data: &mut [u8], value: u8)
    ensures
        final(data)@.len() == old(data)@.len(),
        forall|i: int| 0 <= i < old(data)@.len() ==> final(data)@[i] == value,
{
    let n: usize = data.len();
    let mut i: usize = 0;
    while i < n
        invariant
            i <= n,
            n == data@.len(),
            n == old(data)@.len(),
            forall|j: int| 0 <= j < i ==> data@[j] == value,
        decreases n - i,
    {
        data[i] = value;
        i = i + 1;
    }
}

/// A config register that could not be read reads as 0.
pub fn cfg_read(value: Option<u32>) -> (v: u32)
    ensures
        v == match value {
            Some(v) => v,
            None => 0,
        },
{
    match value {
        Some(v) => v,
        None => 0,
    }
}

// ---------------------------------------------------------------------------
// Probing
// ---------------------------------------------------------------------------

/// What a probe does next.
pub enum ProbeAction {
    /// Read the config register at this offset.
    Read(u16),
    /// Write the config register at this offset.
    Write(u16, u32),
    /// The probe is over, with these details.
    Finished(PciDetails),
}

/// How many steps a probe takes: three reads of the identity, and four accesses
/// for each of six registers.
pub const PROBE_STEPS: usize = 27;

/// The offset of base address register `i`.
pub open spec fn bar_offset(i: int) -> int {
    0x10 + 4 * i
}

/// The step is a read.
pub open spec fn reads_at(step: int) -> bool {
    step < 3 || (step - 3) % 2 == 0
}

/// How many reads stand before the step.
pub open spec fn reads_before(step: int) -> int {
    if step < 3 {
        step
    } else {
        3 + (step - 3) / 4 * 2 + ((step - 3) % 4 + 1) / 2
    }
}

/// The action at a step, when the reads so far gave `reads`. Each register is
/// read, written with ones, read for its size, and written back.
pub open spec fn probe_action(step: int, reads: Seq<u32>) -> ProbeAction {
    if step == 0 {
        ProbeAction::Read(0x00)
    } else if step == 1 {
        ProbeAction::Read(0x08)
    } else if step == 2 {
        ProbeAction::Read(0x2c)
    } else if step < PROBE_STEPS {
        let i = (step - 3) / 4;
        let phase = (step - 3) % 4;
        let offset = bar_offset(i) as u16;
        if phase == 1 {
            ProbeAction::Write(offset, 0xffff_ffff)
        } else if phase == 3 {
            ProbeAction::Write(offset, reads[3 + 2 * i])
        } else {
            ProbeAction::Read(offset)
        }
    } else {
        ProbeAction::Finished(probed_details(reads))
    }
}

/// The identity in three config registers, and the sizes of the base address
/// registers.
pub open spec fn details_of(id: u32, class: u32, sub: u32, bars: Seq<u32>) -> PciDetails {
    PciDetails {
        vendor_id: (id % 0x1_0000) as u16,
        device_id: (id / 0x1_0000) as u16,
        revision_id: (class % 0x100) as u8,
        prog_if: (class / 0x100 % 0x100) as u8,
        sub_class: (class / 0x1_0000 % 0x100) as u8,
        base_class: (class / 0x100_0000) as u8,
        sub_vendor_id: (sub % 0x1_0000) as u16,
        sub_system_id: (sub / 0x1_0000) as u16,
        probed_bars: [bars[0], bars[1], bars[2], bars[3], bars[4], bars[5]],
    }
}

/// The details that a probe finds.
pub open spec fn probed_details(reads: Seq<u32>) -> PciDetails {
    details_of(
        reads[0],
        reads[1],
        reads[2],
        seq![reads[4], reads[6], reads[8], reads[10], reads[12], reads[14]],
    )
}

/// The details in three config registers and six sizes.
pub fn details_from(id: u32, class: u32, sub: u32, bars: [u32; 6]) -> (d: PciDetails)
    ensures
        d == details_of(id, class, sub, bars@),
{
    let d = PciDetails {
        vendor_id: (id % 0x1_0000) as u16,
        device_id: (id / 0x1_0000) as u16,
        revision_id: (class % 0x100) as u8,
        prog_if: (class / 0x100 % 0x100) as u8,
        sub_class: (class / 0x1_0000 % 0x100) as u8,
        base_class: (class / 0x100_0000) as u8,
        sub_vendor_id: (sub % 0x1_0000) as u16,
        sub_system_id: (sub / 0x1_0000) as u16,
        probed_bars: bars,
    };
    assert(d.probed_bars =~= details_of(id, class, sub, bars@).probed_bars);
    d
}

/// A probe of the identity and of the sizes of the base address registers, which
/// leaves every register as it was.
pub struct BarProbe {
    pub step: usize,
    pub reads: Vec<u32>,
}

impl BarProbe {
    /// The reads so far are those of the steps so far.
    pub open spec fn wf(&self) -> bool {
        &&& self.step <= PROBE_STEPS
        &&& self.reads@.len() == reads_before(self.step as int)
    }

    /// A probe, and its first action.
    pub fn new() -> (r: (BarProbe, ProbeAction))
        ensures
            r.0.wf(),
            r.0.step == 0,
            r.0.reads@ == Seq::<u32>::empty(),
            r.1 == probe_action(0, r.0.reads@),
    {
        (BarProbe { step: 0, reads: Vec::new() }, ProbeAction::Read(0x00))
    }

    /// The action was done, and gave `value` where it was a read. The next action.
    pub fn answer(&mut self, value: u32) -> (a: ProbeAction)
        requires
            old(self).wf(),
            old(self).step < PROBE_STEPS,
        ensures
            final(self).wf(),
            final(self).step == old(self).step + 1,
            final(self).reads@ == if reads_at(old(self).step as int) {
                old(self).reads@.push(value)
            } else {
                old(self).reads@
            },
            a == probe_action(final(self).step as int, final(self).reads@),
    {
        if self.step < 3 || (self.step - 3) % 2 == 0 {
            self.reads.push(value);
        }
        self.step = self.step + 1;
        if self.step == 1 {
            ProbeAction::Read(0x08)
        } else if self.step == 2 {
            ProbeAction::Read(0x2c)
        } else if self.step < PROBE_STEPS {
            let i: usize = (self.step - 3) / 4;
            let phase: usize = (self.step - 3) % 4;
            let offset: u16 = (0x10 + 4 * i) as u16;
            if phase == 1 {
                ProbeAction::Write(offset, 0xffff_ffff)
            } else if phase == 3 {
                ProbeAction::Write(offset, self.reads[3 + 2 * i])
            } else {
                ProbeAction::Read(offset)
            }
        } else {
            let bars = [
                self.reads[4],
                self.reads[6],
                self.reads[8],
                self.reads[10],
                self.reads[12],
                self.reads[14],
            ];
            let d = details_from(self.reads[0], self.reads[1], self.reads[2], bars);
            assert(bars@ =~= seq![
                self.reads@[4],
                self.reads@[6],
                self.reads@[8],
                self.reads@[10],
                self.reads@[12],
                self.reads@[14],
            ]);
            ProbeAction::Finished(d)
        }
    }
}

// ---------------------------------------------------------------------------
// Laws
// ---------------------------------------------------------------------------

/// The action writes the config register at `offset`.
pub open spec fn writes_to(a: ProbeAction, offset: u16) -> bool {
    a matches ProbeAction::Write(o, _) && o == offset
}

/// The reads that a probe has made before a step, when the read at step `n` gives
/// `answers(n)`.
pub open spec fn reads_of(answers: spec_fn(int) -> u32, step: int) -> Seq<u32>
    decreases step,
{
    if step <= 0 {
        Seq::empty()
    } else if reads_at(step - 1) {
        reads_of(answers, step - 1).push(answers(step - 1))
    } else {
        reads_of(answers, step - 1)
    }
}

proof fn lemma_reads_of(answers: spec_fn(int) -> u32, step: int)
    requires
        0 <= step <= PROBE_STEPS,
    ensures
        reads_of(answers, step).len() == reads_before(step),
        forall|n: int|
            0 <= n < step && reads_at(n) ==> reads_of(answers, step)[#[trigger] reads_before(n)]
                == answers(n),
    decreases step,
{
    if step > 0 {
        lemma_reads_of(answers, step - 1);
        assert forall|n: int| 0 <= n < step && reads_at(n) implies reads_of(
            answers,
            step,
        )[#[trigger] reads_before(n)] == answers(n) by {
            if n == step - 1 {
            } else {
                assert(reads_before(n) < reads_before(step - 1)) by {
                    assert(reads_of(answers, step - 1).len() == reads_before(step - 1));
                }
            }
        }
    }
}

/// Whatever a device answers, a probe leaves base address register `i` with the
/// value that it first read from it: it writes the register twice, ones and then
/// that value, and no other step writes it.
pub proof fn law_probe_restores_the_register(answers: spec_fn(int) -> u32, i: int)
    requires
        0 <= i < 6,
    ensures
        ({
            let at = 3 + 4 * i;
            let off = bar_offset(i) as u16;
            &&& probe_action(at, reads_of(answers, at)) == ProbeAction::Read(off)
            &&& probe_action(at + 1, reads_of(answers, at + 1)) == ProbeAction::Write(
                off,
                0xffff_ffff,
            )
            &&& probe_action(at + 3, reads_of(answers, at + 3)) == ProbeAction::Write(
                off,
                answers(at),
            )
            &&& forall|n: int|
                0 <= n < PROBE_STEPS && n != at + 1 && n != at + 3 ==> !writes_to(
                    #[trigger] probe_action(n, reads_of(answers, n)),
                    off,
                )
        }),
{
    let at = 3 + 4 * i;
    let off = bar_offset(i) as u16;
    lemma_reads_of(answers, at + 3);
    assert(reads_before(at) == 3 + 2 * i);
    assert((at + 3 - 3) / 4 == i && (at + 3 - 3) % 4 == 3);
    assert((at + 1 - 3) / 4 == i && (at + 1 - 3) % 4 == 1);
    assert forall|n: int|
        0 <= n < PROBE_STEPS && n != at + 1 && n != at + 3 implies !writes_to(
        #[trigger] probe_action(n, reads_of(answers, n)),
        off,
    ) by {
        if n >= 3 {
            let j = (n - 3) / 4;
            let phase = (n - 3) % 4;
            if phase == 1 || phase == 3 {
                assert(j != i);
                assert(bar_offset(j) as u16 != off);
            }
        }
    }
}

/// The details that a probe ends with are made of what it read: the identity from
/// the first three reads, and the size of register `i` from the read that follows
/// the ones.
pub proof fn law_probe_reports_what_it_read(answers: spec_fn(int) -> u32)
    ensures
        probe_action(PROBE_STEPS as int, reads_of(answers, PROBE_STEPS as int))
            == ProbeAction::Finished(
            details_of(
                answers(0),
                answers(1),
                answers(2),
                Seq::new(6, |i: int| answers(3 + 4 * i + 2)),
            ),
        ),
{
    let reads = reads_of(answers, PROBE_STEPS as int);
    lemma_reads_of(answers, PROBE_STEPS as int);
    assert(reads[reads_before(0)] == answers(0));
    assert(reads[reads_before(1)] == answers(1));
    assert(reads[reads_before(2)] == answers(2));
    assert(reads[reads_before(5)] == answers(5));
    assert(reads[reads_before(9)] == answers(9));
    assert(reads[reads_before(13)] == answers(13));
    assert(reads[reads_before(17)] == answers(17));
    assert(reads[reads_before(21)] == answers(21));
    assert(reads[reads_before(25)] == answers(25));
    assert(probed_details(reads).probed_bars =~= details_of(
        answers(0),
        answers(1),
        answers(2),
        Seq::new(6, |i: int| answers(3 + 4 * i + 2)),
    ).probed_bars);
}

/// The two dwords of a 64-bit register read back as the base that was written.
pub proof fn law_bar_writes_hold_the_base(offset: u16, base: u64)
    requires
        offset + 4 <= u16::MAX,
    ensures
        bar_writes(offset, base)[0].value + bar_writes(offset, base)[1].value * 0x1_0000_0000
            == base,
        bar_writes(offset, base)[1].offset == bar_writes(offset, base)[0].offset + 4,
{
}

/// The details hold what each register gave: the size of base address register `i` in
/// place `i`, and the fields of the three words of the identity, which they make up
/// again.
pub proof fn law_details_hold_what_the_registers_gave(
    id: u32,
    class: u32,
    sub: u32,
    bars: [u32; 6],
    d: PciDetails,
)
    requires
        call_ensures(details_from, (id, class, sub, bars), d),
    ensures
        forall|i: int| 0 <= i < 6 ==> #[trigger] d.probed_bars@[i] == bars@[i],
        d.vendor_id + d.device_id * 0x1_0000 == id,
        d.revision_id + d.prog_if * 0x100 + d.sub_class * 0x1_0000 + d.base_class * 0x100_0000
            == class,
        d.sub_vendor_id + d.sub_system_id * 0x1_0000 == sub,
{
    assert forall|i: int| 0 <= i < 6 implies #[trigger] d.probed_bars@[i] == bars@[i] by {
        assert(i == 0 || i == 1 || i == 2 || i == 3 || i == 4 || i == 5);
    }
}

/// Whatever a device answers, a probe reads the identity at 0x00, 0x08 and 0x2c, and
/// for each base address register `i`, at 0x10 + 4 * i, it writes ones and reads them
/// back: that read is the size that stands in place `i` of the details.
pub proof fn law_probe_reports_each_register_in_its_place(answers: spec_fn(int) -> u32, i: int)
    requires
        0 <= i < 6,
    ensures
        ({
            let act = |n: int| probe_action(n, reads_of(answers, n));
            let off = (0x10 + 4 * i) as u16;
            &&& act(0) == ProbeAction::Read(0x00)
            &&& act(1) == ProbeAction::Read(0x08)
            &&& act(2) == ProbeAction::Read(0x2c)
            &&& act(3 + 4 * i + 1) == ProbeAction::Write(off, 0xffff_ffff)
            &&& act(3 + 4 * i + 2) == ProbeAction::Read(off)
            &&& act(27) matches ProbeAction::Finished(d) && {
                &&& d.probed_bars@[i] == answers(3 + 4 * i + 2)
                &&& d.vendor_id + d.device_id * 0x1_0000 == answers(0)
                &&& d.revision_id + d.prog_if * 0x100 + d.sub_class * 0x1_0000 + d.base_class
                    * 0x100_0000 == answers(1)
                &&& d.sub_vendor_id + d.sub_system_id * 0x1_0000 == answers(2)
            }
        }),
{
    let at = 3 + 4 * i;
    law_probe_reports_what_it_read(answers);
    assert((at + 1 - 3) / 4 == i && (at + 1 - 3) % 4 == 1);
    assert((at + 2 - 3) / 4 == i && (at + 2 - 3) % 4 == 2);
    assert(i == 0 || i == 1 || i == 2 || i == 3 || i == 4 || i == 5);
}

/// A probe goes on by one step with each answer, keeps the answers to its reads in
/// their order, and starts with a read at 0.
pub proof fn law_probe_steps_through(
    r: (BarProbe, ProbeAction),
    p: &mut BarProbe,
    value: u32,
    a: ProbeAction,
)
    requires
        call_ensures(BarProbe::new, (), r),
        call_ensures(BarProbe::answer, (p, value), a),
        p.step < 27,
    ensures
        r.0.step == 0 && r.0.reads@.len() == 0 && r.1 == ProbeAction::Read(0),
        final(p).step == old(p).step + 1,
        old(p).step < 3 || (old(p).step - 3) % 4 == 0 || (old(p).step - 3) % 4 == 2
            ==> final(p).reads@ == old(p).reads@.push(value),
        old(p).step >= 3 && ((old(p).step - 3) % 4 == 1 || (old(p).step - 3) % 4 == 3)
            ==> final(p).reads@ == old(p).reads@,
        a == probe_action(final(p).step as int, final(p).reads@),
{
}

/// An access to register 0 or 2 goes to the device at the base that was programmed
/// for that register, and the offset; the windows of the two do not meet. One to any
/// other register reaches no device: a read gives ones, and a write is dropped.
pub proof fn law_access_reaches_its_own_register(
    bar: u8,
    offset: u64,
    base: Option<u64>,
    read: BarStep,
    write: BarStep,
    bars: [ConfigWrite; 4],
)
    requires
        call_ensures(bar_base, (bar,), base),
        call_ensures(read_bar, (bar, offset), read),
        call_ensures(write_bar, (bar, offset), write),
        call_ensures(program_internal_bars, (), bars),
    ensures
        bar == 0 ==> {
            &&& 0x1_0000_0000 + offset <= u64::MAX ==> read == BarStep::Mmio(
                (0x1_0000_0000 + offset) as u64,
            )
            &&& base == Some(0x1_0000_0000u64)
            &&& bars@[0].offset == 0x10 && bars@[1].offset == 0x14
            &&& bars@[0].value + bars@[1].value * 0x1_0000_0000 == 0x1_0000_0000
        },
        bar == 2 ==> {
            &&& 0x1_0000_1000 + offset <= u64::MAX ==> read == BarStep::Mmio(
                (0x1_0000_1000 + offset) as u64,
            )
            &&& base == Some(0x1_0000_1000u64)
            &&& bars@[2].offset == 0x18 && bars@[3].offset == 0x1c
            &&& bars@[2].value + bars@[3].value * 0x1_0000_0000 == 0x1_0000_1000
        },
        bar == 0 || bar == 2 ==> write == read,
        bar != 0 && bar != 2 ==> base is None && read == BarStep::Ones && write == BarStep::Done,
{
    assert(bars@ == internal_bar_writes());
}

/// What an access that failed reads is ones; one that succeeded gives what was read;
/// one that is deferred is waited for. A write that fails is as one that succeeded.
pub proof fn law_outcomes_of_accesses(
    outcome: MmioOutcome,
    read: BarStep,
    write: BarStep,
    value: Option<u32>,
    v: u32,
)
    requires
        call_ensures(read_outcome, (outcome,), read),
        call_ensures(write_outcome, (outcome,), write),
        call_ensures(cfg_read, (value,), v),
    ensures
        outcome is Success ==> read == BarStep::Done && write == BarStep::Done,
        outcome is Failed ==> read == BarStep::Ones && write == BarStep::Done,
        outcome is Deferred ==> read == BarStep::Wait && write == BarStep::Wait,
        value matches Some(x) ==> v == x,
        value is None ==> v == 0,
{
}

/// Filling sets every byte, and adds none.
pub proof fn law_fill_sets_every_byte(data: &mut [u8], value: u8, u: ())
    requires
        call_ensures(fill, (data, value), u),
    ensures
        final(data)@ == Seq::new(old(data)@.len(), |i: int| value),
{
    assert(final(data)@ =~= Seq::new(data@.len(), |i: int| value));
}

} // verus!
