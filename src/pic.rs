use vstd::prelude::*;

verus! {

/// Command port of the master controller.
pub const MASTER_COMMAND_PORT: u16 = 0x20;

/// Command port of the slave controller.
pub const SLAVE_COMMAND_PORT: u16 = 0xA0;

/// The command that makes the next read of a command port return the
/// in-service register.
pub const CMD_READ_IN_SERVICE: u8 = 0x0b;

/// The master line that the slave is cascaded on.
pub const CASCADE_LINE: u8 = 2;

/// The controllers an end of interrupt goes to. Where both do, the slave's
/// command is sent first, then the master's.
#[derive(Clone, Copy, Debug, PartialEq, Eq, Structural)]
pub struct EoiTargets {
    pub slave: bool,
    pub master: bool,
}

/// The abstract state of the pair: the vector bases and, per controller, which
/// of its eight lines are in service (delivered and not yet acknowledged).
pub struct PicsModel {
    pub master_offset: u8,
    pub slave_offset: u8,
    pub master: Seq<bool>,
    pub slave: Seq<bool>,
}

/// Whether a controller whose lines arrive from `offset` on handles `vector`.
pub open spec fn handles(offset: u8, vector: u8) -> bool {
    offset <= vector < offset + 8
}

/// Whether line `line` (0 to 15) of the pair is in service.
pub open spec fn line_in_service(m: PicsModel, line: int) -> bool {
    if line < 8 { m.master[line] } else { m.slave[line - 8] }
}

/// First line in service, at or after `from`; the length where there is none.
pub open spec fn first_set(s: Seq<bool>, from: int) -> int
    decreases s.len() - from,
{
    if from >= s.len() || from < 0 {
        s.len() as int
    } else if s[from] {
        from
    } else {
        first_set(s, from + 1)
    }
}

/// A non-specific end of interrupt: the line of highest priority (lowest
/// number) that is in service leaves service.
pub open spec fn clear_first(s: Seq<bool>) -> Seq<bool> {
    if first_set(s, 0) < s.len() {
        s.update(first_set(s, 0), false)
    } else {
        s
    }
}

/// A request on `line` (0 to 15): a line in service is not delivered again
/// and nothing changes; else the line enters service (a slave line with the
/// cascade line of the master) and its vector is delivered.
pub open spec fn raise_spec(m: PicsModel, line: int) -> (PicsModel, Option<u8>) {
    if line_in_service(m, line) {
        (m, None)
    } else if line < 8 {
        (PicsModel { master: m.master.update(line, true), ..m }, Some((m.master_offset + line) as u8))
    } else {
        (
            PicsModel {
                master: m.master.update(CASCADE_LINE as int, true),
                slave: m.slave.update(line - 8, true),
                ..m
            },
            Some((m.slave_offset + line - 8) as u8),
        )
    }
}

/// The controllers to acknowledge `vector` through: both (the slave first)
/// for a slave vector, the master alone for a master vector, none for
/// another vector.
pub open spec fn eoi_targets(m: PicsModel, vector: u8) -> EoiTargets {
    EoiTargets {
        slave: handles(m.slave_offset, vector),
        master: handles(m.slave_offset, vector) || handles(m.master_offset, vector),
    }
}

/// The state after acknowledging `vector`: each controller acknowledged
/// takes its line of highest priority out of service.
pub open spec fn eoi_spec(m: PicsModel, vector: u8) -> PicsModel {
    if handles(m.slave_offset, vector) {
        PicsModel { master: clear_first(m.master), slave: clear_first(m.slave), ..m }
    } else if handles(m.master_offset, vector) {
        PicsModel { master: clear_first(m.master), ..m }
    } else {
        m
    }
}

/// The state after requests on each of `lines` in turn, none acknowledged.
pub open spec fn raise_all(m: PicsModel, lines: Seq<int>) -> PicsModel
    decreases lines.len(),
{
    if lines.len() == 0 {
        m
    } else {
        raise_spec(raise_all(m, lines.drop_last()), lines.last()).0
    }
}

/// A cascaded master/slave pair of interrupt controllers.
pub struct ChainedPics {
    master_offset: u8,
    slave_offset: u8,
    master: [bool; 8],
    slave: [bool; 8],
}

impl View for ChainedPics {
    type V = PicsModel;

    closed spec fn view(&self) -> PicsModel {
        PicsModel {
            master_offset: self.master_offset,
            slave_offset: self.slave_offset,
            master: self.master@,
            slave: self.slave@,
        }
    }
}

/// Offsets for which each controller's eight vectors fit in a byte and the
/// two ranges do not overlap.
pub open spec fn offsets_ok(master_offset: u8, slave_offset: u8) -> bool {
    &&& master_offset + 8 <= 256
    &&& slave_offset + 8 <= 256
    &&& (master_offset + 8 <= slave_offset || slave_offset + 8 <= master_offset)
}

pub open spec fn model_wf(m: PicsModel) -> bool {
    offsets_ok(m.master_offset, m.slave_offset) && m.master.len() == 8 && m.slave.len() == 8
}

impl ChainedPics {
    pub open spec fn wf(&self) -> bool {
        model_wf(self@)
    }

    /// A pair remapped so that line 0 arrives at `master_offset` and line 8
    /// at `slave_offset`, with no line in service.
    pub fn new(master_offset: u8, slave_offset: u8) -> (r: ChainedPics)
        requires
            offsets_ok(master_offset, slave_offset),
        ensures
            r.wf(),
            r@.master_offset == master_offset,
            r@.slave_offset == slave_offset,
            forall|l: int| 0 <= l < 16 ==> !line_in_service(r@, l),
    {
        ChainedPics {
            master_offset,
            slave_offset,
            master: [false; 8],
            slave: [false; 8],
        }
    }

    pub fn handles_interrupt(&self, vector: u8) -> (r: bool)
        requires
            self.wf(),
        ensures
            r == (handles(self@.master_offset, vector) || handles(self@.slave_offset, vector)),
    {
        (self.master_offset <= vector && vector - self.master_offset < 8)
            || (self.slave_offset <= vector && vector - self.slave_offset < 8)
    }

    pub fn is_in_service(&self, line: u8) -> (r: bool)
        requires
            self.wf(),
            line < 16,
        ensures
            r == line_in_service(self@, line as int),
    {
        if line < 8 {
            self.master[line as usize]
        } else {
            self.slave[(line - 8) as usize]
        }
    }

    /// A hardware request on `line`: the vector delivered to the processor,
    /// or `None` where the line is still in service.
    pub fn raise(&mut self, line: u8) -> (r: Option<u8>)
        requires
            old(self).wf(),
            line < 16,
        ensures
            final(self).wf(),
            final(self)@ == raise_spec(old(self)@, line as int).0,
            r == raise_spec(old(self)@, line as int).1,
    {
        if self.is_in_service(line) {
            return None;
        }
        if line < 8 {
            self.master[line as usize] = true;
            Some(self.master_offset + line)
        } else {
            self.master[CASCADE_LINE as usize] = true;
            self.slave[(line - 8) as usize] = true;
            Some(self.slave_offset + (line - 8))
        }
    }

    /// Acknowledges `vector`: returns the controllers to send the
    /// end-of-interrupt command to, and applies it to each.
    pub fn notify_end_of_interrupt(&mut self, vector: u8) -> (r: EoiTargets)
        requires
            old(self).wf(),
        ensures
            final(self).wf(),
            r == eoi_targets(old(self)@, vector),
            final(self)@ == eoi_spec(old(self)@, vector),
    {
        if self.slave_offset <= vector && vector - self.slave_offset < 8 {
            clear_first_set(&mut self.slave);
            clear_first_set(&mut self.master);
            EoiTargets { slave: true, master: true }
        } else if self.master_offset <= vector && vector - self.master_offset < 8 {
            clear_first_set(&mut self.master);
            EoiTargets { slave: false, master: true }
        } else {
            EoiTargets { slave: false, master: false }
        }
    }
}

/// Takes the line of highest priority out of service.
fn clear_first_set(lines: &mut [bool; 8])
    ensures
        final(lines)@ == clear_first(old(lines)@),
{
    let mut i: usize = 0;
    while i < 8
        invariant
            i <= 8,
            lines@.len() == 8,
            lines@ == old(lines)@,
            first_set(lines@, 0) == first_set(lines@, i as int),
        decreases 8 - i,
    {
        if lines[i] {
            lines[i] = false;
            return;
        }
        i = i + 1;
    }
}

/// A line left unacknowledged stays in service through any number of
/// further requests on any lines, and a request on it is never delivered.
pub proof fn lemma_unacknowledged_line_stays_masked(m: PicsModel, line: int, lines: Seq<int>)
    requires
        model_wf(m),
        0 <= line < 16,
        line_in_service(m, line),
        forall|k: int| 0 <= k < lines.len() ==> 0 <= #[trigger] lines[k] < 16,
    ensures
        model_wf(raise_all(m, lines)),
        line_in_service(raise_all(m, lines), line),
        raise_spec(raise_all(m, lines), line).1 is None,
    decreases lines.len(),
{
    if lines.len() > 0 {
        let prev = lines.drop_last();
        assert forall|k: int| 0 <= k < prev.len() implies 0 <= #[trigger] prev[k] < 16 by {
            assert(prev[k] == lines[k]);
        }
        lemma_unacknowledged_line_stays_masked(m, line, prev);
        assert(lines.last() == lines[lines.len() - 1]);
    }
}

/// The first line in service at or after `from` is `i`, where `i` is in
/// service and no line between is.
proof fn lemma_first_set_is(s: Seq<bool>, from: int, i: int)
    requires
        0 <= from <= i < s.len(),
        s[i],
        forall|k: int| from <= k < i ==> !#[trigger] s[k],
    ensures
        first_set(s, from) == i,
    decreases i - from,
{
    if from < i {
        lemma_first_set_is(s, from + 1, i);
    }
}

/// Clearing the only line in service leaves none in service.
proof fn lemma_clear_only_line(s: Seq<bool>, i: int)
    requires
        0 <= i < s.len(),
        s[i],
        forall|k: int| 0 <= k < s.len() && k != i ==> !#[trigger] s[k],
    ensures
        forall|k: int| 0 <= k < s.len() ==> !#[trigger] clear_first(s)[k],
        clear_first(s).len() == s.len(),
{
    lemma_first_set_is(s, 0, i);
}

/// With no line in service, a request on any line is delivered at its
/// vector; acknowledging that vector goes to the master alone for a master
/// line and to the slave and then the master for a slave line, and leaves no
/// line in service, so the next request on the line is delivered again.
pub proof fn lemma_acknowledged_line_is_delivered_again(m: PicsModel, line: int)
    requires
        model_wf(m),
        0 <= line < 16,
        forall|l: int| 0 <= l < 16 ==> !line_in_service(m, l),
    ensures
        ({
            let (m1, v) = raise_spec(m, line);
            &&& v == Some((if line < 8 { m.master_offset + line } else { m.slave_offset + line - 8 }) as u8)
            &&& eoi_targets(m1, v->0) == (EoiTargets { slave: line >= 8, master: true })
            &&& forall|l: int| 0 <= l < 16 ==> !line_in_service(eoi_spec(m1, v->0), l)
            &&& raise_spec(eoi_spec(m1, v->0), line).1 == v
        }),
{
    assert forall|k: int| 0 <= k < 8 implies !#[trigger] m.master[k] by {
        assert(!line_in_service(m, k));
    }
    assert forall|k: int| 0 <= k < 8 implies !#[trigger] m.slave[k] by {
        assert(!line_in_service(m, k + 8));
    }
    let (m1, v) = raise_spec(m, line);
    if line < 8 {
        lemma_clear_only_line(m1.master, line);
    } else {
        lemma_clear_only_line(m1.master, CASCADE_LINE as int);
        assert forall|k: int| 0 <= k < 8 && k != line - 8 implies !#[trigger] m1.slave[k] by {
            assert(m1.slave[k] == m.slave[k]);
        }
        lemma_clear_only_line(m1.slave, line - 8);
    }
    let m2 = eoi_spec(m1, v->0);
    assert forall|l: int| 0 <= l < 16 implies !line_in_service(m2, l) by {
        if l < 8 {
            assert(!m2.master[l]);
        } else {
            assert(!m2.slave[l - 8]);
        }
    }
}

} // verus!
