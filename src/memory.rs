use vstd::prelude::*;

verus! {

/// Size of a physical page frame in bytes.
pub const PAGE_SIZE: u64 = 4096;

/// First address that a physical address can no longer reach: physical
/// addresses have at most 52 significant bits.
pub const PHYS_ADDR_LIMIT: u64 = 0x10_0000_0000_0000;

/// How the firmware tagged a region of physical memory.
#[derive(Clone, Copy, Debug, PartialEq, Eq, Structural)]
pub enum MemoryRegionType {
    Usable,
    Reserved,
}

/// One entry of the firmware memory map: the addresses `start_addr..end_addr`.
#[derive(Clone, Copy, Debug, PartialEq, Eq, Structural)]
pub struct MemoryRegion {
    pub start_addr: u64,
    pub end_addr: u64,
    pub region_type: MemoryRegionType,
}

/// A 4096-byte physical page frame, named by its start address.
#[derive(Clone, Copy, Debug, PartialEq, Eq, Structural)]
pub struct PhysFrame {
    pub start: u64,
}

pub open spec fn align_down(addr: u64) -> u64 {
    (addr - addr % 4096) as u64
}

impl PhysFrame {
    /// The frame that holds `addr`.
    pub fn containing_address(addr: u64) -> (r: PhysFrame)
        requires
            addr < PHYS_ADDR_LIMIT,
        ensures
            r.start == align_down(addr),
    {
        PhysFrame { start: addr - addr % PAGE_SIZE }
    }

    pub fn start_address(&self) -> (r: u64)
        ensures
            r == self.start,
    {
        self.start
    }
}

/// A region every address of which a physical address can hold.
pub open spec fn region_wf(r: MemoryRegion) -> bool {
    r.end_addr <= PHYS_ADDR_LIMIT
}

pub open spec fn map_wf(map: Seq<MemoryRegion>) -> bool {
    forall|i: int| 0 <= i < map.len() ==> region_wf(#[trigger] map[i])
}

/// How many of the addresses `start_addr, start_addr + 4096, ...` lie below
/// `end_addr`.
pub open spec fn address_count(r: MemoryRegion) -> nat {
    if r.start_addr < r.end_addr {
        ((r.end_addr - r.start_addr + 4095) / 4096) as nat
    } else {
        0
    }
}

/// The frames that a region contributes: none for a region that is not
/// usable, else one frame per 4096-byte step through its address range.
pub open spec fn region_frames(r: MemoryRegion) -> Seq<u64> {
    if r.region_type == MemoryRegionType::Usable {
        Seq::new(address_count(r), |i: int| align_down((r.start_addr + 4096 * i) as u64))
    } else {
        Seq::empty()
    }
}

/// The usable frames of a memory map, region after region in map order.
pub open spec fn usable_frames(map: Seq<MemoryRegion>) -> Seq<u64>
    decreases map.len(),
{
    if map.len() == 0 {
        Seq::empty()
    } else {
        usable_frames(map.drop_last()) + region_frames(map.last())
    }
}

/// A virtual address in canonical form: bits 48 to 63 repeat bit 47.
pub open spec fn canonical(addr: int) -> bool {
    0 <= addr < 0x8000_0000_0000 || 0xFFFF_8000_0000_0000 <= addr <= u64::MAX
}

/// Where the top-level page table at physical address `table_phys` is seen
/// through the mapping of all physical memory at `physical_mem_offset`:
/// their sum, where that is a canonical virtual address.
pub fn level_4_table_address(physical_mem_offset: u64, table_phys: u64) -> (r: Option<u64>)
    ensures
        r == (if canonical(physical_mem_offset + table_phys) {
            Some((physical_mem_offset + table_phys) as u64)
        } else {
            None
        }),
{
    match physical_mem_offset.checked_add(table_phys) {
        Some(addr) => {
            if addr < 0x8000_0000_0000 || addr >= 0xFFFF_8000_0000_0000 {
                Some(addr)
            } else {
                None
            }
        },
        None => None,
    }
}

/// Hands out the usable frames of a memory map one at a time, in map order.
pub struct BootInfoFrameAllocator<'a> {
    memory_map: &'a [MemoryRegion],
    next: usize,
}

impl<'a> BootInfoFrameAllocator<'a> {
    pub closed spec fn map(&self) -> Seq<MemoryRegion> {
        self.memory_map@
    }

    /// How many frames have been asked for so far.
    pub closed spec fn cursor(&self) -> nat {
        self.next as nat
    }

    pub open spec fn wf(&self) -> bool {
        map_wf(self.map())
    }

    /// An allocator over `memory_map` that has handed out nothing yet.
    pub fn init(memory_map: &'a [MemoryRegion]) -> (r: BootInfoFrameAllocator<'a>)
        requires
            map_wf(memory_map@),
        ensures
            r.wf(),
            r.map() == memory_map@,
            r.cursor() == 0,
    {
        BootInfoFrameAllocator { memory_map, next: 0 }
    }

    pub fn next_index(&self) -> (r: usize)
        ensures
            r == self.cursor(),
    {
        self.next
    }

    /// The frame at position `n` of the usable frames, if there are more than `n`.
    fn nth_usable_frame(&self, n: usize) -> (r: Option<PhysFrame>)
        requires
            self.wf(),
        ensures
            r == (if n < usable_frames(self.map()).len() {
                Some(PhysFrame { start: usable_frames(self.map())[n as int] })
            } else {
                None
            }),
    {
        let ghost map = self.map();
        let mut remaining: usize = n;
        let mut i: usize = 0;
        while i < self.memory_map.len()
            invariant
                map == self.memory_map@,
                self.wf(),
                0 <= i <= map.len(),
                remaining + usable_frames(map.subrange(0, i as int)).len() == n,
            decreases map.len() - i,
        {
            let region = self.memory_map[i];
            proof {
                lemma_usable_frames_step(map, i as int);
                assert(region_wf(map[i as int]));
            }
            if region.region_type == MemoryRegionType::Usable && region.start_addr < region.end_addr {
                let count: u64 = (region.end_addr - region.start_addr + 4095) / PAGE_SIZE;
                if (remaining as u64) < count {
                    let addr: u64 = region.start_addr + PAGE_SIZE * (remaining as u64);
                    proof {
                        lemma_usable_frames_prefix(map, i as int + 1);
                        assert(addr < region.end_addr) by (nonlinear_arith)
                            requires
                                addr == region.start_addr + 4096 * remaining,
                                remaining < count,
                                count == (region.end_addr - region.start_addr + 4095) / 4096,
                                region.start_addr < region.end_addr,
                        ;
                    }
                    return Some(PhysFrame::containing_address(addr));
                }
                remaining = remaining - count as usize;
            }
            i = i + 1;
        }
        proof {
            assert(map.subrange(0, map.len() as int) =~= map);
        }
        None
    }

    /// Hands out the next usable frame, or `None` once all have been handed
    /// out; the cursor moves on either way.
    pub fn allocate_frame(&mut self) -> (r: Option<PhysFrame>)
        requires
            old(self).wf(),
            old(self).cursor() < usize::MAX,
        ensures
            final(self).wf(),
            final(self).map() == old(self).map(),
            final(self).cursor() == old(self).cursor() + 1,
            r == (if old(self).cursor() < usable_frames(old(self).map()).len() {
                Some(PhysFrame { start: usable_frames(old(self).map())[old(self).cursor() as int] })
            } else {
                None
            }),
    {
        let frame = self.nth_usable_frame(self.next);
        self.next = self.next + 1;
        frame
    }
}

/// The frames of the first `i + 1` regions are those of the first `i`
/// followed by those of region `i`.
proof fn lemma_usable_frames_step(map: Seq<MemoryRegion>, i: int)
    requires
        0 <= i < map.len(),
    ensures
        usable_frames(map.subrange(0, i + 1)) == usable_frames(map.subrange(0, i)) + region_frames(map[i]),
{
    let p = map.subrange(0, i + 1);
    assert(p.drop_last() =~= map.subrange(0, i));
}

/// The frames of a prefix of the map are a prefix of the frames of the map.
proof fn lemma_usable_frames_prefix(map: Seq<MemoryRegion>, k: int)
    requires
        0 <= k <= map.len(),
    ensures
        usable_frames(map.subrange(0, k)).len() <= usable_frames(map).len(),
        forall|j: int| 0 <= j < usable_frames(map.subrange(0, k)).len()
            ==> usable_frames(map.subrange(0, k))[j] == #[trigger] usable_frames(map)[j],
    decreases map.len() - k,
{
    if k < map.len() {
        lemma_usable_frames_prefix(map, k + 1);
        lemma_usable_frames_step(map, k);
    } else {
        assert(map.subrange(0, k) =~= map);
    }
}

/// Every region of the map is usable, starts below where it ends by a whole
/// number of frames, and lies below every region after it.
pub open spec fn usable_ascending_whole_frames(map: Seq<MemoryRegion>) -> bool {
    &&& forall|i: int| 0 <= i < map.len() ==> (#[trigger] map[i]).region_type == MemoryRegionType::Usable
    &&& forall|i: int| 0 <= i < map.len() ==> (#[trigger] map[i]).start_addr <= map[i].end_addr
    &&& forall|i: int| 0 <= i < map.len() ==> ((#[trigger] map[i]).end_addr - map[i].start_addr) % 4096 == 0
    &&& forall|i: int, j: int| 0 <= i < j < map.len() ==> (#[trigger] map[i]).end_addr <= (#[trigger] map[j]).start_addr
}

/// Total size in bytes of the usable regions of a map.
pub open spec fn usable_bytes(map: Seq<MemoryRegion>) -> nat
    decreases map.len(),
{
    if map.len() == 0 {
        0
    } else {
        usable_bytes(map.drop_last()) + if map.last().region_type == MemoryRegionType::Usable
            && map.last().start_addr <= map.last().end_addr {
            (map.last().end_addr - map.last().start_addr) as nat
        } else {
            0
        }
    }
}

/// For a map of disjoint usable regions, each a whole number of frames long
/// and listed in ascending order, the allocator has exactly one frame per
/// 4096 bytes of usable memory to hand out, and hands them out in strictly
/// ascending order of address (hence each one once), the frames of a region
/// before those of the regions after it.
pub proof fn lemma_frames_of_ascending_map(map: Seq<MemoryRegion>)
    requires
        map_wf(map),
        usable_ascending_whole_frames(map),
    ensures
        usable_frames(map).len() * 4096 == usable_bytes(map),
        forall|i: int, j: int| 0 <= i < j < usable_frames(map).len()
            ==> usable_frames(map)[i] < usable_frames(map)[j],
        map.len() > 0 ==> forall|i: int| 0 <= i < usable_frames(map).len()
            ==> usable_frames(map)[i] + 4096 <= map.last().end_addr,
    decreases map.len(),
{
    if map.len() > 0 {
        let prev = map.drop_last();
        let r = map.last();
        assert(map_wf(prev));
        assert(usable_ascending_whole_frames(prev)) by {
            assert forall|i: int, j: int| 0 <= i < j < prev.len() implies
                (#[trigger] prev[i]).end_addr <= (#[trigger] prev[j]).start_addr by {
                assert(map[i].end_addr <= map[j].start_addr);
            }
        }
        lemma_frames_of_ascending_map(prev);
        let fp = usable_frames(prev);
        let fr = region_frames(r);
        let f = usable_frames(map);
        assert(f == fp + fr);
        assert(r == map[map.len() - 1]);
        let size = (r.end_addr - r.start_addr) as int;
        assert(size % 4096 == 0);
        assert(fr.len() * 4096 == size) by {
            if r.start_addr < r.end_addr {
                assert(((size + 4095) / 4096) * 4096 == size) by (nonlinear_arith)
                    requires size % 4096 == 0, size > 0;
            }
        }
        assert forall|k: int| 0 <= k < fr.len() implies
            #[trigger] fr[k] <= r.start_addr + 4096 * k
            && r.start_addr + 4096 * k < fr[k] + 4096
            && r.start_addr + 4096 * k + 4096 <= r.end_addr by {
            assert(k * 4096 + 4096 <= size) by (nonlinear_arith)
                requires fr.len() * 4096 == size, 0 <= k < fr.len();
            assert(fr[k] == align_down((r.start_addr + 4096 * k) as u64));
        }
        if prev.len() > 0 {
            assert(prev.last() == map[map.len() - 2]);
            assert(map[map.len() - 2].end_addr <= map[map.len() - 1].start_addr);
        }
        assert forall|i: int, j: int| 0 <= i < j < f.len() implies f[i] < f[j] by {
            if j < fp.len() {
            } else if i < fp.len() {
                let k = j - fp.len();
                assert(fr[k] + 4096 > r.start_addr + 4096 * k);
            } else {
                let a = i - fp.len();
                let b = j - fp.len();
                assert(r.start_addr + 4096 * a + 4096 <= r.start_addr + 4096 * b);
            }
        }
        assert forall|i: int| 0 <= i < f.len() implies f[i] + 4096 <= r.end_addr by {
            if i >= fp.len() {
                let k = i - fp.len();
                assert(fr[k] <= r.start_addr + 4096 * k);
            }
        }
    }
}

/// Every region of the map is usable, starts on a frame boundary and is a
/// whole number of frames long, and no two regions overlap; the order of
/// the regions is free.
pub open spec fn usable_disjoint_whole_frames(map: Seq<MemoryRegion>) -> bool {
    &&& forall|i: int| 0 <= i < map.len() ==> (#[trigger] map[i]).region_type == MemoryRegionType::Usable
    &&& forall|i: int| 0 <= i < map.len() ==> (#[trigger] map[i]).start_addr <= map[i].end_addr
    &&& forall|i: int| 0 <= i < map.len() ==> (#[trigger] map[i]).start_addr % 4096 == 0
    &&& forall|i: int| 0 <= i < map.len() ==> ((#[trigger] map[i]).end_addr - map[i].start_addr) % 4096 == 0
    &&& forall|i: int, j: int| 0 <= i < map.len() && 0 <= j < map.len() && i != j
        ==> (#[trigger] map[i]).end_addr <= (#[trigger] map[j]).start_addr || map[j].end_addr <= map[i].start_addr
}

/// Whether address `a` lies inside one of the regions of the map.
pub open spec fn in_some_region(map: Seq<MemoryRegion>, a: u64) -> bool {
    exists|k: int| 0 <= k < map.len() && (#[trigger] map[k]).start_addr <= a && a < map[k].end_addr
}

/// For a map of disjoint usable regions in any order, each starting on a
/// frame boundary and a whole number of frames long, the allocator has
/// exactly one frame per 4096 bytes of usable memory, hands out no frame
/// twice, and every frame it hands out lies inside one of the regions:
/// region after region in map order, each from its start upwards.
pub proof fn lemma_frames_of_disjoint_map(map: Seq<MemoryRegion>)
    requires
        map_wf(map),
        usable_disjoint_whole_frames(map),
    ensures
        usable_frames(map).len() * 4096 == usable_bytes(map),
        forall|i: int, j: int| 0 <= i < j < usable_frames(map).len()
            ==> usable_frames(map)[i] != usable_frames(map)[j],
        forall|i: int| 0 <= i < usable_frames(map).len() ==> in_some_region(map, #[trigger] usable_frames(map)[i]),
        map.len() > 0 ==> forall|k: int| 0 <= k < region_frames(map.last()).len()
            ==> #[trigger] region_frames(map.last())[k] == map.last().start_addr + 4096 * k,
    decreases map.len(),
{
    if map.len() > 0 {
        let prev = map.drop_last();
        let r = map.last();
        let n = map.len() - 1;
        assert(r == map[n]);
        assert(map_wf(prev));
        assert(usable_disjoint_whole_frames(prev)) by {
            assert forall|i: int, j: int| 0 <= i < prev.len() && 0 <= j < prev.len() && i != j implies
                (#[trigger] prev[i]).end_addr <= (#[trigger] prev[j]).start_addr || prev[j].end_addr <= prev[i].start_addr by {
                assert(prev[i] == map[i] && prev[j] == map[j]);
            }
        }
        lemma_frames_of_disjoint_map(prev);
        let fp = usable_frames(prev);
        let fr = region_frames(r);
        let f = usable_frames(map);
        assert(f == fp + fr);
        let size = (r.end_addr - r.start_addr) as int;
        assert(fr.len() * 4096 == size) by {
            if r.start_addr < r.end_addr {
                assert(((size + 4095) / 4096) * 4096 == size) by (nonlinear_arith)
                    requires size % 4096 == 0, size > 0;
            }
        }
        assert forall|k: int| 0 <= k < fr.len() implies #[trigger] fr[k] == r.start_addr + 4096 * k
            && r.start_addr + 4096 * k + 4096 <= r.end_addr by {
            assert(k * 4096 + 4096 <= size) by (nonlinear_arith)
                requires fr.len() * 4096 == size, 0 <= k < fr.len();
            let a = r.start_addr + 4096 * k;
            assert(a % 4096 == 0) by (nonlinear_arith)
                requires a == r.start_addr + 4096 * k, r.start_addr % 4096 == 0;
        }
        assert forall|i: int| 0 <= i < f.len() implies in_some_region(map, #[trigger] f[i]) by {
            if i < fp.len() {
                assert(in_some_region(prev, fp[i]));
                let k = choose|k: int| 0 <= k < prev.len() && (#[trigger] prev[k]).start_addr <= fp[i] && fp[i] < prev[k].end_addr;
                assert(map[k] == prev[k]);
            } else {
                assert(fr[i - fp.len()] == r.start_addr + 4096 * (i - fp.len()));
                assert(map[n].start_addr <= f[i] < map[n].end_addr);
            }
        }
        assert forall|i: int, j: int| 0 <= i < j < f.len() implies f[i] != f[j] by {
            if j < fp.len() {
            } else if i < fp.len() {
                assert(in_some_region(prev, fp[i]));
                let k = choose|k: int| 0 <= k < prev.len() && (#[trigger] prev[k]).start_addr <= fp[i] && fp[i] < prev[k].end_addr;
                assert(map[k] == prev[k]);
                assert(k != n);
                assert(fr[j - fp.len()] == r.start_addr + 4096 * (j - fp.len()));
            } else {
                assert(fr[i - fp.len()] == r.start_addr + 4096 * (i - fp.len()));
                assert(fr[j - fp.len()] == r.start_addr + 4096 * (j - fp.len()));
            }
        }
    }
}

/// The frame start addresses `start_addr, start_addr + 4096, ...` of each
/// usable region below its end, region after region in map order.
pub open spec fn frame_steps(map: Seq<MemoryRegion>) -> Seq<int>
    decreases map.len(),
{
    if map.len() == 0 {
        Seq::empty()
    } else {
        let r = map.last();
        frame_steps(map.drop_last()) + if r.region_type == MemoryRegionType::Usable {
            Seq::new(address_count(r), |k: int| r.start_addr + 4096 * k)
        } else {
            Seq::empty()
        }
    }
}

/// Where every region starts on a frame boundary, the `k`-th frame handed
/// out (counting from 0) is the `k`-th of `frame_steps`: the regions' own
/// frames in map order, each region from its start upwards, with no rounding.
pub proof fn lemma_aligned_map_frames_in_order(map: Seq<MemoryRegion>)
    requires
        map_wf(map),
        forall|i: int| 0 <= i < map.len() ==> (#[trigger] map[i]).start_addr % 4096 == 0,
    ensures
        usable_frames(map).len() == frame_steps(map).len(),
        forall|k: int| 0 <= k < usable_frames(map).len() ==> #[trigger] usable_frames(map)[k] == frame_steps(map)[k],
    decreases map.len(),
{
    if map.len() > 0 {
        let prev = map.drop_last();
        let r = map.last();
        assert(r == map[map.len() - 1]);
        assert forall|i: int| 0 <= i < prev.len() implies (#[trigger] prev[i]).start_addr % 4096 == 0 by {
            assert(prev[i] == map[i]);
        }
        assert(map_wf(prev));
        lemma_aligned_map_frames_in_order(prev);
        let fr = region_frames(r);
        assert forall|k: int| 0 <= k < fr.len() implies #[trigger] fr[k] == r.start_addr + 4096 * k by {
            let a = r.start_addr + 4096 * k;
            assert(a < r.end_addr) by (nonlinear_arith)
                requires
                    a == r.start_addr + 4096 * k,
                    0 <= k < (r.end_addr - r.start_addr + 4095) / 4096,
                    r.start_addr < r.end_addr,
            ;
            assert(a % 4096 == 0) by (nonlinear_arith)
                requires a == r.start_addr + 4096 * k, r.start_addr % 4096 == 0;
        }
        let f = usable_frames(map);
        let g = frame_steps(map);
        assert forall|k: int| 0 <= k < f.len() implies #[trigger] f[k] == g[k] by {
            if k >= usable_frames(prev).len() {
                assert(fr[k - usable_frames(prev).len()] == r.start_addr + 4096 * (k - usable_frames(prev).len()));
            }
        }
    }
}

/// A map without a usable region has no frame to hand out: the first
/// request already finds none.
pub proof fn lemma_reserved_map_has_no_frames(map: Seq<MemoryRegion>)
    requires
        forall|i: int| 0 <= i < map.len() ==> (#[trigger] map[i]).region_type != MemoryRegionType::Usable,
    ensures
        usable_frames(map).len() == 0,
    decreases map.len(),
{
    if map.len() > 0 {
        let prev = map.drop_last();
        assert forall|i: int| 0 <= i < prev.len() implies (#[trigger] prev[i]).region_type != MemoryRegionType::Usable by {
            assert(prev[i] == map[i]);
        }
        lemma_reserved_map_has_no_frames(prev);
        assert(map.last() == map[map.len() - 1]);
    }
}

} // verus!
