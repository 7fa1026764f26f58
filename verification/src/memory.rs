//! A model of the Cairo VM's segmented memory.
//!
//! Memory is a growable list of segments; a cell is addressed by a
//! relocatable pointer `(segment_index, offset)` and holds either a felt or
//! another pointer.  Cells are written once, in order, at the end of their
//! segment, and each cell carries an accessed flag used by the post-run
//! coverage accounting.

use vstd::prelude::*;
use crate::errors::MemoryError;
use crate::felt::{Felt, felts_wf, prime};

verus! {

/// Identifies a VM memory cell: a segment index and an offset inside it.
/// Not a machine pointer.
#[derive(Clone, Copy, PartialEq, Eq, Structural, Debug)]
pub struct Relocatable {
    pub segment_index: usize,
    pub offset: usize,
}

impl Relocatable {
    /// The pointer `n` cells further into the same segment.
    pub open spec fn spec_add(self, n: int) -> Relocatable {
        Relocatable { segment_index: self.segment_index, offset: (self.offset + n) as usize }
    }

    pub fn add(self, n: usize) -> (r: Result<Relocatable, MemoryError>)
        ensures
            match r {
                Ok(p) => self.offset + n <= usize::MAX && p == self.spec_add(n as int),
                Err(e) => self.offset + n > usize::MAX && e == MemoryError::OffsetOverflow,
            },
    {
        match self.offset.checked_add(n) {
            Some(o) => Ok(Relocatable { segment_index: self.segment_index, offset: o }),
            None => Err(MemoryError::OffsetOverflow),
        }
    }
}

/// A memory cell value: a felt or a pointer.
#[derive(Clone, Copy, PartialEq, Eq, Structural, Debug)]
pub enum MaybeRelocatable {
    Int(Felt),
    Ptr(Relocatable),
}

impl MaybeRelocatable {
    pub open spec fn wf(self) -> bool {
        match self {
            MaybeRelocatable::Int(f) => f.wf(),
            MaybeRelocatable::Ptr(_) => true,
        }
    }
}

/// Every cell value of a sequence is well formed.
pub open spec fn cells_wf(s: Seq<MaybeRelocatable>) -> bool {
    forall|i: int| 0 <= i < s.len() ==> (#[trigger] s[i]).wf()
}

/// A sequence of felts as memory cell values.
pub open spec fn felt_cells(s: Seq<Felt>) -> Seq<MaybeRelocatable> {
    s.map_values(|f: Felt| MaybeRelocatable::Int(f))
}

/// The pointer for segment `seg` at offset `off`.
pub open spec fn rel(seg: usize, off: int) -> Relocatable {
    Relocatable { segment_index: seg, offset: off as usize }
}

/// One memory segment: its written cells and their accessed flags.
#[derive(Clone, Debug)]
pub struct Segment {
    pub cells: Vec<MaybeRelocatable>,
    pub accessed: Vec<bool>,
}

/// The VM memory: a growable list of segments.
#[derive(Clone, Debug)]
pub struct VmMemory {
    pub segments: Vec<Segment>,
}

impl VmMemory {
    /// The cell contents, segment by segment.
    pub open spec fn seqs(self) -> Seq<Seq<MaybeRelocatable>> {
        self.segments@.map_values(|seg: Segment| seg.cells@)
    }

    /// The accessed flags, segment by segment.
    pub open spec fn acc(self) -> Seq<Seq<bool>> {
        self.segments@.map_values(|seg: Segment| seg.accessed@)
    }

    pub open spec fn n_segments(self) -> int {
        self.seqs().len() as int
    }

    /// The used size of a segment: the number of cells written to it.
    pub open spec fn used(self, s: int) -> int {
        self.seqs()[s].len() as int
    }

    /// A pointer that addresses a written cell.
    pub open spec fn valid_ptr(self, p: Relocatable) -> bool {
        p.segment_index < self.n_segments() && p.offset < self.used(p.segment_index as int)
    }

    pub open spec fn cell(self, p: Relocatable) -> MaybeRelocatable {
        self.seqs()[p.segment_index as int][p.offset as int]
    }

    /// The felt held at a pointer; meaningful only when `has_felt` holds.
    pub open spec fn felt_at(self, p: Relocatable) -> int {
        match self.cell(p) {
            MaybeRelocatable::Int(f) => f@,
            MaybeRelocatable::Ptr(_) => -1,
        }
    }

    pub open spec fn has_felt(self, p: Relocatable) -> bool {
        self.valid_ptr(p) && self.cell(p) is Int
    }

    /// The felt read at offset `off` of segment `seg`; a trigger helper.
    pub open spec fn felt_in(self, seg: usize, off: int) -> int {
        self.felt_at(rel(seg, off))
    }

    pub open spec fn has_felt_in(self, seg: usize, off: int) -> bool {
        self.has_felt(rel(seg, off))
    }

    pub open spec fn has_ptr(self, p: Relocatable) -> bool {
        self.valid_ptr(p) && self.cell(p) is Ptr
    }

    /// The felt held at a pointer, as a value; meaningful only under
    /// `has_felt`.
    pub open spec fn int_cell(self, p: Relocatable) -> Felt {
        self.cell(p)->Int_0
    }

    /// The pointer held at a pointer; meaningful only under `has_ptr`.
    pub open spec fn ptr_cell(self, p: Relocatable) -> Relocatable {
        self.cell(p)->Ptr_0
    }

    /// Every written felt cell lies below the prime, and the accessed flags
    /// mirror the cells one for one.
    pub open spec fn wf(self) -> bool {
        forall|s: int| 0 <= s < self.n_segments() ==> cells_wf(#[trigger] self.seqs()[s])
            && self.acc()[s].len() == self.seqs()[s].len()
    }

    pub fn new() -> (r: VmMemory)
        ensures
            r.seqs() =~= Seq::<Seq<MaybeRelocatable>>::empty(),
            r.wf(),
    {
        VmMemory { segments: Vec::new() }
    }

    /// Adds a fresh, empty segment and returns a pointer to its start.
    pub fn add_segment(&mut self) -> (r: Relocatable)
        ensures
            r.segment_index == old(self).n_segments(),
            r.offset == 0,
            final(self).n_segments() == old(self).n_segments() + 1,
            final(self).seqs() =~= old(self).seqs().push(Seq::empty()),
            final(self).acc() =~= old(self).acc().push(Seq::empty()),
            old(self).wf() ==> final(self).wf(),
    {
        let idx = self.segments.len();
        self.segments.push(Segment { cells: Vec::new(), accessed: Vec::new() });
        Relocatable { segment_index: idx, offset: 0 }
    }

    /// Reads one cell.
    pub fn get(&self, p: Relocatable) -> (r: Result<MaybeRelocatable, MemoryError>)
        ensures
            match r {
                Ok(c) => self.valid_ptr(p) && c == self.cell(p),
                Err(_) => !self.valid_ptr(p),
            },
    {
        if p.segment_index >= self.segments.len() {
            return Err(MemoryError::UnknownSegment(p));
        }
        let seg = &self.segments[p.segment_index];
        if p.offset >= seg.cells.len() {
            return Err(MemoryError::MissingCell(p));
        }
        Ok(seg.cells[p.offset])
    }

    /// Reads one cell as a felt.
    pub fn get_felt(&self, p: Relocatable) -> (r: Result<Felt, MemoryError>)
        requires
            self.wf(),
        ensures
            match r {
                Ok(f) => self.has_felt(p) && f@ == self.felt_at(p) && f.wf(),
                Err(_) => !self.has_felt(p),
            },
    {
        match self.get(p)? {
            MaybeRelocatable::Int(f) => Ok(f),
            MaybeRelocatable::Ptr(_) => Err(MemoryError::ExpectedInteger(p)),
        }
    }

    /// Reads one cell as a pointer.
    pub fn get_ptr(&self, p: Relocatable) -> (r: Result<Relocatable, MemoryError>)
        ensures
            match r {
                Ok(q) => self.valid_ptr(p) && self.cell(p) == MaybeRelocatable::Ptr(q),
                Err(_) => !(self.valid_ptr(p) && self.cell(p) is Ptr),
            },
    {
        match self.get(p)? {
            MaybeRelocatable::Ptr(q) => Ok(q),
            MaybeRelocatable::Int(_) => Err(MemoryError::ExpectedRelocatable(p)),
        }
    }

    /// The whole range `[start, end)` read as felts.  Fails when the two
    /// pointers do not bound a range of written felt cells.
    pub open spec fn felt_range_ok(self, start: Relocatable, end: Relocatable) -> bool {
        &&& start.segment_index == end.segment_index
        &&& start.offset <= end.offset
        &&& forall|i: int|
            start.offset <= i < end.offset ==> #[trigger] self.has_felt_in(start.segment_index, i)
    }

    pub fn get_felt_range(&self, start: Relocatable, end: Relocatable) -> (r: Result<
        Vec<Felt>,
        MemoryError,
    >)
        requires
            self.wf(),
        ensures
            match r {
                Ok(v) => {
                    &&& self.felt_range_ok(start, end)
                    &&& v@.len() == end.offset - start.offset
                    &&& forall|i: int|
                        0 <= i < v@.len() ==> (#[trigger] v@[i])@ == self.felt_at(
                            Relocatable {
                                segment_index: start.segment_index,
                                offset: (start.offset + i) as usize,
                            },
                        )
                    &&& felts_wf(v@)
                },
                Err(_) => !self.felt_range_ok(start, end),
            },
    {
        if start.segment_index != end.segment_index {
            return Err(MemoryError::UnknownSegment(end));
        }
        if start.offset > end.offset {
            return Err(MemoryError::OffsetOverflow);
        }
        let mut out: Vec<Felt> = Vec::new();
        let mut o: usize = start.offset;
        while o < end.offset
            invariant
                self.wf(),
                start.offset <= o <= end.offset,
                start.segment_index == end.segment_index,
                out@.len() == o - start.offset,
                forall|i: int|
                    start.offset <= i < o ==> #[trigger] self.has_felt_in(start.segment_index, i),
                forall|i: int|
                    0 <= i < out@.len() ==> (#[trigger] out@[i])@ == self.felt_at(
                        Relocatable {
                            segment_index: start.segment_index,
                            offset: (start.offset + i) as usize,
                        },
                    ),
                felts_wf(out@),
            decreases end.offset - o,
        {
            let f = match self.get_felt(Relocatable { segment_index: start.segment_index, offset: o }) {
                Ok(f) => f,
                Err(e) => {
                    proof {
                        assert(!self.has_felt_in(start.segment_index, o as int));
                    }
                    return Err(e);
                },
            };
            out.push(f);
            o = o + 1;
        }
        Ok(out)
    }

    /// Appends `data` at the end of a segment; `p` must point exactly at the
    /// first unwritten cell.  Returns the pointer just past the written data.
    pub fn write_data(&mut self, p: Relocatable, data: &Vec<MaybeRelocatable>) -> (r: Result<
        Relocatable,
        MemoryError,
    >)
        requires
            old(self).wf(),
            cells_wf(data@),
        ensures
            final(self).wf(),
            match r {
                Ok(end) => {
                    &&& p.segment_index < old(self).n_segments()
                    &&& p.offset == old(self).used(p.segment_index as int)
                    &&& p.offset + data@.len() <= usize::MAX
                    &&& end == p.spec_add(data@.len() as int)
                    &&& final(self).seqs() =~= old(self).seqs().update(
                        p.segment_index as int,
                        old(self).seqs()[p.segment_index as int] + data@,
                    )
                    &&& final(self).acc() =~= old(self).acc().update(
                        p.segment_index as int,
                        old(self).acc()[p.segment_index as int] + Seq::new(data@.len(), |i: int| false),
                    )
                },
                Err(_) => {
                    &&& *final(self) == *old(self)
                    &&& !(p.segment_index < old(self).n_segments() && p.offset == old(self).used(
                        p.segment_index as int,
                    ) && p.offset + data@.len() <= usize::MAX)
                },
            },
    {
        if p.segment_index >= self.segments.len() {
            return Err(MemoryError::UnknownSegment(p));
        }
        if p.offset != self.segments[p.segment_index].cells.len() {
            return Err(MemoryError::NonSequentialWrite(p));
        }
        if usize::MAX - p.offset < data.len() {
            return Err(MemoryError::OffsetOverflow);
        }
        let ghost old_mem = *self;
        let mut i: usize = 0;
        while i < data.len()
            invariant
                0 <= i <= data@.len(),
                old_mem.wf(),
                cells_wf(data@),
                p.segment_index < self.segments@.len(),
                self.segments@.len() == old_mem.segments@.len(),
                p.offset == old_mem.used(p.segment_index as int),
                p.offset + data@.len() <= usize::MAX,
                self.seqs() =~= old_mem.seqs().update(
                    p.segment_index as int,
                    old_mem.seqs()[p.segment_index as int] + data@.take(i as int),
                ),
                self.acc() =~= old_mem.acc().update(
                    p.segment_index as int,
                    old_mem.acc()[p.segment_index as int] + Seq::new(i as nat, |j: int| false),
                ),
            decreases data@.len() - i,
        {
            let ghost prev = *self;
            let cell = data[i];
            let seg = &mut self.segments[p.segment_index];
            seg.cells.push(cell);
            seg.accessed.push(false);
            proof {
                assert(self.seqs() =~= prev.seqs().update(
                    p.segment_index as int,
                    prev.seqs()[p.segment_index as int].push(cell),
                ));
                assert(self.acc() =~= prev.acc().update(
                    p.segment_index as int,
                    prev.acc()[p.segment_index as int].push(false),
                ));
                assert(data@.take(i + 1) =~= data@.take(i as int).push(data@[i as int]));
                assert(old_mem.seqs()[p.segment_index as int] + data@.take(i + 1) =~= (
                old_mem.seqs()[p.segment_index as int] + data@.take(i as int)).push(cell));
                assert(old_mem.acc()[p.segment_index as int] + Seq::new((i + 1) as nat, |j: int| false)
                    =~= (old_mem.acc()[p.segment_index as int] + Seq::new(i as nat, |j: int| false)).push(
                    false,
                ));
            }
            i = i + 1;
        }
        proof {
            assert(data@.take(data@.len() as int) =~= data@);
            assert forall|s: int| 0 <= s < self.n_segments() implies cells_wf(#[trigger] self.seqs()[s])
                && self.acc()[s].len() == self.seqs()[s].len() by {
                assert(old_mem.wf());
                if s != p.segment_index {
                    assert(self.seqs()[s] == old_mem.seqs()[s]);
                }
            }
        }
        Ok(Relocatable { segment_index: p.segment_index, offset: p.offset + data.len() })
    }

    /// The used size of a segment, when the segment exists.
    pub fn get_segment_used_size(&self, s: usize) -> (r: Option<usize>)
        ensures
            match r {
                Some(n) => s < self.n_segments() && n == self.used(s as int),
                None => s >= self.n_segments(),
            },
    {
        if s < self.segments.len() {
            Some(self.segments[s].cells.len())
        } else {
            None
        }
    }

    /// Marks `size` cells from `p` as accessed.
    pub fn mark_address_range_as_accessed(&mut self, p: Relocatable, size: usize) -> (r: Result<
        (),
        MemoryError,
    >)
        requires
            old(self).wf(),
        ensures
            final(self).wf(),
            final(self).seqs() =~= old(self).seqs(),
            match r {
                Ok(_) => {
                    &&& p.segment_index < old(self).n_segments()
                    &&& p.offset + size <= old(self).used(p.segment_index as int)
                    &&& final(self).acc() =~~= old(self).acc().update(
                        p.segment_index as int,
                        Seq::new(
                            old(self).acc()[p.segment_index as int].len(),
                            |j: int|
                                if p.offset <= j < p.offset + size {
                                    true
                                } else {
                                    old(self).acc()[p.segment_index as int][j]
                                },
                        ),
                    )
                },
                Err(_) => {
                    &&& *final(self) == *old(self)
                    &&& !(p.segment_index < old(self).n_segments() && p.offset + size <= old(
                        self,
                    ).used(p.segment_index as int))
                },
            },
    {
        if p.segment_index >= self.segments.len() {
            return Err(MemoryError::UnknownSegment(p));
        }
        let seg_len = self.segments[p.segment_index].cells.len();
        if size > seg_len || p.offset > seg_len - size {
            return Err(MemoryError::MissingCell(p));
        }
        let ghost old_mem = *self;
        let mut i: usize = 0;
        while i < size
            invariant
                0 <= i <= size,
                old_mem.wf(),
                p.segment_index < self.segments@.len(),
                self.segments@.len() == old_mem.segments@.len(),
                p.offset + size <= usize::MAX,
                p.offset + size <= old_mem.used(p.segment_index as int),
                self.seqs() =~= old_mem.seqs(),
                self.acc() =~~= old_mem.acc().update(
                    p.segment_index as int,
                    Seq::new(
                        old_mem.acc()[p.segment_index as int].len(),
                        |j: int|
                            if p.offset <= j < p.offset + i {
                                true
                            } else {
                                old_mem.acc()[p.segment_index as int][j]
                            },
                    ),
                ),
            decreases size - i,
        {
            let ghost prev = *self;
            proof {
                assert(self.acc()[p.segment_index as int].len()
                    == old_mem.acc()[p.segment_index as int].len());
                assert(old_mem.acc()[p.segment_index as int].len()
                    == old_mem.seqs()[p.segment_index as int].len());
            }
            let seg = &mut self.segments[p.segment_index];
            let o = p.offset + i;
            seg.accessed.set(o, true);
            proof {
                assert(self.seqs() =~= prev.seqs());
                assert(self.acc() =~~= prev.acc().update(
                    p.segment_index as int,
                    prev.acc()[p.segment_index as int].update(o as int, true),
                ));
                assert(self.acc() =~~= old_mem.acc().update(
                    p.segment_index as int,
                    Seq::new(
                        old_mem.acc()[p.segment_index as int].len(),
                        |j: int|
                            if p.offset <= j < p.offset + i + 1 {
                                true
                            } else {
                                old_mem.acc()[p.segment_index as int][j]
                            },
                    ),
                ));
            }
            i = i + 1;
        }
        Ok(())
    }
}

} // verus!
