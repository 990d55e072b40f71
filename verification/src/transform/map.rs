//! Position mapping through steps.
//!
//! A `StepMap` records that the range `from..to` of a document was replaced
//! by `new_size` units of content; positions are carried across that change.

use vstd::prelude::*;

verus! {

/// The result of mapping one position through a step.
#[derive(Debug, Clone, Copy, PartialEq, Eq, Structural)]
pub struct MapResult {
    /// The new position after mapping
    pub pos: usize,
    /// Whether this position was deleted
    pub deleted: bool,
    /// Whether this position was part of the replaced range
    pub replaced: bool,
}

impl MapResult {
    /// Create a mapped position.
    pub fn new(pos: usize, deleted: bool, replaced: bool) -> (r: Self)
        ensures
            r == (MapResult { pos, deleted, replaced }),
    {
        MapResult { pos, deleted, replaced }
    }

    /// A position that the change did not touch.
    pub fn unchanged(pos: usize) -> (r: Self)
        ensures
            r == (MapResult { pos, deleted: false, replaced: false }),
    {
        Self::new(pos, false, false)
    }

    /// A position whose surrounding content was deleted.
    pub fn deleted(pos: usize) -> (r: Self)
        ensures
            r == (MapResult { pos, deleted: true, replaced: false }),
    {
        Self::new(pos, true, false)
    }

    /// A position inside a replaced range.
    pub fn replaced(pos: usize) -> (r: Self)
        ensures
            r == (MapResult { pos, deleted: false, replaced: true }),
    {
        Self::new(pos, false, true)
    }
}

/// Records how the range `from..to` was replaced by `new_size` units.
#[derive(Debug, Clone, Copy, PartialEq, Eq, Structural)]
pub struct StepMap {
    /// The start position of the changed range
    pub from: usize,
    /// The end position of the changed range
    pub to: usize,
    /// The size of the new content inserted
    pub new_size: usize,
}

impl StepMap {
    /// `pos` can be mapped without an arithmetic fault: positions before the
    /// change always can; the others need an ordered range and results that
    /// fit in a `usize`.
    pub open spec fn can_map(self, pos: int) -> bool {
        pos < self.from || {
            &&& self.from <= self.to
            &&& self.from + self.new_size <= usize::MAX
            &&& pos - (self.to - self.from) + self.new_size <= usize::MAX
        }
    }

    /// Where `pos` goes across the change.
    pub open spec fn spec_map(self, pos: int) -> MapResult {
        if pos < self.from {
            MapResult { pos: pos as usize, deleted: false, replaced: false }
        } else if pos < self.to || pos == self.to {
            if self.from < self.to && self.new_size == 0 {
                MapResult { pos: self.from, deleted: true, replaced: false }
            } else {
                MapResult {
                    pos: (self.from + self.new_size) as usize,
                    deleted: false,
                    replaced: true,
                }
            }
        } else {
            MapResult {
                pos: (pos - (self.to - self.from) + self.new_size) as usize,
                deleted: false,
                replaced: false,
            }
        }
    }

    /// The map of the inverse change: `from..from + new_size` goes back to `to - from` units.
    pub open spec fn spec_inverse(self) -> StepMap {
        StepMap {
            from: self.from,
            to: (self.from + self.new_size) as usize,
            new_size: (self.to - self.from) as usize,
        }
    }

    /// Create a new step map.
    pub fn new(from: usize, to: usize, new_size: usize) -> (r: Self)
        ensures
            r == (StepMap { from, to, new_size }),
    {
        StepMap { from, to, new_size }
    }

    /// The map of a change that inserts nothing at `pos`.
    pub fn identity(pos: usize) -> (r: Self)
        ensures
            r == (StepMap { from: pos, to: pos, new_size: 0 }),
    {
        StepMap { from: pos, to: pos, new_size: 0 }
    }

    /// Whether `pos` can be mapped without an arithmetic fault.
    pub fn fits(&self, pos: usize) -> (r: bool)
        ensures
            r == self.can_map(pos as int),
    {
        if pos < self.from {
            return true;
        }
        if self.from > self.to || self.new_size > usize::MAX - self.from {
            return false;
        }
        (pos as u128) + (self.new_size as u128) <= (usize::MAX as u128) + ((self.to - self.from) as u128)
    }

    /// Map a position through this map.
    pub fn map(&self, pos: usize) -> (r: MapResult)
        requires
            self.can_map(pos as int),
        ensures
            r == self.spec_map(pos as int),
    {
        if pos < self.from {
            MapResult::unchanged(pos)
        } else if pos < self.to {
            if self.new_size == 0 {
                MapResult::deleted(self.from)
            } else {
                MapResult::replaced(self.from + self.new_size)
            }
        } else if pos == self.to {
            if self.from == self.to {
                MapResult::replaced(self.from + self.new_size)
            } else if self.new_size == 0 {
                MapResult::deleted(self.from)
            } else {
                MapResult::replaced(self.from + self.new_size)
            }
        } else {
            MapResult::unchanged(pos - (self.to - self.from) + self.new_size)
        }
    }

    /// Map both ends of the range `from..to` through this map.
    pub fn map_range(&self, from: usize, to: usize) -> (r: (MapResult, MapResult))
        requires
            self.can_map(from as int),
            self.can_map(to as int),
        ensures
            r == (self.spec_map(from as int), self.spec_map(to as int)),
    {
        (self.map(from), self.map(to))
    }

    /// The change in document size: `new_size - (to - from)`.
    pub fn diff(&self) -> (r: isize)
        requires
            self.from <= self.to,
            self.new_size <= isize::MAX,
            self.to - self.from <= isize::MAX,
        ensures
            r == self.new_size - (self.to - self.from),
    {
        self.new_size as isize - (self.to - self.from) as isize
    }

    /// Map a position and return only the resulting offset.
    pub fn maps(&self, pos: usize) -> (r: usize)
        requires
            self.can_map(pos as int),
        ensures
            r == self.spec_map(pos as int).pos,
    {
        self.map(pos).pos
    }

    /// Whether the change can move `pos`: every position at or after `from`.
    pub fn affects(&self, pos: usize) -> (r: bool)
        ensures
            r == (pos >= self.from),
    {
        pos >= self.from
    }

    /// The three positions that `compose` maps through `self`.
    pub open spec fn compose_to_source(self, other: StepMap) -> int {
        if other.to <= self.from || other.from >= self.to {
            other.to as int
        } else {
            if self.to >= other.to { self.to as int } else { other.to as int }
        }
    }

    /// `compose` can run without an arithmetic fault.
    pub open spec fn can_compose(self, other: StepMap) -> bool {
        &&& self.can_map(other.from as int)
        &&& self.can_map(self.compose_to_source(other))
        &&& self.spec_map(other.from as int).pos <= self.spec_map(
            self.compose_to_source(other),
        ).pos
    }

    /// The map that `compose` builds.
    pub open spec fn spec_compose(self, other: StepMap) -> StepMap {
        let new_from = self.spec_map(other.from as int).pos;
        let new_to = self.spec_map(self.compose_to_source(other)).pos;
        StepMap { from: new_from, to: new_to, new_size: (new_to - new_from) as usize }
    }

    /// Compose this map with another map: `other`'s range is carried through `self`.
    pub fn compose(&self, other: &StepMap) -> (r: StepMap)
        requires
            self.can_compose(*other),
        ensures
            r == self.spec_compose(*other),
    {
        let new_from = self.map(other.from).pos;
        let new_to = if other.to <= self.from {
            self.map(other.to).pos
        } else if other.from >= self.to {
            self.map(other.to).pos
        } else {
            let far = if self.to >= other.to { self.to } else { other.to };
            self.map(far).pos
        };
        let new_size = new_to - new_from;
        StepMap::new(new_from, new_to, new_size)
    }
}

/// Carry a result one step further: a deleted position stays where it was deleted.
pub open spec fn step_result(m: StepMap, r: MapResult) -> MapResult {
    if r.deleted {
        MapResult { pos: r.pos, deleted: true, replaced: false }
    } else {
        m.spec_map(r.pos as int)
    }
}

/// The result of mapping `pos` through the first `i` maps.
pub open spec fn map_prefix(maps: Seq<StepMap>, pos: usize, i: int) -> MapResult
    decreases i,
{
    if i <= 0 {
        MapResult { pos, deleted: false, replaced: false }
    } else {
        step_result(maps[i - 1], map_prefix(maps, pos, i - 1))
    }
}

/// Mapping `pos` through the first `i` maps runs without an arithmetic fault
/// (each map is applied to the position reached so far, deleted or not).
pub open spec fn can_map_prefix(maps: Seq<StepMap>, pos: usize, i: int) -> bool
    decreases i,
{
    if i <= 0 {
        true
    } else {
        can_map_prefix(maps, pos, i - 1) && maps[i - 1].can_map(
            map_prefix(maps, pos, i - 1).pos as int,
        )
    }
}

/// Fault-freedom of a longer prefix gives that of a shorter one.
pub proof fn lemma_can_map_prefix_shorter(maps: Seq<StepMap>, pos: usize, i: int, j: int)
    requires
        0 <= i <= j,
        can_map_prefix(maps, pos, j),
    ensures
        can_map_prefix(maps, pos, i),
    decreases j - i,
{
    if i < j {
        lemma_can_map_prefix_shorter(maps, pos, i + 1, j);
    }
}

/// A fault in a prefix is a fault in every longer prefix.
proof fn lemma_cannot_map_longer(maps: Seq<StepMap>, pos: usize, i: int, j: int)
    requires
        0 <= i <= j,
        !can_map_prefix(maps, pos, i),
    ensures
        !can_map_prefix(maps, pos, j),
    decreases j - i,
{
    if i < j {
        lemma_cannot_map_longer(maps, pos, i, j - 1);
    }
}

/// A deleted result is never marked replaced.
proof fn lemma_deleted_not_replaced(maps: Seq<StepMap>, pos: usize, i: int)
    requires
        map_prefix(maps, pos, i).deleted,
    ensures
        !map_prefix(maps, pos, i).replaced,
{
}

/// Once a position is deleted by a map, every later map leaves it where it
/// is, still deleted: the result through the first `n` maps is the deleted
/// position that the first deleting map gave.
pub proof fn law_deleted_position_is_frozen(maps: Seq<StepMap>, pos: usize, j: int, n: int)
    requires
        0 <= j <= n,
        map_prefix(maps, pos, j).deleted,
    ensures
        map_prefix(maps, pos, n) == (MapResult {
            pos: map_prefix(maps, pos, j).pos,
            deleted: true,
            replaced: false,
        }),
    decreases n - j,
{
    lemma_deleted_not_replaced(maps, pos, j);
    if n > j {
        law_deleted_position_is_frozen(maps, pos, j, n - 1);
    }
}

/// A sequence of step maps, applied in order.
#[derive(Debug, PartialEq, Default)]
pub struct Mapping {
    /// The step maps in order
    pub maps: Vec<StepMap>,
}

impl Clone for Mapping {
    /// A copy holding the same step maps.
    fn clone(&self) -> (r: Self)
        ensures
            r.maps@ == self.maps@,
    {
        let mut maps: Vec<StepMap> = Vec::new();
        let mut i: usize = 0;
        while i < self.maps.len()
            invariant
                i <= self.maps@.len(),
                maps@ == self.maps@.take(i as int),
            decreases self.maps@.len() - i,
        {
            maps.push(self.maps[i]);
            proof {
                assert(self.maps@.take(i + 1) =~= self.maps@.take(i as int).push(self.maps@[i as int]));
            }
            i = i + 1;
        }
        proof {
            assert(self.maps@.take(self.maps@.len() as int) =~= self.maps@);
        }
        Mapping { maps }
    }
}

impl Mapping {
    /// `pos` can be mapped through every map of this mapping.
    pub open spec fn can_map(&self, pos: usize) -> bool {
        can_map_prefix(self.maps@, pos, self.maps@.len() as int)
    }

    /// Where `pos` goes through all maps.
    pub open spec fn spec_map(&self, pos: usize) -> MapResult {
        map_prefix(self.maps@, pos, self.maps@.len() as int)
    }

    /// Create an empty mapping.
    pub fn new() -> (r: Self)
        ensures
            r.maps@ == Seq::<StepMap>::empty(),
    {
        Mapping { maps: Vec::new() }
    }

    /// Create an empty mapping with room for `capacity` maps.
    pub fn with_capacity(capacity: usize) -> (r: Self)
        ensures
            r.maps@ == Seq::<StepMap>::empty(),
    {
        Mapping { maps: Vec::with_capacity(capacity) }
    }

    /// Append a step map.
    pub fn add_map(&mut self, map: StepMap)
        ensures
            final(self).maps@ == old(self).maps@.push(map),
    {
        self.maps.push(map);
    }

    /// Whether `pos` can be mapped through every map without an
    /// arithmetic fault.
    pub fn fits(&self, pos: usize) -> (r: bool)
        ensures
            r == self.can_map(pos),
    {
        let mut result = MapResult::unchanged(pos);
        let mut i: usize = 0;
        while i < self.maps.len()
            invariant
                0 <= i <= self.maps@.len(),
                can_map_prefix(self.maps@, pos, i as int),
                result == map_prefix(self.maps@, pos, i as int),
            decreases self.maps@.len() - i,
        {
            let map = &self.maps[i];
            if !map.fits(result.pos) {
                proof {
                    assert(!can_map_prefix(self.maps@, pos, i + 1));
                    lemma_cannot_map_longer(self.maps@, pos, i + 1, self.maps@.len() as int);
                }
                return false;
            }
            let prev_deleted = result.deleted;
            let prev_pos = result.pos;
            result = map.map(result.pos);
            if prev_deleted {
                result = MapResult::deleted(prev_pos);
            }
            i = i + 1;
        }
        true
    }

    /// Map a position through all steps.
    pub fn map(&self, pos: usize) -> (r: MapResult)
        requires
            self.can_map(pos),
        ensures
            r == self.spec_map(pos),
    {
        let mut result = MapResult::unchanged(pos);
        let mut i: usize = 0;
        while i < self.maps.len()
            invariant
                0 <= i <= self.maps@.len(),
                can_map_prefix(self.maps@, pos, self.maps@.len() as int),
                result == map_prefix(self.maps@, pos, i as int),
            decreases self.maps@.len() - i,
        {
            proof {
                lemma_can_map_prefix_shorter(self.maps@, pos, i + 1, self.maps@.len() as int);
            }
            let map = &self.maps[i];
            let prev_deleted = result.deleted;
            let prev_pos = result.pos;
            result = map.map(result.pos);
            if prev_deleted {
                result = MapResult::deleted(prev_pos);
            }
            i = i + 1;
        }
        result
    }

    /// Map both ends of a range through all steps.
    pub fn map_range(&self, from: usize, to: usize) -> (r: (MapResult, MapResult))
        requires
            self.can_map(from),
            self.can_map(to),
        ensures
            r == (self.spec_map(from), self.spec_map(to)),
    {
        let mut from_result = MapResult::unchanged(from);
        let mut to_result = MapResult::unchanged(to);
        let mut i: usize = 0;
        while i < self.maps.len()
            invariant
                0 <= i <= self.maps@.len(),
                can_map_prefix(self.maps@, from, self.maps@.len() as int),
                can_map_prefix(self.maps@, to, self.maps@.len() as int),
                from_result == map_prefix(self.maps@, from, i as int),
                to_result == map_prefix(self.maps@, to, i as int),
            decreases self.maps@.len() - i,
        {
            proof {
                lemma_can_map_prefix_shorter(self.maps@, from, i + 1, self.maps@.len() as int);
                lemma_can_map_prefix_shorter(self.maps@, to, i + 1, self.maps@.len() as int);
            }
            let map = &self.maps[i];
            let prev_from_deleted = from_result.deleted;
            let prev_from_pos = from_result.pos;
            from_result = map.map(from_result.pos);
            if prev_from_deleted {
                from_result = MapResult::deleted(prev_from_pos);
            }
            let prev_to_deleted = to_result.deleted;
            let prev_to_pos = to_result.pos;
            to_result = map.map(to_result.pos);
            if prev_to_deleted {
                to_result = MapResult::deleted(prev_to_pos);
            }
            i = i + 1;
        }
        (from_result, to_result)
    }

    /// Map a position through all steps, returning only the offset.
    pub fn maps(&self, pos: usize) -> (r: usize)
        requires
            self.can_map(pos),
        ensures
            r == self.spec_map(pos).pos,
    {
        self.map(pos).pos
    }

    /// The number of step maps.
    pub fn len(&self) -> (r: usize)
        ensures
            r == self.maps@.len(),
    {
        self.maps.len()
    }

    /// Whether there are no step maps.
    pub fn is_empty(&self) -> (r: bool)
        ensures
            r == (self.maps@.len() == 0),
    {
        self.maps.len() == 0
    }

    /// Every map can be inverted: ordered ranges whose inverse end fits in a `usize`.
    pub open spec fn can_invert(&self) -> bool {
        forall|i: int|
            0 <= i < self.maps@.len() ==> {
                &&& #[trigger] self.maps@[i].from <= self.maps@[i].to
                &&& self.maps@[i].from + self.maps@[i].new_size <= usize::MAX
            }
    }

    /// The inverse mapping: the inverse of each map, last map first.
    pub fn invert(&self) -> (r: Mapping)
        requires
            self.can_invert(),
        ensures
            r.maps@.len() == self.maps@.len(),
            forall|i: int|
                0 <= i < self.maps@.len() ==> #[trigger] r.maps@[i] == self.maps@[self.maps@.len()
                    - 1 - i].spec_inverse(),
    {
        let mut inverted = Mapping::new();
        let n = self.maps.len();
        let mut k: usize = n;
        while k > 0
            invariant
                k <= n,
                n == self.maps@.len(),
                self.can_invert(),
                inverted.maps@.len() == n - k,
                forall|i: int|
                    0 <= i < n - k ==> #[trigger] inverted.maps@[i] == self.maps@[n - 1
                        - i].spec_inverse(),
            decreases k,
        {
            k = k - 1;
            let map = &self.maps[k];
            assert(self.maps@[k as int].from <= self.maps@[k as int].to);
            let inv_map = StepMap::new(map.from, map.from + map.new_size, map.to - map.from);
            inverted.add_map(inv_map);
        }
        inverted
    }
}

// ---------------------------------------------------------------------------
// Laws
// ---------------------------------------------------------------------------

/// The identity map at `p` leaves every position where it is.
pub proof fn law_identity_map_keeps_positions(p: usize, pos: usize)
    ensures
        (StepMap { from: p, to: p, new_size: 0 }).can_map(pos as int),
        (StepMap { from: p, to: p, new_size: 0 }).spec_map(pos as int).pos == pos,
{
}

/// A step map never reorders positions: mapping is monotone.
pub proof fn law_step_map_monotone(m: StepMap, a: usize, b: usize)
    requires
        a <= b,
        m.can_map(a as int),
        m.can_map(b as int),
    ensures
        m.spec_map(a as int).pos <= m.spec_map(b as int).pos,
{
}

/// Mapping a position that lies outside the replaced range (or any
/// position, for a pure insertion) and then mapping the result through
/// the inverse map gives the position back.
pub proof fn law_inverse_map_undoes(m: StepMap, pos: usize)
    requires
        m.from <= m.to,
        m.can_map(pos as int),
        pos < m.from || pos > m.to || m.from == m.to,
    ensures
        m.spec_inverse().can_map(m.spec_map(pos as int).pos as int),
        m.spec_inverse().spec_map(m.spec_map(pos as int).pos as int).pos == pos,
{
}

/// The inverse of an inverse map is the map itself.
pub proof fn law_inverse_involution(m: StepMap)
    requires
        m.from <= m.to,
        m.from + m.new_size <= usize::MAX,
    ensures
        m.spec_inverse().spec_inverse() == m,
{
}

} // verus!
