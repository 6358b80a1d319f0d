//! The coordinate-indexed grid store: the bidirectional coordinate/index
//! transform, dual-layer (content + background) storage, the mutation
//! operations that keep each occupant's cached position consistent with its
//! slot, and the row-major slot iterator.

use vstd::prelude::*;
use vstd::arithmetic::div_mod::{
    lemma_fundamental_div_mod, lemma_fundamental_div_mod_converse, lemma_mod_bound,
};
use crate::errors::GridError;
use crate::pos::Position;

verus! {

/// The capability a content item must expose: it caches its own coordinate,
/// and the grid store reassigns that coordinate on every placement and
/// relocation.
pub trait PositionAccessor: Sized {
    /// The coordinate the item currently caches.
    spec fn spec_position(&self) -> Position;

    /// The item as it stands after its cached coordinate is reassigned.
    spec fn with_position(self, new_position: Position) -> Self;

    /// Reassigning the cached coordinate makes the item cache exactly that
    /// coordinate.
    proof fn lemma_with_position(self, new_position: Position)
        ensures
            self.with_position(new_position).spec_position() == new_position,
    ;

    fn get_position(&self) -> (r: Position)
        ensures
            r == self.spec_position(),
    ;

    fn set_position(&mut self, new_position: Position)
        ensures
            *final(self) == old(self).with_position(new_position),
    ;
}

/// The capability a background descriptor must expose: whether the cell it
/// describes may host a content item.
pub trait AllowContent: Sized {
    /// Whether this background lets its cell host content.
    spec fn spec_content_allowed(&self) -> bool;

    fn is_content_allowed(&self) -> (r: bool)
        ensures
            r == self.spec_content_allowed(),
    ;
}

/// The derived classification of a slot. Occupancy takes precedence: an
/// occupied cell reports `Busy` even if its background was later mutated to
/// disallow content.
#[derive(Copy, Clone, Debug, PartialEq, Eq, Structural)]
pub enum PositionStatus {
    /// The background allows content and no item is at this coordinate.
    Empty,
    /// An item is already at this coordinate.
    Busy,
    /// The background does not allow content at this coordinate.
    Forbidden,
}

/// Is `p` within the rectangle of `length.0 x length.1` cells whose least
/// coordinate is `offset`?
pub open spec fn spec_pos_in_bounds(p: Position, length: (i32, i32), offset: Position) -> bool {
    &&& 0 <= p.x - offset.x < length.0
    &&& 0 <= p.y - offset.y < length.1
}

/// The row-major linear index of `p`.
pub open spec fn spec_pos_index(p: Position, length: (i32, i32), offset: Position) -> int {
    (p.x - offset.x) + length.0 * (p.y - offset.y)
}

/// Is `index` a linear index of some cell of the grid?
pub open spec fn spec_index_valid(index: int, length: (i32, i32)) -> bool {
    0 <= index < length.0 * length.1
}

/// The coordinate of the cell with row-major linear index `index`.
pub open spec fn spec_index_pos(index: int, length: (i32, i32), offset: Position) -> Position {
    Position {
        x: (offset.x + index % (length.0 as int)) as i32,
        y: (offset.y + index / (length.0 as int)) as i32,
    }
}

/// Do all cells of the rectangle have coordinates representable in `i32`?
pub open spec fn spec_extent_fits(length: (i32, i32), offset: Position) -> bool {
    &&& offset.x + length.0 - 1 <= i32::MAX
    &&& offset.y + length.1 - 1 <= i32::MAX
}

/// A valid linear index splits into a column `index % width` and a row
/// `index / width`, both within the grid's dimensions.
pub proof fn lemma_index_decompose(index: int, length: (i32, i32))
    requires
        0 < length.0,
        0 < length.1,
        spec_index_valid(index, length),
    ensures
        0 <= index % (length.0 as int) < length.0 as int,
        0 <= index / (length.0 as int) < length.1 as int,
        index == (length.0 as int) * (index / (length.0 as int)) + index % (length.0 as int),
{
    let w = length.0 as int;
    let h = length.1 as int;
    lemma_fundamental_div_mod(index, w);
    lemma_mod_bound(index, w);
    assert(0 <= index / w < h) by (nonlinear_arith)
        requires
            0 < w,
            0 < h,
            0 <= index < w * h,
            0 <= index % w < w,
            index == w * (index / w) + index % w,
    ;
}

/// The transform from coordinate to linear index is injective and lands in
/// the valid index range, and the inverse transform undoes it: for every
/// in-bounds coordinate `p`, `toCoordinate(toIndex(p)) == p`.
pub proof fn lemma_pos_index_roundtrip(p: Position, length: (i32, i32), offset: Position)
    requires
        0 < length.0,
        0 < length.1,
        spec_pos_in_bounds(p, length, offset),
    ensures
        spec_index_valid(spec_pos_index(p, length, offset), length),
        spec_index_pos(spec_pos_index(p, length, offset), length, offset) == p,
{
    let w = length.0 as int;
    let h = length.1 as int;
    let rx = p.x - offset.x;
    let ry = p.y - offset.y;
    let i = rx + w * ry;
    assert(0 <= i < w * h) by (nonlinear_arith)
        requires
            0 < w,
            0 < h,
            0 <= rx < w,
            0 <= ry < h,
            i == rx + w * ry,
    ;
    lemma_fundamental_div_mod_converse(i, w, ry, rx);
    assert(spec_index_pos(i, length, offset) == p);
}

/// The transform from linear index to coordinate lands in bounds, and the
/// forward transform undoes it: for every valid index `i`,
/// `toIndex(toCoordinate(i)) == i`.
pub proof fn lemma_index_pos_roundtrip(index: int, length: (i32, i32), offset: Position)
    requires
        0 < length.0,
        0 < length.1,
        spec_index_valid(index, length),
        spec_extent_fits(length, offset),
    ensures
        spec_pos_in_bounds(spec_index_pos(index, length, offset), length, offset),
        spec_pos_index(spec_index_pos(index, length, offset), length, offset) == index,
{
    let w = length.0 as int;
    let rx = index % w;
    let ry = index / w;
    lemma_index_decompose(index, length);
    let p = spec_index_pos(index, length, offset);
    assert(p.x == offset.x + rx);
    assert(p.y == offset.y + ry);
}

/// The coordinate of the cell with linear index `index` in a grid of the
/// given dimensions and offset: `y = index / width`, `x = index % width`,
/// shifted by the offset. Fails with `OutOfRange` exactly when `index` is
/// not the index of any cell.
pub fn index_to_pos(index: usize, length: (i32, i32), offset: Position) -> (r: Result<
    Position,
    GridError,
>)
    requires
        0 < length.0,
        0 < length.1,
        spec_extent_fits(length, offset),
    ensures
        spec_index_valid(index as int, length) ==> r == Ok::<Position, GridError>(
            spec_index_pos(index as int, length, offset),
        ),
        !spec_index_valid(index as int, length) ==> r == Err::<Position, GridError>(
            GridError::OutOfRange,
        ),
{
    let w: u64 = length.0 as u64;
    let h: u64 = length.1 as u64;
    proof {
        assert(w as int * h as int <= 0x7fffffff * 0x7fffffff) by (nonlinear_arith)
            requires
                0 <= w as int <= 0x7fffffff,
                0 <= h as int <= 0x7fffffff,
        ;
    }
    let total: u64 = w * h;
    if (index as u64) >= total {
        Err(GridError::OutOfRange)
    } else {
        proof {
            lemma_index_decompose(index as int, length);
        }
        let rx: u64 = (index as u64) % w;
        let ry: u64 = (index as u64) / w;
        let x: i32 = offset.x + (rx as i32);
        let y: i32 = offset.y + (ry as i32);
        Ok(Position { x, y })
    }
}

/// A lazy, forward-only walk over one backing array of a grid, in storage
/// (row-major) order. Each step reconstructs the coordinate of the current
/// slot through the inverse index transform and pairs it with a borrow of
/// the slot's value. Every walk is fresh and independent; none restarts in
/// place.
pub struct MapIter<'a, S> {
    iter: &'a [S],
    current_index: usize,
    length: (i32, i32),
    offset: Position,
}

impl<'a, S> MapIter<'a, S> {
    /// The walked array, in storage order.
    pub closed spec fn slots(&self) -> Seq<S> {
        self.iter@
    }

    /// The linear index the walk stands at.
    pub closed spec fn cursor(&self) -> int {
        self.current_index as int
    }

    /// The dimensions the coordinates are reconstructed against.
    pub closed spec fn spec_length(&self) -> (i32, i32) {
        self.length
    }

    /// The offset the coordinates are reconstructed against.
    pub closed spec fn spec_offset(&self) -> Position {
        self.offset
    }

    /// Well-formedness: positive dimensions, the array exactly one slot per
    /// cell, every cell's coordinate representable, the cursor within the
    /// walk.
    pub open spec fn wf(&self) -> bool {
        &&& 0 < self.spec_length().0
        &&& 0 < self.spec_length().1
        &&& self.slots().len() == (self.spec_length().0 as int) * (self.spec_length().1 as int)
        &&& spec_extent_fits(self.spec_length(), self.spec_offset())
        &&& 0 <= self.cursor() <= self.slots().len()
    }

    /// A fresh walk over `iter`, standing before the slot of linear index 0.
    pub fn new(iter: &'a [S], length: (i32, i32), offset: Position) -> (r: MapIter<'a, S>)
        requires
            0 < length.0,
            0 < length.1,
            iter@.len() == (length.0 as int) * (length.1 as int),
            spec_extent_fits(length, offset),
        ensures
            r.wf(),
            r.cursor() == 0,
            r.slots() == iter@,
            r.spec_length() == length,
            r.spec_offset() == offset,
    {
        MapIter { iter, current_index: 0, length, offset }
    }

    /// The coordinate and value of the slot the walk stands at, advancing
    /// the cursor; `None` exactly when the walk has passed the last slot.
    pub fn next(&mut self) -> (r: Option<(Position, &'a S)>)
        requires
            old(self).wf(),
        ensures
            final(self).wf(),
            final(self).slots() == old(self).slots(),
            final(self).spec_length() == old(self).spec_length(),
            final(self).spec_offset() == old(self).spec_offset(),
            old(self).cursor() < old(self).slots().len() ==> (r matches Some(pair)
                && pair.0 == spec_index_pos(old(self).cursor(), old(self).spec_length(), old(self).spec_offset())
                && *pair.1 == old(self).slots()[old(self).cursor()]
                && final(self).cursor() == old(self).cursor() + 1),
            old(self).cursor() >= old(self).slots().len() ==> (r is None
                && final(self).cursor() == old(self).cursor()),
    {
        match index_to_pos(self.current_index, self.length, self.offset) {
            Ok(position) => {
                let slots: &'a [S] = self.iter;
                let item = &slots[self.current_index];
                self.current_index = self.current_index + 1;
                Some((position, item))
            },
            Err(_) => None,
        }
    }
}

/// A lazy, forward-only walk over both backing arrays of a grid at once, in
/// storage (row-major) order, pairing each reconstructed coordinate with
/// borrows of the cell's content slot and background.
pub struct MapPairIter<'a, T, Bg> {
    contents: &'a [Option<T>],
    bg: &'a [Bg],
    current_index: usize,
    length: (i32, i32),
    offset: Position,
}

impl<'a, T, Bg> MapPairIter<'a, T, Bg> {
    /// The walked content array, in storage order.
    pub closed spec fn content_slots(&self) -> Seq<Option<T>> {
        self.contents@
    }

    /// The walked background array, in storage order.
    pub closed spec fn bg_slots(&self) -> Seq<Bg> {
        self.bg@
    }

    /// The linear index the walk stands at.
    pub closed spec fn cursor(&self) -> int {
        self.current_index as int
    }

    /// The dimensions the coordinates are reconstructed against.
    pub closed spec fn spec_length(&self) -> (i32, i32) {
        self.length
    }

    /// The offset the coordinates are reconstructed against.
    pub closed spec fn spec_offset(&self) -> Position {
        self.offset
    }

    /// Well-formedness: positive dimensions, both arrays exactly one slot
    /// per cell, every cell's coordinate representable, the cursor within
    /// the walk.
    pub open spec fn wf(&self) -> bool {
        &&& 0 < self.spec_length().0
        &&& 0 < self.spec_length().1
        &&& self.content_slots().len() == (self.spec_length().0 as int) * (self.spec_length().1 as int)
        &&& self.bg_slots().len() == self.content_slots().len()
        &&& spec_extent_fits(self.spec_length(), self.spec_offset())
        &&& 0 <= self.cursor() <= self.content_slots().len()
    }

    /// A fresh walk over `contents` and `bg`, standing before the slot of
    /// linear index 0.
    pub fn new(contents: &'a [Option<T>], bg: &'a [Bg], length: (i32, i32), offset: Position) -> (r:
        MapPairIter<'a, T, Bg>)
        requires
            0 < length.0,
            0 < length.1,
            contents@.len() == (length.0 as int) * (length.1 as int),
            bg@.len() == contents@.len(),
            spec_extent_fits(length, offset),
        ensures
            r.wf(),
            r.cursor() == 0,
            r.content_slots() == contents@,
            r.bg_slots() == bg@,
            r.spec_length() == length,
            r.spec_offset() == offset,
    {
        MapPairIter { contents, bg, current_index: 0, length, offset }
    }

    /// The coordinate and both values of the cell the walk stands at,
    /// advancing the cursor; `None` exactly when the walk has passed the
    /// last cell.
    pub fn next(&mut self) -> (r: Option<(Position, (&'a Option<T>, &'a Bg))>)
        requires
            old(self).wf(),
        ensures
            final(self).wf(),
            final(self).content_slots() == old(self).content_slots(),
            final(self).bg_slots() == old(self).bg_slots(),
            final(self).spec_length() == old(self).spec_length(),
            final(self).spec_offset() == old(self).spec_offset(),
            old(self).cursor() < old(self).content_slots().len() ==> (r matches Some(pair)
                && pair.0 == spec_index_pos(old(self).cursor(), old(self).spec_length(), old(self).spec_offset())
                && *pair.1.0 == old(self).content_slots()[old(self).cursor()]
                && *pair.1.1 == old(self).bg_slots()[old(self).cursor()]
                && final(self).cursor() == old(self).cursor() + 1),
            old(self).cursor() >= old(self).content_slots().len() ==> (r is None
                && final(self).cursor() == old(self).cursor()),
    {
        match index_to_pos(self.current_index, self.length, self.offset) {
            Ok(position) => {
                let contents: &'a [Option<T>] = self.contents;
                let bg: &'a [Bg] = self.bg;
                let content = &contents[self.current_index];
                let background = &bg[self.current_index];
                self.current_index = self.current_index + 1;
                Some((position, (content, background)))
            },
            Err(_) => None,
        }
    }
}

/// The grid store: two parallel fixed-length arrays, one of optional content
/// items and one of mandatory background descriptors, both addressed through
/// the row-major coordinate/index transform.
pub struct Grid<T: PositionAccessor, Bg: Default + AllowContent> {
    contents: Vec<Option<T>>,
    bg: Vec<Bg>,
    length: (i32, i32),
    offset: Position,
}

impl<T: PositionAccessor, Bg: Default + AllowContent> Grid<T, Bg> {
    /// The fixed dimensions `(width, height)` of this grid.
    pub closed spec fn spec_length(&self) -> (i32, i32) {
        self.length
    }

    /// The coordinate of the cell with linear index 0.
    pub closed spec fn spec_offset(&self) -> Position {
        self.offset
    }

    /// The content layer, in storage (row-major) order.
    pub closed spec fn contents_seq(&self) -> Seq<Option<T>> {
        self.contents@
    }

    /// The background layer, in storage (row-major) order.
    pub closed spec fn bg_seq(&self) -> Seq<Bg> {
        self.bg@
    }

    /// The number of cells, `width * height`.
    pub open spec fn spec_total(&self) -> int {
        self.spec_length().0 * self.spec_length().1
    }

    /// Well-formedness: strictly positive dimensions, both layers exactly
    /// `width * height` long, every cell's coordinate representable, and the
    /// cell count addressable.
    pub open spec fn wf(&self) -> bool {
        &&& 0 < self.spec_length().0
        &&& 0 < self.spec_length().1
        &&& self.contents_seq().len() == self.spec_total()
        &&& self.bg_seq().len() == self.spec_total()
        &&& self.spec_total() <= usize::MAX
        &&& spec_extent_fits(self.spec_length(), self.spec_offset())
    }

    /// Does this grid and `other` have the same dimensions and offset?
    pub open spec fn same_shape(&self, other: &Self) -> bool {
        &&& self.spec_length() == other.spec_length()
        &&& self.spec_offset() == other.spec_offset()
    }

    /// Is `p` the coordinate of a cell of this grid?
    pub open spec fn spec_in_bounds(&self, p: Position) -> bool {
        spec_pos_in_bounds(p, self.spec_length(), self.spec_offset())
    }

    /// The linear index of the cell at `p`.
    pub open spec fn spec_index_of(&self, p: Position) -> int {
        spec_pos_index(p, self.spec_length(), self.spec_offset())
    }

    /// The coordinate of the cell with linear index `index`.
    pub open spec fn spec_pos_of(&self, index: int) -> Position {
        spec_index_pos(index, self.spec_length(), self.spec_offset())
    }

    /// The content of the cell at in-bounds coordinate `p`.
    pub open spec fn content_at(&self, p: Position) -> Option<T> {
        self.contents_seq()[self.spec_index_of(p)]
    }

    /// The background of the cell at in-bounds coordinate `p`.
    pub open spec fn bg_at(&self, p: Position) -> Bg {
        self.bg_seq()[self.spec_index_of(p)]
    }

    /// The derived status of the cell at in-bounds coordinate `p`; occupancy
    /// takes precedence over a forbidding background.
    pub open spec fn spec_status_at(&self, p: Position) -> PositionStatus {
        if self.content_at(p) is Some {
            PositionStatus::Busy
        } else if self.bg_at(p).spec_content_allowed() {
            PositionStatus::Empty
        } else {
            PositionStatus::Forbidden
        }
    }

    /// The cross-cutting invariant of the two layers: every occupied content
    /// slot holds an occupant whose cached coordinate is the coordinate of
    /// that slot. The store re-establishes it on every placement and
    /// relocation; only the mutable borrows handed out by `get_mut` and
    /// `get_contents_mut` let a caller break it.
    pub open spec fn positions_consistent(&self) -> bool {
        forall|i: int|
            0 <= i < self.contents_seq().len() && (#[trigger] self.contents_seq()[i]) is Some
                ==> (self.contents_seq()[i]->0).spec_position() == self.spec_pos_of(i)
    }

    /// Storing at `p` either nothing or an occupant that caches `p` keeps
    /// the content layer's cached coordinates consistent.
    pub proof fn lemma_consistency_after_update(
        pre: Grid<T, Bg>,
        post: Grid<T, Bg>,
        p: Position,
        v: Option<T>,
    )
        requires
            pre.wf(),
            post.wf(),
            post.same_shape(&pre),
            pre.spec_in_bounds(p),
            pre.positions_consistent(),
            v matches Some(c) ==> c.spec_position() == p,
            post.contents_seq() == pre.contents_seq().update(pre.spec_index_of(p), v),
        ensures
            post.positions_consistent(),
    {
        lemma_pos_index_roundtrip(p, pre.spec_length(), pre.spec_offset());
        assert forall|j: int|
            0 <= j < post.contents_seq().len() && (#[trigger] post.contents_seq()[j]) is Some
                implies (post.contents_seq()[j]->0).spec_position() == post.spec_pos_of(j) by {
            if j != pre.spec_index_of(p) {
                assert(post.contents_seq()[j] == pre.contents_seq()[j]);
            }
        }
    }

    /// Two stores in a row, each of nothing or of an occupant caching its
    /// own cell's coordinate, keep the content layer's cached coordinates
    /// consistent.
    pub proof fn lemma_consistency_after_two_updates(
        pre: Grid<T, Bg>,
        post: Grid<T, Bg>,
        p_1: Position,
        v_1: Option<T>,
        p_2: Position,
        v_2: Option<T>,
    )
        requires
            pre.wf(),
            post.wf(),
            post.same_shape(&pre),
            pre.spec_in_bounds(p_1),
            pre.spec_in_bounds(p_2),
            pre.positions_consistent(),
            v_1 matches Some(c) ==> c.spec_position() == p_1,
            v_2 matches Some(c) ==> c.spec_position() == p_2,
            post.contents_seq() == pre.contents_seq().update(
                pre.spec_index_of(p_1),
                v_1,
            ).update(pre.spec_index_of(p_2), v_2),
        ensures
            post.positions_consistent(),
    {
        lemma_pos_index_roundtrip(p_1, pre.spec_length(), pre.spec_offset());
        lemma_pos_index_roundtrip(p_2, pre.spec_length(), pre.spec_offset());
        assert forall|j: int|
            0 <= j < post.contents_seq().len() && (#[trigger] post.contents_seq()[j]) is Some
                implies (post.contents_seq()[j]->0).spec_position() == post.spec_pos_of(j) by {
            if j != pre.spec_index_of(p_1) && j != pre.spec_index_of(p_2) {
                assert(post.contents_seq()[j] == pre.contents_seq()[j]);
            }
        }
    }

    /// Construct a grid of `length.0 x length.1` cells whose least coordinate
    /// is `offset`: all content slots empty, all backgrounds default-valued.
    /// Fails with `NegativeMapLength` exactly when a dimension is not
    /// strictly positive.
    pub fn new(length: (i32, i32), offset: Position) -> (r: Result<Grid<T, Bg>, GridError>)
        requires
            0 < length.0 && 0 < length.1 ==> (length.0 as int) * (length.1 as int) <= usize::MAX
                && spec_extent_fits(length, offset),
        ensures
            (length.0 <= 0 || length.1 <= 0) <==> r is Err,
            r is Err ==> r == Err::<Grid<T, Bg>, GridError>(GridError::NegativeMapLength),
            r matches Ok(g) ==> {
                &&& g.wf()
                &&& g.positions_consistent()
                &&& g.spec_length() == length
                &&& g.spec_offset() == offset
                &&& forall|i: int|
                    0 <= i < g.spec_total() ==> #[trigger] g.contents_seq()[i] is None
                &&& forall|i: int|
                    0 <= i < g.spec_total() ==> call_ensures(
                        Bg::default,
                        (),
                        #[trigger] g.bg_seq()[i],
                    )
            },
    {
        if length.0 <= 0 || length.1 <= 0 {
            Err(GridError::NegativeMapLength)
        } else {
            let total: usize = (length.0 as usize) * (length.1 as usize);
            let mut contents: Vec<Option<T>> = Vec::new();
            let mut bg: Vec<Bg> = Vec::new();
            let mut i: usize = 0;
            while i < total
                invariant
                    i <= total,
                    contents@.len() == i,
                    bg@.len() == i,
                    forall|j: int| 0 <= j < i ==> #[trigger] contents@[j] is None,
                    forall|j: int| 0 <= j < i ==> call_ensures(Bg::default, (), #[trigger] bg@[j]),
                decreases total - i,
            {
                contents.push(None);
                bg.push(Bg::default());
                i = i + 1;
            }
            Ok(Grid { contents, bg, length, offset })
        }
    }

    /// The two layers after inserting `entries` one by one into fresh layers
    /// `contents` and `bgs` of a grid of the given shape: each entry creates
    /// its content item at its coordinate and then overwrites that cell's
    /// background. The first entry that is out of bounds, targets an
    /// occupied cell, or targets a cell whose current background forbids
    /// content stops the build with the corresponding error.
    pub open spec fn spec_build_layers(
        contents: Seq<Option<T>>,
        bgs: Seq<Bg>,
        entries: Seq<(Position, (T, Bg))>,
        length: (i32, i32),
        offset: Position,
    ) -> Result<(Seq<Option<T>>, Seq<Bg>), GridError>
        decreases entries.len(),
    {
        if entries.len() <= 0 {
            Ok((contents, bgs))
        } else {
            let p = entries[0].0;
            let c = entries[0].1.0;
            let b = entries[0].1.1;
            if !spec_pos_in_bounds(p, length, offset) {
                Err(GridError::OutOfRange)
            } else {
                let i = spec_pos_index(p, length, offset);
                if contents[i] is Some {
                    Err(GridError::AlreadyOccupied)
                } else if !bgs[i].spec_content_allowed() {
                    Err(GridError::ForbiddenLocation)
                } else {
                    Self::spec_build_layers(
                        contents.update(i, Some(c.with_position(p))),
                        bgs.update(i, b),
                        entries.skip(1),
                        length,
                        offset,
                    )
                }
            }
        }
    }

    /// Does `r` stand to `entries` as a grid built by `from_iter` from a
    /// fresh grid whose background layer started as the default-valued
    /// `bgs0`?
    pub open spec fn spec_from_iter_result(
        r: Result<Grid<T, Bg>, GridError>,
        bgs0: Seq<Bg>,
        entries: Seq<(Position, (T, Bg))>,
        length: (i32, i32),
        offset: Position,
    ) -> bool {
        &&& bgs0.len() == length.0 * length.1
        &&& (forall|i: int| 0 <= i < bgs0.len() ==> call_ensures(Bg::default, (), #[trigger] bgs0[i]))
        &&& match Self::spec_build_layers(
            Seq::new((length.0 * length.1) as nat, |i: int| None::<T>),
            bgs0,
            entries,
            length,
            offset,
        ) {
            Ok(layers) => {
                &&& r matches Ok(g)
                &&& g.wf()
                &&& g.spec_length() == length
                &&& g.spec_offset() == offset
                &&& g.contents_seq() == layers.0
                &&& g.bg_seq() == layers.1
            },
            Err(e) => r == Err::<Grid<T, Bg>, GridError>(e),
        }
    }

    /// Build a grid by creating the content of each entry at its coordinate,
    /// in order, and then overwriting that cell's background with the
    /// entry's. Fails with `NegativeMapLength` exactly when a dimension is
    /// not strictly positive; otherwise the first entry the grid refuses
    /// stops the build with that entry's error.
    #[verifier::loop_isolation(false)]
    pub fn from_iter(
        entries: Vec<(Position, (T, Bg))>,
        length: (i32, i32),
        offset: Position,
    ) -> (r: Result<Grid<T, Bg>, GridError>)
        requires
            0 < length.0 && 0 < length.1 ==> (length.0 as int) * (length.1 as int) <= usize::MAX
                && spec_extent_fits(length, offset),
        ensures
            (length.0 <= 0 || length.1 <= 0) <==> r == Err::<Grid<T, Bg>, GridError>(
                GridError::NegativeMapLength,
            ),
            0 < length.0 && 0 < length.1 ==> exists|bgs0: Seq<Bg>|
                #[trigger] Self::spec_from_iter_result(r, bgs0, entries@, length, offset),
            r matches Ok(g) ==> g.positions_consistent(),
    {
        let ghost all = entries@;
        let mut rest = entries;
        let mut g = match Self::new(length, offset) {
            Ok(g) => g,
            Err(e) => {
                return Err(e);
            },
        };
        let ghost c0 = g.contents@;
        let ghost bgs0 = g.bg@;
        proof {
            assert(c0 =~= Seq::new((length.0 * length.1) as nat, |i: int| None::<T>));
        }
        while rest.len() > 0
            invariant
                g.wf(),
                g.positions_consistent(),
                g.spec_length() == length,
                g.spec_offset() == offset,
                bgs0.len() == length.0 * length.1,
                forall|i: int| 0 <= i < bgs0.len() ==> call_ensures(Bg::default, (), #[trigger] bgs0[i]),
                Self::spec_build_layers(c0, bgs0, all, length, offset)
                    == Self::spec_build_layers(g.contents@, g.bg@, rest@, length, offset),
                c0 == Seq::new((length.0 * length.1) as nat, |i: int| None::<T>),
            decreases rest.len(),
        {
            let ghost es = rest@;
            let ghost pre = g;
            let entry = rest.remove(0);
            let p = entry.0;
            let c = entry.1.0;
            let b = entry.1.1;
            proof {
                assert(es.skip(1) =~= rest@);
            }
            match g.create_content(p, c) {
                Ok(_) => {},
                Err(e) => {
                    proof {
                        assert(Self::spec_build_layers(pre.contents@, pre.bg@, es, length, offset)
                            == Err::<(Seq<Option<T>>, Seq<Bg>), GridError>(e));
                        assert(Self::spec_from_iter_result(
                            Err::<Grid<T, Bg>, GridError>(e),
                            bgs0,
                            all,
                            length,
                            offset,
                        ));
                    }
                    return Err(e);
                },
            }
            // the creation succeeded, so p is a cell of the grid and the
            // background borrow cannot fail
            let slot = match g.get_bg_mut(p) {
                Ok(slot) => slot,
                Err(e) => {
                    proof {
                        assert(false);
                    }
                    return Err(e);
                },
            };
            *slot = b;
            proof {
                assert(Self::spec_build_layers(pre.contents@, pre.bg@, es, length, offset)
                    == Self::spec_build_layers(g.contents@, g.bg@, rest@, length, offset));
            }
        }
        proof {
            assert(Self::spec_build_layers(g.contents@, g.bg@, rest@, length, offset)
                == Ok::<(Seq<Option<T>>, Seq<Bg>), GridError>((g.contents@, g.bg@)));
            assert(Self::spec_from_iter_result(
                Ok::<Grid<T, Bg>, GridError>(g),
                bgs0,
                all,
                length,
                offset,
            ));
        }
        Ok(g)
    }

    /// The row-major linear index of the cell at `pos`: the coordinate
    /// relative to the offset, flattened as `x + width * y`. Fails with
    /// `OutOfRange` exactly when `pos` is not a cell of this grid.
    pub fn pos_to_index(&self, pos: Position) -> (r: Result<usize, GridError>)
        requires
            self.wf(),
        ensures
            self.spec_in_bounds(pos) ==> (r matches Ok(i) && i as int == self.spec_index_of(pos)),
            !self.spec_in_bounds(pos) ==> r == Err::<usize, GridError>(GridError::OutOfRange),
            r matches Ok(i) ==> 0 <= i as int && (i as int) < self.spec_total(),
    {
        let rel_x: i64 = pos.x as i64 - self.offset.x as i64;
        let rel_y: i64 = pos.y as i64 - self.offset.y as i64;
        if rel_x < 0 || rel_x >= self.length.0 as i64 || rel_y < 0 || rel_y >= self.length.1 as i64 {
            Err(GridError::OutOfRange)
        } else {
            proof {
                lemma_pos_index_roundtrip(pos, self.length, self.offset);
                assert((self.length.0 as int) * (rel_y as int) <= (self.length.0 as int) * ((self.length.1 as int) - 1)) by (nonlinear_arith)
                    requires
                        0 < self.length.0 as int,
                        0 <= rel_y as int <= (self.length.1 as int) - 1,
                ;
            }
            let index: usize = (rel_x as usize) + (self.length.0 as usize) * (rel_y as usize);
            Ok(index)
        }
    }

    /// The coordinate of the cell with linear index `index`. Fails with
    /// `OutOfRange` exactly when `index` is not the index of any cell.
    pub fn index_to_pos(&self, index: usize) -> (r: Result<Position, GridError>)
        requires
            self.wf(),
        ensures
            spec_index_valid(index as int, self.spec_length()) ==> r == Ok::<Position, GridError>(
                self.spec_pos_of(index as int),
            ),
            !spec_index_valid(index as int, self.spec_length()) ==> r == Err::<
                Position,
                GridError,
            >(GridError::OutOfRange),
    {
        index_to_pos(index, self.length, self.offset)
    }

    /// The status of the cell at `position`: `Busy` when occupied, otherwise
    /// `Empty` or `Forbidden` per the background's permission. Fails with
    /// `OutOfRange` exactly when `position` is not a cell of this grid.
    pub fn position_status(&self, position: Position) -> (r: Result<PositionStatus, GridError>)
        requires
            self.wf(),
        ensures
            self.spec_in_bounds(position) ==> r == Ok::<PositionStatus, GridError>(
                self.spec_status_at(position),
            ),
            !self.spec_in_bounds(position) ==> r == Err::<PositionStatus, GridError>(
                GridError::OutOfRange,
            ),
    {
        let index = match self.pos_to_index(position) {
            Ok(i) => i,
            Err(e) => {
                return Err(e);
            },
        };
        if self.contents[index].is_some() {
            Ok(PositionStatus::Busy)
        } else if self.bg[index].is_content_allowed() {
            Ok(PositionStatus::Empty)
        } else {
            Ok(PositionStatus::Forbidden)
        }
    }

    /// Both layers of the cell at `pos`. Fails with `OutOfRange` exactly when
    /// `pos` is not a cell of this grid; never mutates.
    pub fn get(&self, pos: Position) -> (r: Result<(&Option<T>, &Bg), GridError>)
        requires
            self.wf(),
        ensures
            self.spec_in_bounds(pos) ==> (r matches Ok(pair) && *pair.0 == self.content_at(pos)
                && *pair.1 == self.bg_at(pos)),
            !self.spec_in_bounds(pos) ==> (r matches Err(e) && e == GridError::OutOfRange),
    {
        let index = match self.pos_to_index(pos) {
            Ok(i) => i,
            Err(e) => {
                return Err(e);
            },
        };
        Ok((&self.contents[index], &self.bg[index]))
    }

    /// The content of the cell at `pos`. Fails with `OutOfRange` exactly when
    /// `pos` is not a cell of this grid; never mutates.
    pub fn get_contents(&self, pos: Position) -> (r: Result<&Option<T>, GridError>)
        requires
            self.wf(),
        ensures
            self.spec_in_bounds(pos) ==> (r matches Ok(c) && *c == self.content_at(pos)),
            !self.spec_in_bounds(pos) ==> (r matches Err(e) && e == GridError::OutOfRange),
    {
        let index = match self.pos_to_index(pos) {
            Ok(i) => i,
            Err(e) => {
                return Err(e);
            },
        };
        Ok(&self.contents[index])
    }

    /// The background of the cell at `pos`. Fails with `OutOfRange` exactly
    /// when `pos` is not a cell of this grid; never mutates.
    pub fn get_bg(&self, pos: Position) -> (r: Result<&Bg, GridError>)
        requires
            self.wf(),
        ensures
            self.spec_in_bounds(pos) ==> (r matches Ok(b) && *b == self.bg_at(pos)),
            !self.spec_in_bounds(pos) ==> (r matches Err(e) && e == GridError::OutOfRange),
    {
        let index = match self.pos_to_index(pos) {
            Ok(i) => i,
            Err(e) => {
                return Err(e);
            },
        };
        Ok(&self.bg[index])
    }

    /// Mutable borrows of both layers of the cell at `pos`. Fails with
    /// `OutOfRange` exactly when `pos` is not a cell of this grid.
    pub fn get_mut(&mut self, pos: Position) -> (r: Result<(&mut Option<T>, &mut Bg), GridError>)
        requires
            old(self).wf(),
        ensures
            final(self).wf(),
            final(self).same_shape(old(self)),
            !old(self).spec_in_bounds(pos) ==> (r matches Err(e) && e == GridError::OutOfRange
                && final(self).contents_seq() == old(self).contents_seq()
                && final(self).bg_seq() == old(self).bg_seq()),
            old(self).spec_in_bounds(pos) ==> (r matches Ok((c, b))
                && *c == old(self).content_at(pos) && *b == old(self).bg_at(pos)
                && final(self).contents_seq() == old(self).contents_seq().update(old(self).spec_index_of(pos), *final(c))
                && final(self).bg_seq() == old(self).bg_seq().update(old(self).spec_index_of(pos), *final(b))),
    {
        let index = match self.pos_to_index(pos) {
            Ok(i) => i,
            Err(e) => {
                return Err(e);
            },
        };
        Ok((&mut self.contents[index], &mut self.bg[index]))
    }

    /// A mutable borrow of the content slot of the cell at `pos`. Fails with
    /// `OutOfRange` exactly when `pos` is not a cell of this grid; the
    /// background layer is never touched.
    pub fn get_contents_mut(&mut self, pos: Position) -> (r: Result<&mut Option<T>, GridError>)
        requires
            old(self).wf(),
        ensures
            final(self).wf(),
            final(self).same_shape(old(self)),
            final(self).bg_seq() == old(self).bg_seq(),
            !old(self).spec_in_bounds(pos) ==> (r matches Err(e) && e == GridError::OutOfRange
                && final(self).contents_seq() == old(self).contents_seq()),
            old(self).spec_in_bounds(pos) ==> (r matches Ok(c) && *c == old(self).content_at(pos)
                && final(self).contents_seq() == old(self).contents_seq().update(old(self).spec_index_of(pos), *final(c))),
    {
        let index = match self.pos_to_index(pos) {
            Ok(i) => i,
            Err(e) => {
                return Err(e);
            },
        };
        Ok(&mut self.contents[index])
    }

    /// A mutable borrow of the background of the cell at `pos`. Fails with
    /// `OutOfRange` exactly when `pos` is not a cell of this grid; the
    /// content layer is never touched.
    pub fn get_bg_mut(&mut self, pos: Position) -> (r: Result<&mut Bg, GridError>)
        requires
            old(self).wf(),
        ensures
            final(self).wf(),
            final(self).same_shape(old(self)),
            final(self).contents_seq() == old(self).contents_seq(),
            !old(self).spec_in_bounds(pos) ==> (r matches Err(e) && e == GridError::OutOfRange
                && final(self).bg_seq() == old(self).bg_seq()),
            old(self).spec_in_bounds(pos) ==> (r matches Ok(b) && *b == old(self).bg_at(pos)
                && final(self).bg_seq() == old(self).bg_seq().update(old(self).spec_index_of(pos), *final(b))),
            old(self).positions_consistent() ==> final(self).positions_consistent(),
    {
        let index = match self.pos_to_index(pos) {
            Ok(i) => i,
            Err(e) => {
                return Err(e);
            },
        };
        Ok(&mut self.bg[index])
    }

    /// Replace the content of the occupied cell at `position` with
    /// `new_content`, assigning `position` to the new item's cached
    /// coordinate, and hand the previous occupant back. Fails with
    /// `OutOfRange` when `position` is not a cell, `MissingTarget` when the
    /// cell is empty; on failure nothing is mutated.
    pub fn replace_content(&mut self, position: Position, new_content: T) -> (r: Result<
        T,
        GridError,
    >)
        requires
            old(self).wf(),
        ensures
            final(self).wf(),
            final(self).same_shape(old(self)),
            final(self).bg_seq() == old(self).bg_seq(),
            !old(self).spec_in_bounds(position) ==> (r matches Err(e) && e == GridError::OutOfRange
                && final(self).contents_seq() == old(self).contents_seq()),
            old(self).spec_in_bounds(position) && old(self).content_at(position) is None ==> (
            r matches Err(e) && e == GridError::MissingTarget
                && final(self).contents_seq() == old(self).contents_seq()),
            old(self).spec_in_bounds(position) ==> (old(self).content_at(position) matches Some(prev)
                ==> (r matches Ok(c) && c == prev
                && final(self).contents_seq() == old(self).contents_seq().update(old(self).spec_index_of(position), Some(new_content.with_position(position))))),
            old(self).positions_consistent() ==> final(self).positions_consistent(),
    {
        let ghost pre = *self;
        let ghost item_in = new_content;
        let index = match self.pos_to_index(position) {
            Ok(i) => i,
            Err(e) => {
                return Err(e);
            },
        };
        if self.contents[index].is_some() {
            let mut new_content = new_content;
            new_content.set_position(position);
            let slot = &mut self.contents[index];
            let prev = slot.take();
            *slot = Some(new_content);
            proof {
                if pre.positions_consistent() {
                    item_in.lemma_with_position(position);
                    Self::lemma_consistency_after_update(
                        pre,
                        *self,
                        position,
                        Some(item_in.with_position(position)),
                    );
                }
            }
            Ok(prev.unwrap())
        } else {
            Err(GridError::MissingTarget)
        }
    }

    /// Remove and return the occupant of the cell at `position`, leaving the
    /// cell empty. The returned item's cached coordinate is left as last
    /// assigned. Fails with `OutOfRange` when `position` is not a cell,
    /// `MissingTarget` when the cell is empty; on failure nothing is mutated.
    pub fn extract_content(&mut self, position: Position) -> (r: Result<T, GridError>)
        requires
            old(self).wf(),
        ensures
            final(self).wf(),
            final(self).same_shape(old(self)),
            final(self).bg_seq() == old(self).bg_seq(),
            !old(self).spec_in_bounds(position) ==> (r matches Err(e) && e == GridError::OutOfRange
                && final(self).contents_seq() == old(self).contents_seq()),
            old(self).spec_in_bounds(position) && old(self).content_at(position) is None ==> (
            r matches Err(e) && e == GridError::MissingTarget
                && final(self).contents_seq() == old(self).contents_seq()),
            old(self).spec_in_bounds(position) ==> (old(self).content_at(position) matches Some(c)
                ==> (r matches Ok(taken) && taken == c
                && final(self).contents_seq() == old(self).contents_seq().update(old(self).spec_index_of(position), None))),
            old(self).positions_consistent() ==> final(self).positions_consistent(),
    {
        let ghost pre = *self;
        let index = match self.pos_to_index(position) {
            Ok(i) => i,
            Err(e) => {
                return Err(e);
            },
        };
        if self.contents[index].is_some() {
            let slot = &mut self.contents[index];
            let taken = slot.take();
            proof {
                if pre.positions_consistent() {
                    Self::lemma_consistency_after_update(pre, *self, position, None::<T>);
                }
            }
            Ok(taken.unwrap())
        } else {
            Err(GridError::MissingTarget)
        }
    }

    /// Put `new_content` into the empty, permitted cell at `position`,
    /// assigning `position` to its cached coordinate. Fails with `OutOfRange`
    /// when `position` is not a cell, `AlreadyOccupied` when the cell holds
    /// content (occupancy is checked before permission), and
    /// `ForbiddenLocation` when the cell is empty but its background
    /// disallows content; on failure nothing is mutated.
    pub fn create_content(&mut self, position: Position, new_content: T) -> (r: Result<
        (),
        GridError,
    >)
        requires
            old(self).wf(),
        ensures
            final(self).wf(),
            final(self).same_shape(old(self)),
            final(self).bg_seq() == old(self).bg_seq(),
            !old(self).spec_in_bounds(position) ==> (r matches Err(e) && e == GridError::OutOfRange
                && final(self).contents_seq() == old(self).contents_seq()),
            old(self).spec_in_bounds(position) && old(self).content_at(position) is Some
                ==> (r matches Err(e) && e == GridError::AlreadyOccupied
                && final(self).contents_seq() == old(self).contents_seq()),
            old(self).spec_in_bounds(position) && old(self).content_at(position) is None
                && !old(self).bg_at(position).spec_content_allowed()
                ==> (r matches Err(e) && e == GridError::ForbiddenLocation
                && final(self).contents_seq() == old(self).contents_seq()),
            old(self).spec_in_bounds(position) && old(self).content_at(position) is None
                && old(self).bg_at(position).spec_content_allowed()
                ==> (r is Ok && final(self).contents_seq()
                == old(self).contents_seq().update(old(self).spec_index_of(position), Some(new_content.with_position(position)))),
            old(self).positions_consistent() ==> final(self).positions_consistent(),
    {
        let ghost pre = *self;
        let ghost item_in = new_content;
        let index = match self.pos_to_index(position) {
            Ok(i) => i,
            Err(e) => {
                return Err(e);
            },
        };
        if self.contents[index].is_some() {
            return Err(GridError::AlreadyOccupied);
        }
        if !self.bg[index].is_content_allowed() {
            return Err(GridError::ForbiddenLocation);
        }
        let mut new_content = new_content;
        new_content.set_position(position);
        let slot = &mut self.contents[index];
        *slot = Some(new_content);
        proof {
            if pre.positions_consistent() {
                item_in.lemma_with_position(position);
                Self::lemma_consistency_after_update(
                    pre,
                    *self,
                    position,
                    Some(item_in.with_position(position)),
                );
            }
        }
        Ok(())
    }

    /// Exchange the occupants of the two occupied cells at `pos_1` and
    /// `pos_2`, assigning each occupant the coordinate of its new cell. No
    /// permission re-check is made: both cells are already occupied. Fails
    /// with `OutOfRange` when either coordinate is not a cell,
    /// `MissingTarget` when either cell is empty; on failure nothing is
    /// mutated.
    pub fn swap_contents(&mut self, pos_1: Position, pos_2: Position) -> (r: Result<(), GridError>)
        requires
            old(self).wf(),
        ensures
            final(self).wf(),
            final(self).same_shape(old(self)),
            final(self).bg_seq() == old(self).bg_seq(),
            !(old(self).spec_in_bounds(pos_1) && old(self).spec_in_bounds(pos_2)) ==> (
                r matches Err(e) && e == GridError::OutOfRange
                && final(self).contents_seq() == old(self).contents_seq()),
            old(self).spec_in_bounds(pos_1) && old(self).spec_in_bounds(pos_2)
                && (old(self).content_at(pos_1) is None || old(self).content_at(pos_2) is None)
                ==> (r matches Err(e) && e == GridError::MissingTarget
                && final(self).contents_seq() == old(self).contents_seq()),
            old(self).spec_in_bounds(pos_1) && old(self).spec_in_bounds(pos_2) ==> (
                old(self).content_at(pos_1) matches Some(c1)
                ==> (old(self).content_at(pos_2) matches Some(c2)
                ==> (r is Ok
                && final(self).contents_seq() == old(self).contents_seq()
                    .update(old(self).spec_index_of(pos_1), Some(c2.with_position(pos_1)))
                    .update(old(self).spec_index_of(pos_2), Some(c1.with_position(pos_2)))))),
            old(self).positions_consistent() ==> final(self).positions_consistent(),
    {
        let ghost pre = *self;
        let index_1 = match self.pos_to_index(pos_1) {
            Ok(i) => i,
            Err(e) => {
                return Err(e);
            },
        };
        let index_2 = match self.pos_to_index(pos_2) {
            Ok(i) => i,
            Err(e) => {
                return Err(e);
            },
        };
        if self.contents[index_1].is_none() || self.contents[index_2].is_none() {
            return Err(GridError::MissingTarget);
        }
        if index_1 == index_2 {
            proof {
                lemma_pos_index_roundtrip(pos_1, self.length, self.offset);
                lemma_pos_index_roundtrip(pos_2, self.length, self.offset);
                assert(pos_1 == pos_2);
            }
            let slot = &mut self.contents[index_1];
            let mut c = slot.take().unwrap();
            c.set_position(pos_2);
            *slot = Some(c);
            proof {
                let cg = pre.content_at(pos_1)->0;
                assert(self.contents@ =~= pre.contents_seq()
                    .update(pre.spec_index_of(pos_1), Some(cg.with_position(pos_1)))
                    .update(pre.spec_index_of(pos_2), Some(cg.with_position(pos_2))));
                if pre.positions_consistent() {
                    cg.lemma_with_position(pos_2);
                    Self::lemma_consistency_after_update(
                        pre,
                        *self,
                        pos_2,
                        Some(cg.with_position(pos_2)),
                    );
                }
            }
            Ok(())
        } else {
            let slot_1 = &mut self.contents[index_1];
            let tmp_1 = slot_1.take();
            let slot_2 = &mut self.contents[index_2];
            let tmp_2 = slot_2.take();
            let mut c_1 = tmp_1.unwrap();
            let mut c_2 = tmp_2.unwrap();
            c_1.set_position(pos_2);
            c_2.set_position(pos_1);
            let slot_1 = &mut self.contents[index_1];
            *slot_1 = Some(c_2);
            let slot_2 = &mut self.contents[index_2];
            *slot_2 = Some(c_1);
            proof {
                let c1g = pre.content_at(pos_1)->0;
                let c2g = pre.content_at(pos_2)->0;
                assert(self.contents@ =~= pre.contents_seq()
                    .update(pre.spec_index_of(pos_1), Some(c2g.with_position(pos_1)))
                    .update(pre.spec_index_of(pos_2), Some(c1g.with_position(pos_2))));
                if pre.positions_consistent() {
                    c2g.lemma_with_position(pos_1);
                    c1g.lemma_with_position(pos_2);
                    Self::lemma_consistency_after_two_updates(
                        pre,
                        *self,
                        pos_1,
                        Some(c2g.with_position(pos_1)),
                        pos_2,
                        Some(c1g.with_position(pos_2)),
                    );
                }
            }
            Ok(())
        }
    }

    /// Move the occupant of the cell at `from` to the empty, permitted cell
    /// at `to`, assigning `to` to its cached coordinate and leaving `from`
    /// empty. Fails with `OutOfRange` when either coordinate is not a cell;
    /// then, in this order, `AlreadyOccupied` when `to` holds content,
    /// `ForbiddenLocation` when `to`'s background disallows content, and
    /// `MissingTarget` when `from` is empty; on failure nothing is mutated.
    pub fn move_contents(&mut self, from: Position, to: Position) -> (r: Result<(), GridError>)
        requires
            old(self).wf(),
        ensures
            final(self).wf(),
            final(self).same_shape(old(self)),
            final(self).bg_seq() == old(self).bg_seq(),
            !(old(self).spec_in_bounds(from) && old(self).spec_in_bounds(to)) ==> (
                r matches Err(e) && e == GridError::OutOfRange
                && final(self).contents_seq() == old(self).contents_seq()),
            old(self).spec_in_bounds(from) && old(self).spec_in_bounds(to)
                && old(self).content_at(to) is Some ==> (r matches Err(e)
                && e == GridError::AlreadyOccupied
                && final(self).contents_seq() == old(self).contents_seq()),
            old(self).spec_in_bounds(from) && old(self).spec_in_bounds(to)
                && old(self).content_at(to) is None
                && !old(self).bg_at(to).spec_content_allowed() ==> (r matches Err(e)
                && e == GridError::ForbiddenLocation
                && final(self).contents_seq() == old(self).contents_seq()),
            old(self).spec_in_bounds(from) && old(self).spec_in_bounds(to)
                && old(self).content_at(to) is None
                && old(self).bg_at(to).spec_content_allowed()
                && old(self).content_at(from) is None ==> (r matches Err(e)
                && e == GridError::MissingTarget
                && final(self).contents_seq() == old(self).contents_seq()),
            old(self).spec_in_bounds(from) && old(self).spec_in_bounds(to)
                && old(self).content_at(to) is None
                && old(self).bg_at(to).spec_content_allowed() ==> (
                old(self).content_at(from) matches Some(c)
                ==> (r is Ok
                && final(self).contents_seq() == old(self).contents_seq()
                    .update(old(self).spec_index_of(from), None)
                    .update(old(self).spec_index_of(to), Some(c.with_position(to))))),
            old(self).positions_consistent() ==> final(self).positions_consistent(),
    {
        let ghost pre = *self;
        let index_from = match self.pos_to_index(from) {
            Ok(i) => i,
            Err(e) => {
                return Err(e);
            },
        };
        let index_to = match self.pos_to_index(to) {
            Ok(i) => i,
            Err(e) => {
                return Err(e);
            },
        };
        if self.contents[index_to].is_some() {
            return Err(GridError::AlreadyOccupied);
        }
        if !self.bg[index_to].is_content_allowed() {
            return Err(GridError::ForbiddenLocation);
        }
        if self.contents[index_from].is_none() {
            return Err(GridError::MissingTarget);
        }
        let slot_from = &mut self.contents[index_from];
        let taken = slot_from.take();
        let mut c = taken.unwrap();
        c.set_position(to);
        let slot_to = &mut self.contents[index_to];
        *slot_to = Some(c);
        proof {
            if pre.positions_consistent() {
                let cg = pre.content_at(from)->0;
                cg.lemma_with_position(to);
                Self::lemma_consistency_after_two_updates(
                    pre,
                    *self,
                    from,
                    None::<T>,
                    to,
                    Some(cg.with_position(to)),
                );
            }
        }
        Ok(())
    }
}

impl<T: PositionAccessor, Bg: Default + AllowContent> Grid<T, Bg> {
    /// A fresh walk over the content layer, pairing each slot with its
    /// reconstructed coordinate.
    pub fn iter_contents(&self) -> (r: MapIter<'_, Option<T>>)
        requires
            self.wf(),
        ensures
            r.wf(),
            r.cursor() == 0,
            r.slots() == self.contents_seq(),
            r.spec_length() == self.spec_length(),
            r.spec_offset() == self.spec_offset(),
    {
        MapIter::new(self.contents.as_slice(), self.length, self.offset)
    }

    /// A fresh walk over the background layer, pairing each background with
    /// its reconstructed coordinate.
    pub fn iter_bg(&self) -> (r: MapIter<'_, Bg>)
        requires
            self.wf(),
        ensures
            r.wf(),
            r.cursor() == 0,
            r.slots() == self.bg_seq(),
            r.spec_length() == self.spec_length(),
            r.spec_offset() == self.spec_offset(),
    {
        MapIter::new(self.bg.as_slice(), self.length, self.offset)
    }

    /// A fresh walk over both layers at once, pairing each cell's content
    /// slot and background with its reconstructed coordinate.
    pub fn iter(&self) -> (r: MapPairIter<'_, T, Bg>)
        requires
            self.wf(),
        ensures
            r.wf(),
            r.cursor() == 0,
            r.content_slots() == self.contents_seq(),
            r.bg_slots() == self.bg_seq(),
            r.spec_length() == self.spec_length(),
            r.spec_offset() == self.spec_offset(),
    {
        MapPairIter::new(self.contents.as_slice(), self.bg.as_slice(), self.length, self.offset)
    }

    /// After a successful creation at `p` — the content layer updated at
    /// `p`'s index with the item reassigned to `p` — the cell at `p` holds
    /// that item, its cached coordinate is `p`, and the cell's status is
    /// `Busy`; by the contract of `create_content`, a later creation at `p`
    /// therefore fails with `AlreadyOccupied` and mutates nothing.
    pub proof fn lemma_create_occupies(&self, post: Grid<T, Bg>, p: Position, item: T)
        requires
            self.wf(),
            post.wf(),
            post.same_shape(self),
            self.spec_in_bounds(p),
            post.contents_seq() == self.contents_seq().update(
                self.spec_index_of(p),
                Some(item.with_position(p)),
            ),
        ensures
            post.content_at(p) == Some(item.with_position(p)),
            (post.content_at(p)->0).spec_position() == p,
            post.spec_status_at(p) == PositionStatus::Busy,
    {
        lemma_pos_index_roundtrip(p, self.spec_length(), self.spec_offset());
        item.lemma_with_position(p);
    }

    /// After a successful extraction at `p` — the content layer updated at
    /// `p`'s index with `None` — the cell at `p` is empty and no longer
    /// reports `Busy`.
    pub proof fn lemma_extract_empties(&self, post: Grid<T, Bg>, p: Position)
        requires
            self.wf(),
            post.wf(),
            post.same_shape(self),
            self.spec_in_bounds(p),
            post.contents_seq() == self.contents_seq().update(self.spec_index_of(p), None),
        ensures
            post.content_at(p) is None,
            !(post.spec_status_at(p) is Busy),
    {
        lemma_pos_index_roundtrip(p, self.spec_length(), self.spec_offset());
    }

    /// After a successful swap of the occupants `ca` at `a` and `cb` at `b`,
    /// each occupant stands in the other's cell and caches that cell's
    /// coordinate.
    pub proof fn lemma_swap_exchanges(&self, post: Grid<T, Bg>, a: Position, b: Position, ca: T, cb: T)
        requires
            self.wf(),
            post.wf(),
            post.same_shape(self),
            self.spec_in_bounds(a),
            self.spec_in_bounds(b),
            self.content_at(a) == Some(ca),
            self.content_at(b) == Some(cb),
            post.contents_seq() == self.contents_seq().update(
                self.spec_index_of(a),
                Some(cb.with_position(a)),
            ).update(self.spec_index_of(b), Some(ca.with_position(b))),
        ensures
            post.content_at(b) == Some(ca.with_position(b)),
            (post.content_at(b)->0).spec_position() == b,
            a != b ==> post.content_at(a) == Some(cb.with_position(a)),
            a != b ==> (post.content_at(a)->0).spec_position() == a,
    {
        lemma_pos_index_roundtrip(a, self.spec_length(), self.spec_offset());
        lemma_pos_index_roundtrip(b, self.spec_length(), self.spec_offset());
        ca.lemma_with_position(b);
        cb.lemma_with_position(a);
    }

    /// After a successful move of occupant `c` from `from` to the empty cell
    /// at `to`, the source cell is empty and the destination holds `c` with
    /// its cached coordinate reassigned to `to`.
    pub proof fn lemma_move_relocates(&self, post: Grid<T, Bg>, from: Position, to: Position, c: T)
        requires
            self.wf(),
            post.wf(),
            post.same_shape(self),
            self.spec_in_bounds(from),
            self.spec_in_bounds(to),
            self.content_at(from) == Some(c),
            self.content_at(to) is None,
            post.contents_seq() == self.contents_seq().update(
                self.spec_index_of(from),
                None,
            ).update(self.spec_index_of(to), Some(c.with_position(to))),
        ensures
            post.content_at(from) is None,
            post.content_at(to) == Some(c.with_position(to)),
            (post.content_at(to)->0).spec_position() == to,
    {
        lemma_pos_index_roundtrip(from, self.spec_length(), self.spec_offset());
        lemma_pos_index_roundtrip(to, self.spec_length(), self.spec_offset());
        c.lemma_with_position(to);
    }
}

/// A full walk in storage order visits every cell exactly once: the
/// coordinates reconstructed for the `width * height` linear indices are
/// pairwise distinct, all in bounds, and every in-bounds coordinate is
/// reconstructed for exactly one index.
pub proof fn lemma_iteration_covers_grid(length: (i32, i32), offset: Position)
    requires
        0 < length.0,
        0 < length.1,
        spec_extent_fits(length, offset),
    ensures
        forall|i: int|
            0 <= i < length.0 * length.1 ==> spec_pos_in_bounds(
                #[trigger] spec_index_pos(i, length, offset),
                length,
                offset,
            ),
        forall|i: int, j: int|
            #![trigger spec_index_pos(i, length, offset), spec_index_pos(j, length, offset)]
            0 <= i < length.0 * length.1 && 0 <= j < length.0 * length.1 && i != j
                ==> spec_index_pos(i, length, offset) != spec_index_pos(j, length, offset),
        forall|p: Position|
            #[trigger] spec_pos_in_bounds(p, length, offset) ==> exists|i: int|
                0 <= i < length.0 * length.1 && #[trigger] spec_index_pos(i, length, offset) == p,
{
    assert forall|i: int|
        0 <= i < length.0 * length.1 implies spec_pos_in_bounds(
        #[trigger] spec_index_pos(i, length, offset),
        length,
        offset,
    ) by {
        lemma_index_pos_roundtrip(i, length, offset);
    }
    assert forall|i: int, j: int|
        #![trigger spec_index_pos(i, length, offset), spec_index_pos(j, length, offset)]
        0 <= i < length.0 * length.1 && 0 <= j < length.0 * length.1 && i != j
            implies spec_index_pos(i, length, offset) != spec_index_pos(j, length, offset) by {
        lemma_index_pos_roundtrip(i, length, offset);
        lemma_index_pos_roundtrip(j, length, offset);
    }
    assert forall|p: Position| #[trigger]
        spec_pos_in_bounds(p, length, offset) implies exists|i: int|
        0 <= i < length.0 * length.1 && #[trigger] spec_index_pos(i, length, offset) == p by {
        lemma_pos_index_roundtrip(p, length, offset);
        let w = spec_pos_index(p, length, offset);
        assert(0 <= w < length.0 * length.1 && spec_index_pos(w, length, offset) == p);
    }
}

} // verus!
