//! Cursor and selection primitives for the editor.
use vstd::prelude::*;
use crate::types::{Position, Range};

verus! {

/// A point in the text expressed as (line, character), both zero-based.
#[derive(Debug, Clone, Copy, PartialEq, Eq, Hash, PartialOrd, Ord, Structural)]
pub struct Cursor {
    pub line: u32,
    pub character: u32,
}

/// Document order: `a` comes strictly before `b`.
pub open spec fn cursor_lt(a: Cursor, b: Cursor) -> bool {
    a.line < b.line || (a.line == b.line && a.character < b.character)
}

/// Document order: `a` comes before `b` or is `b`.
pub open spec fn cursor_le(a: Cursor, b: Cursor) -> bool {
    cursor_lt(a, b) || a == b
}

impl Cursor {
    pub fn new(line: u32, character: u32) -> (c: Self)
        ensures
            c.line == line,
            c.character == character,
    {
        Cursor { line, character }
    }

    /// Convert to an RPC [`Position`].
    pub fn to_position(self) -> (p: Position)
        ensures
            p.line == self.line,
            p.character == self.character,
    {
        Position { line: self.line, character: self.character }
    }

    /// Build from an RPC [`Position`].
    pub fn from_position(p: Position) -> (c: Self)
        ensures
            c.line == p.line,
            c.character == p.character,
    {
        Cursor { line: p.line, character: p.character }
    }

    /// `true` when `self` comes strictly before `other` in the document
    /// (earlier line, or same line with earlier column).
    pub fn is_before(&self, other: &Cursor) -> (r: bool)
        ensures
            r == cursor_lt(*self, *other),
    {
        self.line < other.line || (self.line == other.line && self.character < other.character)
    }
}

/// Document order is a strict total order on cursors.
pub proof fn lemma_cursor_order_total(a: Cursor, b: Cursor, c: Cursor)
    ensures
        !cursor_lt(a, a),
        cursor_lt(a, b) ==> !cursor_lt(b, a),
        cursor_lt(a, b) && cursor_lt(b, c) ==> cursor_lt(a, c),
        cursor_lt(a, b) || a == b || cursor_lt(b, a),
{
}

/// A selection: an `anchor` (where it started) and an `active` end (where it is now).
#[derive(Debug, Clone, Copy, PartialEq, Eq, Structural)]
pub struct Selection {
    /// The fixed end of the selection.
    pub anchor: Cursor,
    /// The moving end of the selection.
    pub active: Cursor,
}

/// The two ends of a selection in document order.
pub open spec fn spec_normalized(s: Selection) -> (Cursor, Cursor) {
    if cursor_le(s.anchor, s.active) { (s.anchor, s.active) } else { (s.active, s.anchor) }
}

impl Selection {
    /// A collapsed (empty) selection at `pos`.
    pub fn cursor(pos: Cursor) -> (s: Self)
        ensures
            s.anchor == pos,
            s.active == pos,
    {
        Selection { anchor: pos, active: pos }
    }

    /// A selection with explicit anchor and active positions.
    pub fn new(anchor: Cursor, active: Cursor) -> (s: Self)
        ensures
            s.anchor == anchor,
            s.active == active,
    {
        Selection { anchor, active }
    }

    /// `true` when the selection is empty (anchor == active).
    pub fn is_empty(&self) -> (r: bool)
        ensures
            r == (self.anchor == self.active),
    {
        self.anchor == self.active
    }

    /// `(start, end)` in document order (start <= end).
    pub fn normalized(&self) -> (r: (Cursor, Cursor))
        ensures
            r == spec_normalized(*self),
            cursor_le(r.0, r.1),
    {
        if self.anchor.is_before(&self.active) || self.anchor == self.active {
            (self.anchor, self.active)
        } else {
            (self.active, self.anchor)
        }
    }

    /// The selection as an RPC [`Range`], start before end.
    pub fn as_range(&self) -> (r: Range)
        ensures
            r.start.line == spec_normalized(*self).0.line,
            r.start.character == spec_normalized(*self).0.character,
            r.end.line == spec_normalized(*self).1.line,
            r.end.character == spec_normalized(*self).1.character,
    {
        let (start, end) = self.normalized();
        Range { start: start.to_position(), end: end.to_position() }
    }

    /// `true` when `pos` lies inside the selection or on one of its ends.
    pub fn contains(&self, pos: Cursor) -> (r: bool)
        ensures
            r == (cursor_le(spec_normalized(*self).0, pos) && cursor_le(pos, spec_normalized(*self).1)),
    {
        let (start, end) = self.normalized();
        (start.is_before(&pos) || start == pos) && (pos.is_before(&end) || pos == end)
    }
}

/// A selection contains both of its ends, whichever way round they were made.
pub proof fn lemma_selection_contains_ends(s: Selection)
    ensures
        cursor_le(spec_normalized(s).0, s.anchor) && cursor_le(s.anchor, spec_normalized(s).1),
        cursor_le(spec_normalized(s).0, s.active) && cursor_le(s.active, spec_normalized(s).1),
        spec_normalized(s) == spec_normalized(Selection { anchor: s.active, active: s.anchor }),
{
}

/// A set of selections with a designated primary selection.
pub struct SelectionSet {
    selections: Vec<Selection>,
    primary: usize,
}

impl View for SelectionSet {
    type V = (Seq<Selection>, nat);

    closed spec fn view(&self) -> (Seq<Selection>, nat) {
        (self.selections@, self.primary as nat)
    }
}

impl SelectionSet {
    /// The primary index names one of the selections.
    #[verifier::type_invariant]
    spec fn primary_in_range(&self) -> bool {
        self.primary < self.selections@.len()
    }

    /// Moves the selections and the primary index out, leaving a set that
    /// holds only `filler` in their place.
    fn take_parts(&mut self, filler: Selection) -> (r: (Vec<Selection>, usize))
        ensures
            r.0@ == old(self)@.0,
            r.1 == old(self)@.1,
            r.1 < r.0@.len(),
    {
        let mut taken = SelectionSet::new(filler);
        std::mem::swap(self, &mut taken);
        proof {
            use_type_invariant(&taken);
        }
        let SelectionSet { selections, primary } = taken;
        (selections, primary)
    }

    /// A set holding exactly `sel`, which becomes the primary.
    pub fn new(sel: Selection) -> (s: Self)
        ensures
            s@ == (seq![sel], 0nat),
    {
        SelectionSet { selections: vec![sel], primary: 0 }
    }

    /// The primary selection.
    pub fn primary(&self) -> (r: &Selection)
        ensures
            self@.1 < self@.0.len(),
            *r == self@.0[self@.1 as int],
    {
        proof {
            use_type_invariant(self);
        }
        &self.selections[self.primary]
    }

    /// All selections in the set.
    pub fn all(&self) -> (r: &[Selection])
        ensures
            r@ == self@.0,
    {
        self.selections.as_slice()
    }

    /// Adds a selection; it does not become primary.
    pub fn add(&mut self, sel: Selection)
        ensures
            final(self)@ == (old(self)@.0.push(sel), old(self)@.1),
    {
        let (mut selections, primary) = self.take_parts(sel);
        selections.push(sel);
        *self = SelectionSet { selections, primary };
    }

    /// Discards every selection but the primary, which stays primary.
    pub fn reduce_to_primary(&mut self)
        ensures
            final(self)@ == (seq![old(self)@.0[old(self)@.1 as int]], 0nat),
    {
        proof {
            use_type_invariant(&*self);
        }
        let primary_sel = self.selections[self.primary];
        *self = SelectionSet { selections: vec![primary_sel], primary: 0 };
    }

    /// Replaces the primary selection with `sel`, which stays primary.
    pub fn set_primary(&mut self, sel: Selection)
        ensures
            final(self)@ == (old(self)@.0.update(old(self)@.1 as int, sel), old(self)@.1),
    {
        let (mut selections, primary) = self.take_parts(sel);
        selections.set(primary, sel);
        *self = SelectionSet { selections, primary };
    }

    /// A mutable reference to the primary selection.
    pub fn primary_mut(&mut self) -> (r: &mut Selection)
        ensures
            *r == old(self)@.0[old(self)@.1 as int],
            final(self)@ == (old(self)@.0.update(old(self)@.1 as int, *final(r)), old(self)@.1),
    {
        proof {
            use_type_invariant(&*self);
        }
        let p = self.primary;
        &mut self.selections[p]
    }
}

} // verus!
