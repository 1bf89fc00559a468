//! A linear, branch-discarding undo/redo stack.
//!
//! The stack always holds at least one item and the cursor always points at
//! a valid item. Pushing from a cursor that is not at the top discards every
//! item strictly after the cursor (the redo branch) before appending.

use vstd::prelude::*;

verus! {

/// Result of a push at the model level: the items after the cursor are
/// discarded, the new item is appended, and the cursor advances to it.
pub open spec fn push_model<T>(items: Seq<T>, cursor: int, item: T) -> (Seq<T>, int) {
    (items.take(cursor + 1).push(item), cursor + 1)
}

/// Result of an undo at the model level: the cursor moves back by one.
pub open spec fn undo_model<T>(items: Seq<T>, cursor: int) -> (Seq<T>, int) {
    (items, cursor - 1)
}

/// Result of a redo at the model level: the cursor moves forward by one.
pub open spec fn redo_model<T>(items: Seq<T>, cursor: int) -> (Seq<T>, int) {
    (items, cursor + 1)
}

#[derive(Clone, Debug)]
pub struct History<T> {
    stack: Vec<T>,
    pointer: usize,
}

impl<T: Default> Default for History<T> {
    fn default() -> (h: Self)
        ensures
            h.wf(),
            h.cursor() == 0,
            h.items().len() == 1,
            T::default.ensures((), h.items()[0]),
    {
        History::new(Default::default())
    }
}

impl<T> History<T> {
    /// The items of the stack, oldest first.
    pub closed spec fn items(&self) -> Seq<T> {
        self.stack@
    }

    /// The current position within the stack.
    pub closed spec fn cursor(&self) -> int {
        self.pointer as int
    }

    /// The stack is never empty and the cursor stays in bounds.
    pub open spec fn wf(&self) -> bool {
        0 <= self.cursor() < self.items().len()
    }

    pub fn new(initial_state: T) -> (h: Self)
        ensures
            h.wf(),
            h.items() =~= seq![initial_state],
            h.cursor() == 0,
    {
        Self { stack: vec![initial_state], pointer: 0 }
    }

    /// Replaces the whole stack with a single item at cursor 0.
    pub fn reset(&mut self, new_state: T)
        ensures
            final(self).wf(),
            final(self).items() =~= seq![new_state],
            final(self).cursor() == 0,
    {
        self.stack = vec![new_state];
        self.pointer = 0;
    }

    pub fn position(&self) -> (p: usize)
        ensures
            p == self.cursor(),
    {
        self.pointer
    }

    /// The item just before the cursor, if the cursor is not at the bottom.
    pub fn peek_prev(&self) -> (r: Option<(&T, usize)>)
        requires
            self.wf(),
        ensures
            match r {
                Some(p) => {
                    &&& self.cursor() > 0
                    &&& *p.0 == self.items()[self.cursor() - 1]
                    &&& p.1 == self.cursor() - 1
                },
                None => self.cursor() == 0,
            },
    {
        if self.pointer == 0 {
            return None;
        }
        let prev_pointer = self.pointer - 1;
        Some((&self.stack[prev_pointer], prev_pointer))
    }

    /// The item just after the cursor, if the cursor is not at the top.
    pub fn peek_next(&self) -> (r: Option<(&T, usize)>)
        requires
            self.wf(),
        ensures
            match r {
                Some(p) => {
                    &&& self.cursor() < self.items().len() - 1
                    &&& *p.0 == self.items()[self.cursor() + 1]
                    &&& p.1 == self.cursor() + 1
                },
                None => self.cursor() == self.items().len() - 1,
            },
    {
        if self.pointer >= self.stack.len() - 1 {
            return None;
        }
        let next_pointer = self.pointer + 1;
        Some((&self.stack[next_pointer], next_pointer))
    }

    /// The item at the cursor; always defined since the stack is never empty.
    pub fn peek_current(&self) -> (r: (&T, usize))
        requires
            self.wf(),
        ensures
            *r.0 == self.items()[self.cursor()],
            r.1 == self.cursor(),
    {
        (&self.stack[self.pointer], self.pointer)
    }

    /// Discards every item strictly after the cursor, appends `item`, and
    /// advances the cursor to it. Returns the new cursor position.
    pub fn push(&mut self, item: T) -> (new_position: usize)
        requires
            old(self).wf(),
        ensures
            final(self).wf(),
            final(self).items() =~= push_model(old(self).items(), old(self).cursor(), item).0,
            final(self).cursor() == push_model(old(self).items(), old(self).cursor(), item).1,
            new_position == final(self).cursor(),
    {
        if self.pointer < self.stack.len() - 1 {
            self.stack.truncate(self.pointer + 1);
        }
        self.stack.push(item);
        self.pointer += 1;
        self.pointer
    }

    /// Moves the cursor back by one and returns the item there, or `None`
    /// (leaving the stack unchanged) if the cursor is already at the bottom.
    pub fn undo(&mut self) -> (r: Option<(&T, usize)>)
        requires
            old(self).wf(),
        ensures
            final(self).wf(),
            final(self).items() == old(self).items(),
            match r {
                Some(p) => {
                    &&& old(self).cursor() > 0
                    &&& final(self).cursor() == old(self).cursor() - 1
                    &&& *p.0 == final(self).items()[final(self).cursor()]
                    &&& p.1 == final(self).cursor()
                },
                None => {
                    &&& old(self).cursor() == 0
                    &&& final(self).cursor() == old(self).cursor()
                },
            },
    {
        if self.pointer == 0 {
            return None;
        }
        self.pointer = self.pointer - 1;
        Some((&self.stack[self.pointer], self.pointer))
    }

    /// Moves the cursor forward by one and returns the item there, or `None`
    /// (leaving the stack unchanged) if the cursor is already at the top.
    pub fn redo(&mut self) -> (r: Option<(&T, usize)>)
        requires
            old(self).wf(),
        ensures
            final(self).wf(),
            final(self).items() == old(self).items(),
            match r {
                Some(p) => {
                    &&& old(self).cursor() < old(self).items().len() - 1
                    &&& final(self).cursor() == old(self).cursor() + 1
                    &&& *p.0 == final(self).items()[final(self).cursor()]
                    &&& p.1 == final(self).cursor()
                },
                None => {
                    &&& old(self).cursor() == old(self).items().len() - 1
                    &&& final(self).cursor() == old(self).cursor()
                },
            },
    {
        if self.pointer >= self.stack.len() - 1 {
            return None;
        }
        self.pointer = self.pointer + 1;
        Some((&self.stack[self.pointer], self.pointer))
    }

    pub fn len(&self) -> (n: usize)
        ensures
            n == self.items().len(),
    {
        self.stack.len()
    }
}

/// Pushing right after an undo discards the item the undo stepped back from:
/// from items at a cursor `c > 0`, undoing and then pushing `item` yields the
/// first `c` old items followed by `item`, with the cursor back at `c`.
pub proof fn lemma_push_after_undo_truncates<T>(items: Seq<T>, cursor: int, item: T)
    requires
        0 < cursor < items.len(),
    ensures
        ({
            let (u_items, u_cursor) = undo_model(items, cursor);
            let (p_items, p_cursor) = push_model(u_items, u_cursor, item);
            &&& p_items =~= items.take(cursor).push(item)
            &&& p_cursor == cursor
        }),
{
}

/// Whenever an undo succeeds (the cursor is not at the bottom), a redo is
/// then enabled, restores the pre-undo cursor, and lands on the pre-undo item.
pub proof fn lemma_undo_redo_inverse<T>(items: Seq<T>, cursor: int)
    requires
        0 < cursor < items.len(),
    ensures
        ({
            let (u_items, u_cursor) = undo_model(items, cursor);
            &&& u_cursor < u_items.len() - 1
            &&& redo_model(u_items, u_cursor) == (items, cursor)
            &&& u_items[redo_model(u_items, u_cursor).1] == items[cursor]
        }),
{
}

} // verus!
