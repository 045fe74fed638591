use vstd::prelude::*;

verus! {

/// A lookahead buffer over a sequence of items.
///
/// The buffer hands items out in order through [`MultiPeek::next`], and lets
/// a caller walk arbitrarily far ahead with repeated [`MultiPeek::peek`]
/// calls without consuming anything: the peek cursor advances by one on each
/// `peek`, and falls back to the front of the buffer on every `next` or on an
/// explicit [`MultiPeek::reset_peek`].  Items seen by peeking are never lost
/// or reordered: `next` always returns the items of [`MultiPeek::items`] in
/// their original order.
pub struct MultiPeek<T> {
    buf: Vec<T>,
    index: usize,
}

impl<T> MultiPeek<T> {
    /// The items not yet consumed, in the order `next` will return them.
    pub closed spec fn items(&self) -> Seq<T> {
        self.buf@
    }

    /// The peek cursor: how far ahead of the consumption point the next
    /// `peek` call looks.
    pub closed spec fn peek_pos(&self) -> nat {
        self.index as nat
    }

    /// Returns the item `peek_pos` places ahead of the consumption point and
    /// advances the peek cursor, so that repeated calls walk forward through
    /// progressively farther lookahead.  Once the lookahead would run past
    /// the end, returns `None` and leaves the cursor where it is.  Never
    /// consumes: the items are unchanged.
    pub fn peek(&mut self) -> (r: Option<&T>)
        ensures
            final(self).items() == old(self).items(),
            if old(self).peek_pos() < old(self).items().len() {
                &&& r matches Some(x) && *x == old(self).items()[old(self).peek_pos() as int]
                &&& final(self).peek_pos() == old(self).peek_pos() + 1
            } else {
                &&& r is None
                &&& final(self).peek_pos() == old(self).peek_pos()
            },
    {
        if self.index < self.buf.len() {
            let r = &self.buf[self.index];
            self.index = self.index + 1;
            Some(r)
        } else {
            None
        }
    }

    /// Moves the peek cursor back to the front of the buffer without
    /// discarding anything: subsequent `peek` calls re-walk the same items.
    pub fn reset_peek(&mut self)
        ensures
            final(self).items() == old(self).items(),
            final(self).peek_pos() == 0,
    {
        self.index = 0;
    }

    /// How many items remain to be consumed — buffered-but-unconsumed
    /// lookahead included, however far the peek cursor has walked.
    pub fn len(&self) -> (r: usize)
        ensures
            r == self.items().len(),
    {
        self.buf.len()
    }

    /// Consumes and returns the front item, resetting the peek cursor.  An
    /// item that was peeked at but not yet consumed is returned here again:
    /// peeking loses nothing.
    pub fn next(&mut self) -> (r: Option<T>)
        ensures
            final(self).peek_pos() == 0,
            if old(self).items().len() > 0 {
                &&& r matches Some(x) && x == old(self).items()[0]
                &&& final(self).items() == old(self).items().drop_first()
            } else {
                &&& r is None
                &&& final(self).items() == old(self).items()
            },
    {
        self.index = 0;
        if self.buf.len() > 0 {
            let x = self.buf.remove(0);
            proof {
                assert(self.buf@ =~= old(self).buf@.drop_first());
            }
            Some(x)
        } else {
            None
        }
    }
}

/// Wraps a sequence of items in a fresh lookahead buffer whose peek cursor
/// sits at the front.
pub fn multipeek<T>(items: Vec<T>) -> (r: MultiPeek<T>)
    ensures
        r.items() == items@,
        r.peek_pos() == 0,
{
    MultiPeek { buf: items, index: 0 }
}

} // verus!
