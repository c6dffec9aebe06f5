//! A declared sequence of objects, and where the workload is in it.
//!
//! The mechanism by which a transformer hands an operating system its own
//! future: a stream is that order, written down, and it is what writes an
//! object's next use.
//!
//! A stream is cyclic, because a decode loop is: every token reads the
//! same objects in the same order, so what gets declared is one period and
//! the cursor runs on past the end of it. `NextUse::At` holds a POSITION
//! rather than a distance, which is what makes [`Stream::advance`] a
//! single addition: a position does not move when the cursor does.

use vstd::prelude::*;

use crate::abi::{Error, ObjectId};
use crate::objtab::NextUse;

verus! {

/// How many objects one period of a stream may declare.
pub const PERIOD: usize = 256;

/// The first index of `id` in `s`, or -1.
pub open spec fn first_index(s: Seq<ObjectId>, id: ObjectId, from: int) -> int
    decreases s.len() - from,
{
    if from < 0 || from >= s.len() {
        -1
    } else if s[from] == id {
        from
    } else {
        first_index(s, id, from + 1)
    }
}

/// How far past `cursor` the next use of the object at `offset` of a
/// period of `period` is: between one and a whole period.
pub open spec fn spec_ahead(period: int, offset: int, cursor: int) -> int {
    let first = (offset + period - cursor % period) % period;
    if first == 0 {
        period
    } else {
        first
    }
}

/// A declared sequence, and how far through it the workload is.
pub struct Stream {
    declared: Vec<ObjectId>,
    cursor: u32,
}

impl Stream {
    /// A declaration never holds more than a period.
    #[verifier::type_invariant]
    spec fn fits(&self) -> bool {
        self.declared@.len() <= PERIOD
    }

    /// The declared period.
    pub closed spec fn declared(&self) -> Seq<ObjectId> {
        self.declared@
    }

    /// Where the stream has got to.
    pub closed spec fn spec_cursor(&self) -> u32 {
        self.cursor
    }

    /// Where `id` is next wanted, as a position, if it is declared.
    pub open spec fn spec_next_position(&self, id: ObjectId) -> Option<int> {
        let offset = first_index(self.declared(), id, 0);
        if offset < 0 {
            None
        } else {
            Some(self.spec_cursor() + spec_ahead(self.declared().len() as int, offset, self.spec_cursor() as int))
        }
    }

    /// Nothing declared. Every object reads as `Never`.
    pub fn empty() -> (s: Stream)
        ensures
            s.declared() == Seq::<ObjectId>::empty(),
            s.spec_cursor() == 0,
    {
        Stream { declared: Vec::new(), cursor: 0 }
    }

    /// This session will acquire these, in this order, repeatedly.
    ///
    /// Replaces whatever was declared before, and resets the cursor: a new
    /// declaration is a new workload. A declaration longer than a period
    /// is refused rather than truncated, and changes nothing.
    pub fn declare(&mut self, objects: &[ObjectId]) -> (r: Result<(), Error>)
        ensures
            r is Ok <==> objects@.len() <= PERIOD,
            r matches Err(e) ==> e == Error::NoBudget && final(self).declared() == old(self).declared()
                && final(self).spec_cursor() == old(self).spec_cursor(),
            r is Ok ==> final(self).declared() == objects@ && final(self).spec_cursor() == 0,
    {
        if objects.len() > PERIOD {
            return Err(Error::NoBudget);
        }
        let mut declared: Vec<ObjectId> = Vec::new();
        let mut k: usize = 0;
        while k < objects.len()
            invariant
                k <= objects@.len(),
                declared@ == objects@.take(k as int),
            decreases objects@.len() - k,
        {
            declared.push(objects[k]);
            k += 1;
            assert(declared@ =~= objects@.take(k as int));
        }
        assert(objects@.take(k as int) =~= objects@);
        self.declared = declared;
        self.cursor = 0;
        Ok(())
    }

    /// The workload has moved on by `steps`.
    ///
    /// One addition, whatever the table holds; it stops at the largest
    /// position rather than wrapping round.
    pub fn advance(&mut self, steps: u32)
        ensures
            final(self).declared() == old(self).declared(),
            final(self).spec_cursor() == old(self).spec_cursor().saturating_add(steps),
    {
        proof {
            use_type_invariant(&*self);
        }
        self.cursor = self.cursor.saturating_add(steps);
    }

    /// Where the stream has got to.
    pub fn cursor(&self) -> (c: u32)
        ensures
            c == self.spec_cursor(),
    {
        self.cursor
    }

    /// When `id` is next wanted, as a position in this stream.
    ///
    /// Strictly after the cursor, because this is asked while the object
    /// is being acquired: the object sitting exactly on the cursor is
    /// wanted a whole period later, not now. `Never` for an object the
    /// stream does not mention: nothing has declared a future for it.
    pub fn next_after(&self, id: ObjectId) -> (next: NextUse)
        requires
            self.spec_next_position(id) matches Some(p) ==> p <= u32::MAX,
        ensures
            next == (match self.spec_next_position(id) {
                None => NextUse::Never,
                Some(p) => NextUse::At(p as u32),
            }),
    {
        proof {
            use_type_invariant(self);
        }
        let ghost s = self.declared@;
        let mut offset: usize = 0;
        while offset < self.declared.len() && self.declared[offset].0 != id.0
            invariant
                offset <= s.len(),
                s == self.declared@,
                first_index(s, id, 0) == first_index(s, id, offset as int),
                s.len() <= PERIOD,
            decreases s.len() - offset,
        {
            offset += 1;
        }
        if offset == self.declared.len() {
            return NextUse::Never;
        }
        assert(first_index(s, id, offset as int) == offset);
        let period = self.declared.len() as u32;
        let ahead = match (offset as u32 + period - self.cursor % period) % period {
            0 => period,
            first => first,
        };
        NextUse::At(self.cursor + ahead)
    }
}

/// The position a stream names for an object is after the cursor, at most
/// a whole period after it, and lands on that object's place in the
/// declared period.
pub proof fn law_next_position_lands_on_the_object(s: &Stream, id: ObjectId)
    ensures
        s.spec_next_position(id) matches Some(p) ==> s.spec_cursor() < p <= s.spec_cursor() + s.declared().len()
            && p % (s.declared().len() as int) == first_index(s.declared(), id, 0) && s.declared()[p
            % (s.declared().len() as int)] == id,
        s.spec_next_position(id) is None ==> forall|k: int| 0 <= k < s.declared().len() ==> s.declared()[k] != id,
{
    lemma_first_index(s.declared(), id, 0);
    let offset = first_index(s.declared(), id, 0);
    if offset >= 0 {
        let n = s.declared().len() as int;
        let c = s.spec_cursor() as int;
        lemma_ahead_lands(n, offset, c);
    }
}

/// Advancing by a whole period moves every answer on by exactly that
/// period: the stream keeps cycling.
pub proof fn law_a_whole_period_later(before: &Stream, after: &Stream, id: ObjectId)
    requires
        after.declared() == before.declared(),
        before.declared().len() > 0,
        after.spec_cursor() == before.spec_cursor() + before.declared().len(),
    ensures
        before.spec_next_position(id) matches Some(p) ==> after.spec_next_position(id) == Some(p + before.declared().len()),
        before.spec_next_position(id) is None ==> after.spec_next_position(id) is None,
{
    let n = before.declared().len() as int;
    let c = before.spec_cursor() as int;
    assert((c + n) % n == c % n) by {
        vstd::arithmetic::div_mod::lemma_mod_add_multiples_vanish(c, n);
    }
}

/// `first_index` finds the first place `id` is, or says it is nowhere.
pub proof fn lemma_first_index(s: Seq<ObjectId>, id: ObjectId, from: int)
    requires
        0 <= from,
    ensures
        first_index(s, id, from) == -1 || (from <= first_index(s, id, from) < s.len() && s[first_index(s, id, from)] == id),
        first_index(s, id, from) == -1 ==> forall|j: int| from <= j < s.len() ==> s[j] != id,
    decreases s.len() - from,
{
    if from < s.len() && s[from] != id {
        lemma_first_index(s, id, from + 1);
    }
}

/// The arithmetic of `spec_ahead`: one to a whole period on, landing on
/// the offset modulo the period.
proof fn lemma_ahead_lands(n: int, offset: int, c: int)
    requires
        0 <= offset < n,
        0 <= c,
    ensures
        1 <= spec_ahead(n, offset, c) <= n,
        (c + spec_ahead(n, offset, c)) % n == offset,
{
    let r = c % n;
    let first = (offset + n - r) % n;
    vstd::arithmetic::div_mod::lemma_fundamental_div_mod(c, n);
    vstd::arithmetic::div_mod::lemma_mod_bound(c, n);
    vstd::arithmetic::div_mod::lemma_mod_bound(offset + n - r, n);
    let a = if first == 0 { n } else { first };
    // c + a = (c - r) + (r + a), and c - r is a multiple of n.
    let q = c / n;
    assert(c == n * q + r);
    if offset + n - r < n {
        vstd::arithmetic::div_mod::lemma_small_mod((offset + n - r) as nat, n as nat);
        assert(first == offset + n - r);
    } else {
        vstd::arithmetic::div_mod::lemma_mod_sub_multiples_vanish(offset + n - r, n);
        vstd::arithmetic::div_mod::lemma_small_mod((offset - r) as nat, n as nat);
        assert(first == offset - r);
    }
    assert(r + a == offset || r + a == offset + n);
    vstd::arithmetic::div_mod::lemma_mod_multiples_vanish(q, r + a, n);
    assert(c + a == n * q + (r + a));
    if r + a == offset {
        vstd::arithmetic::div_mod::lemma_small_mod(offset as nat, n as nat);
    } else {
        vstd::arithmetic::div_mod::lemma_mod_add_multiples_vanish(offset, n);
        vstd::arithmetic::div_mod::lemma_small_mod(offset as nat, n as nat);
    }
}

} // verus!
