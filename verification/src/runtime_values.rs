//! The kernel runtime's dynamic arrays (`Vec<T>` in kernels, every element
//! an `i64`) and boxed results (`Result<T, E>`: a tag and a value).
use vstd::prelude::*;

verus! {

// ---------------------------------------------------------------------------
// Dynamic arrays
// ---------------------------------------------------------------------------
/// A dynamic array of `i64`: its elements, and the capacity that the
/// runtime has reserved, which starts at 8 and doubles when full.
#[derive(Debug)]
pub struct RuntimeVec {
    pub capacity: usize,
    pub items: Vec<i64>,
}

impl RuntimeVec {
    /// At least 8 reserved elements, and no more elements than reserved.
    pub open spec fn wf(&self) -> bool {
        &&& self.capacity >= 8
        &&& self.items@.len() <= self.capacity
    }

    /// An empty array with room for 8 elements.
    pub fn new() -> (r: Self)
        ensures
            r.wf(),
            r.capacity == 8,
            r.items@ == Seq::<i64>::empty(),
    {
        RuntimeVec { capacity: 8, items: Vec::new() }
    }

    /// Appends an element, doubling the capacity first when the array is
    /// full. Gives the new length; when
    /// the doubled capacity does not fit in memory's address range nothing
    /// is appended and the length is given unchanged.
    pub fn push(&mut self, value: i64) -> (r: usize)
        requires
            old(self).wf(),
        ensures
            final(self).wf(),
            ({
                let full = old(self).items@.len() >= old(self).capacity;
                if full && old(self).capacity > usize::MAX / 2 {
                    &&& r == old(self).items@.len()
                    &&& final(self).items@ == old(self).items@
                    &&& final(self).capacity == old(self).capacity
                } else {
                    &&& r == old(self).items@.len() + 1
                    &&& final(self).items@ == old(self).items@.push(value)
                    &&& final(self).capacity == if full {
                        2 * old(self).capacity
                    } else {
                        old(self).capacity as int
                    }
                }
            }),
    {
        let length = self.items.len();
        if length >= self.capacity {
            if self.capacity > usize::MAX / 2 {
                return length;
            }
            self.capacity = self.capacity * 2;
        }
        self.items.push(value);
        length + 1
    }

    /// Removes and gives the last element, 0 when the array is empty.
    pub fn pop(&mut self) -> (r: i64)
        requires
            old(self).wf(),
        ensures
            final(self).wf(),
            final(self).capacity == old(self).capacity,
            old(self).items@.len() == 0 ==> r == 0 && final(self).items@ == old(self).items@,
            old(self).items@.len() > 0 ==> r == old(self).items@.last() && final(self).items@
                == old(self).items@.drop_last(),
    {
        match self.items.pop() {
            Some(v) => v,
            None => 0,
        }
    }

    /// The number of elements.
    pub fn len(&self) -> (r: usize)
        ensures
            r == self.items@.len(),
    {
        self.items.len()
    }

    /// The element at an index, 0 when the index is out of bounds.
    pub fn get(&self, index: i64) -> (r: i64)
        ensures
            r == if 0 <= index < self.items@.len() {
                self.items@[index as int]
            } else {
                0
            },
    {
        if index < 0 || index as u64 >= self.items.len() as u64 {
            return 0;
        }
        self.items[index as usize]
    }

    /// Replaces the element at an index.
    /// Whether the index was in bounds; out of bounds nothing changes.
    pub fn set(&mut self, index: i64, value: i64) -> (r: bool)
        requires
            old(self).wf(),
        ensures
            final(self).wf(),
            final(self).capacity == old(self).capacity,
            r == (0 <= index < old(self).items@.len()),
            r ==> final(self).items@ == old(self).items@.update(index as int, value),
            !r ==> final(self).items@ == old(self).items@,
    {
        if index < 0 || index as u64 >= self.items.len() as u64 {
            return false;
        }
        self.items.set(index as usize, value);
        true
    }

    /// Removes every element, keeping the capacity.
    pub fn clear(&mut self)
        requires
            old(self).wf(),
        ensures
            final(self).wf(),
            final(self).capacity == old(self).capacity,
            final(self).items@ == Seq::<i64>::empty(),
    {
        self.items = Vec::new();
    }
}

// ---------------------------------------------------------------------------
// Results
// ---------------------------------------------------------------------------
/// A boxed result: tag 0 for `Ok`, 1 for `Err`, and the value. A missing
/// result (a null handle) is passed as `None`.
#[derive(Debug, Clone, Copy, PartialEq, Eq, Structural)]
pub struct RuntimeResult {
    pub tag: i64,
    pub value: i64,
}

/// An `Ok` result.
pub fn result_ok(value: i64) -> (r: RuntimeResult)
    ensures
        r == (RuntimeResult { tag: 0, value }),
{
    RuntimeResult { tag: 0, value }
}

/// An `Err` result.
pub fn result_err(error: i64) -> (r: RuntimeResult)
    ensures
        r == (RuntimeResult { tag: 1, value: error }),
{
    RuntimeResult { tag: 1, value: error }
}

/// Whether a result is `Ok`; a missing one is not.
pub fn result_is_ok(res: Option<&RuntimeResult>) -> (r: bool)
    ensures
        r == (res matches Some(x) && x.tag == 0),
{
    match res {
        Some(x) => x.tag == 0,
        None => false,
    }
}

/// Whether a result is `Err`; a missing one counts as one.
pub fn result_is_err(res: Option<&RuntimeResult>) -> (r: bool)
    ensures
        r == match res {
            Some(x) => x.tag == 1,
            None => true,
        },
{
    match res {
        Some(x) => x.tag == 1,
        None => true,
    }
}

/// The value of an `Ok` result, 0 otherwise.
pub fn result_unwrap(res: Option<&RuntimeResult>) -> (r: i64)
    ensures
        r == match res {
            Some(x) => if x.tag == 0 {
                x.value
            } else {
                0
            },
            None => 0,
        },
{
    match res {
        Some(x) => if x.tag == 0 {
            x.value
        } else {
            0
        },
        None => 0,
    }
}

/// The value of an `Err` result, 0 otherwise.
pub fn result_unwrap_err(res: Option<&RuntimeResult>) -> (r: i64)
    ensures
        r == match res {
            Some(x) => if x.tag == 1 {
                x.value
            } else {
                0
            },
            None => 0,
        },
{
    match res {
        Some(x) => if x.tag == 1 {
            x.value
        } else {
            0
        },
        None => 0,
    }
}

/// The tag of a result; a missing one has the `Err` tag.
pub fn result_tag(res: Option<&RuntimeResult>) -> (r: i64)
    ensures
        r == match res {
            Some(x) => x.tag,
            None => 1,
        },
{
    match res {
        Some(x) => x.tag,
        None => 1,
    }
}

/// The value of a result, whichever its tag; 0 for a missing one.
pub fn result_value(res: Option<&RuntimeResult>) -> (r: i64)
    ensures
        r == match res {
            Some(x) => x.value,
            None => 0,
        },
{
    match res {
        Some(x) => x.value,
        None => 0,
    }
}

} // verus!
