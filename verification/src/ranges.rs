//! Descriptors that choose elements of an ordered or keyed collection.

use vstd::prelude::*;

verus! {

/// A position in a sequence, counted from the front or from the back.
///
/// `Forward(n)` is the element at offset `n` from the first one; `Backward(n)`
/// is the element at offset `n` from the last one, so `Backward(0)` is the last
/// element.
#[derive(Debug, Clone, Copy, PartialEq, Eq, Structural)]
pub enum Index {
    Forward(usize),
    Backward(usize),
}

impl Index {
    /// The forward offset that this index denotes in a sequence of `len` elements.
    ///
    /// A forward index denotes itself whatever the length; a backward index `n`
    /// denotes `len - 1 - n`, and nothing when it reaches before the first element.
    pub open spec fn spec_resolve(self, len: nat) -> Option<nat> {
        match self {
            Index::Forward(n) => Some(n as nat),
            Index::Backward(n) => if n >= len {
                None
            } else {
                Some((len - 1 - n) as nat)
            },
        }
    }

    /// The index that a signed position denotes: `-1` is the last element,
    /// `-2` the one before it, and so on.
    pub open spec fn spec_new(input: int) -> Index {
        if input < 0 {
            Index::Backward((-input - 1) as usize)
        } else {
            Index::Forward(input as usize)
        }
    }

    /// Builds an index from a signed position.
    pub fn new(input: isize) -> (r: Index)
        ensures
            r == Index::spec_new(input as int),
    {
        if input < 0 {
            Index::Backward((-(input + 1)) as usize)
        } else {
            Index::Forward(input as usize)
        }
    }

    /// Resolves the index against a sequence of `vector_length` elements.
    pub fn resolve(&self, vector_length: usize) -> (r: Option<usize>)
        ensures
            r is Some <==> self.spec_resolve(vector_length as nat) is Some,
            r matches Some(n) ==> self.spec_resolve(vector_length as nat) == Some(n as nat),
    {
        match *self {
            Index::Forward(n) => Some(n),
            Index::Backward(n) => {
                if n >= vector_length {
                    None
                } else {
                    Some(vector_length - (n + 1))
                }
            },
        }
    }
}

/// A span between two indices, with or without its last element.
#[derive(Debug, Clone, Copy, PartialEq, Eq, Structural)]
pub struct Range {
    start: Index,
    end: Index,
    inclusive: bool,
}

impl Range {
    /// The first index of the span.
    pub closed spec fn spec_start(self) -> Index {
        self.start
    }

    /// The index at which the span ends.
    pub closed spec fn spec_end(self) -> Index {
        self.end
    }

    /// Whether the element at the end index belongs to the span.
    pub closed spec fn spec_inclusive(self) -> bool {
        self.inclusive
    }

    /// The window `(start, length)` that the span denotes in a sequence of `len`
    /// elements: both ends must resolve and the end must not lie before the
    /// start. The window is `[start, start + length)`; it may reach past the end
    /// of the sequence.
    pub open spec fn spec_bounds(self, len: nat) -> Option<(nat, nat)> {
        match (self.spec_start().spec_resolve(len), self.spec_end().spec_resolve(len)) {
            (Some(start), Some(end)) => if end < start {
                None
            } else if self.spec_inclusive() {
                Some((start, (end - start + 1) as nat))
            } else {
                Some((start, (end - start) as nat))
            },
            _ => None,
        }
    }

    /// The span from the first element up to `end`, without `end`.
    pub fn to(end: Index) -> (r: Range)
        ensures
            r.spec_start() == Index::Forward(0),
            r.spec_end() == end,
            !r.spec_inclusive(),
    {
        Range { start: Index::Forward(0), end, inclusive: false }
    }

    /// The span from `start` to the last element, the last element included.
    pub fn from(start: Index) -> (r: Range)
        ensures
            r.spec_start() == start,
            r.spec_end() == Index::Backward(0),
            r.spec_inclusive(),
    {
        Range { start, end: Index::Backward(0), inclusive: true }
    }

    /// The span from `start` to `end`, `end` included.
    pub fn inclusive(start: Index, end: Index) -> (r: Range)
        ensures
            r.spec_start() == start,
            r.spec_end() == end,
            r.spec_inclusive(),
    {
        Range { start, end, inclusive: true }
    }

    /// The span from `start` to `end`, without `end`.
    pub fn exclusive(start: Index, end: Index) -> (r: Range)
        ensures
            r.spec_start() == start,
            r.spec_end() == end,
            !r.spec_inclusive(),
    {
        Range { start, end, inclusive: false }
    }

    /// Resolves the span against a sequence of `vector_length` elements.
    ///
    /// Returns the start offset and the number of elements of the window. The
    /// one length that does not fit the machine word, that of the inclusive span
    /// over every offset, is reported as `usize::MAX`.
    pub fn bounds(&self, vector_length: usize) -> (r: Option<(usize, usize)>)
        ensures
            r is Some <==> self.spec_bounds(vector_length as nat) is Some,
            r matches Some((start, length)) ==> {
                let (s, l) = self.spec_bounds(vector_length as nat)->0;
                &&& start == s
                &&& length == if l <= usize::MAX { l } else { usize::MAX as nat }
            },
    {
        let start = match self.start.resolve(vector_length) {
            Some(start) => start,
            None => return None,
        };
        let end = match self.end.resolve(vector_length) {
            Some(end) => end,
            None => return None,
        };
        if end < start {
            None
        } else if self.inclusive {
            let span: usize = end - start;
            if span == usize::MAX {
                Some((start, usize::MAX))
            } else {
                Some((start, span + 1))
            }
        } else {
            Some((start, end - start))
        }
    }
}

/// Which elements of a collection an expansion returns.
#[derive(Debug, Clone)]
pub enum Select {
    /// Every element.
    All,
    /// The one element at a position.
    Index(Index),
    /// The elements of a window.
    Range(Range),
    /// The element stored under a key.
    Key(String),
}

} // verus!
