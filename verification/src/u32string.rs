//! An owned, growable buffer of 32-bit code units.

use vstd::prelude::*;
use vstd::utf8::char_u32_cast;

use crate::codec::{utf32_decode, utf32_encode};
use crate::support::chars_to_string;

verus! {

/// An owned, mutable 32-bit wide string that is **not** nul-aware.
///
/// Contents may or may not be nul-terminated and may contain units that
/// are not valid scalar values: nothing is validated and nothing is
/// dropped, reordered, or duplicated beyond each operation's documented
/// effect. The buffer views as its sequence of 32-bit units, and accounts
/// its own capacity: the length never exceeds the capacity, and the
/// capacity only grows, except through an explicit
/// [`shrink_to_fit`](Self::shrink_to_fit).
#[derive(Clone, Debug)]
pub struct U32String {
    inner: Vec<u32>,
    cap: usize,
}

impl PartialEq for U32String {
    /// Two wide strings are equal when they hold the same units in the
    /// same order; spare capacity plays no part.
    fn eq(&self, other: &U32String) -> (r: bool) {
        let n = self.inner.len();
        if n != other.inner.len() {
            return false;
        }
        let mut i: usize = 0;
        while i < n
            invariant
                n == self@.len(),
                n == other@.len(),
                i <= n,
                forall|j: int| 0 <= j < i ==> self@[j] == other@[j],
            decreases n - i,
        {
            if self.inner[i] != other.inner[i] {
                return false;
            }
            i = i + 1;
        }
        proof {
            assert(self@ =~= other@);
        }
        true
    }
}

impl vstd::std_specs::cmp::PartialEqSpecImpl for U32String {
    open spec fn obeys_eq_spec() -> bool {
        true
    }

    open spec fn eq_spec(&self, other: &U32String) -> bool {
        self@ == other@
    }
}

impl Default for U32String {
    /// The default wide string is empty and accounts no capacity.
    fn default() -> (r: Self)
        ensures
            r@ == Seq::<u32>::empty(),
            r.spec_capacity() == 0,
            r.wf(),
    {
        U32String::new()
    }
}

impl View for U32String {
    type V = Seq<u32>;

    closed spec fn view(&self) -> Seq<u32> {
        self.inner@
    }
}

impl U32String {
    /// The capacity this buffer accounts for.
    pub closed spec fn spec_capacity(&self) -> nat {
        self.cap as nat
    }

    /// Well-formedness: the contents fit within the accounted capacity.
    pub open spec fn wf(&self) -> bool {
        self@.len() <= self.spec_capacity()
    }

    /// Constructs a new empty wide string.
    pub fn new() -> (r: Self)
        ensures
            r@ == Seq::<u32>::empty(),
            r.spec_capacity() == 0,
            r.wf(),
    {
        U32String { inner: Vec::new(), cap: 0 }
    }

    /// Constructs a wide string from a vector of units.
    ///
    /// No checks are made on the contents of the vector. It may or may not
    /// be valid character data.
    pub fn from_vec(raw: Vec<u32>) -> (r: Self)
        ensures
            r@ == raw@,
            r.spec_capacity() == raw@.len(),
            r.wf(),
    {
        let cap = raw.len();
        U32String { inner: raw, cap }
    }

    /// Constructs an empty wide string accounting for `capacity` units.
    pub fn with_capacity(capacity: usize) -> (r: Self)
        ensures
            r@ == Seq::<u32>::empty(),
            r.spec_capacity() == capacity,
            r.wf(),
    {
        U32String { inner: Vec::with_capacity(capacity), cap: capacity }
    }

    /// Returns the capacity this wide string accounts for.
    pub fn capacity(&self) -> (r: usize)
        ensures
            r == self.spec_capacity(),
    {
        self.cap
    }

    /// Returns the length of this wide string in units.
    pub fn len(&self) -> (r: usize)
        ensures
            r == self@.len(),
    {
        self.inner.len()
    }

    /// Returns whether this wide string holds no units.
    pub fn is_empty(&self) -> (r: bool)
        ensures
            r == (self@.len() == 0),
    {
        self.inner.is_empty()
    }

    /// Truncates the wide string to zero length. The capacity is retained.
    pub fn clear(&mut self)
        requires
            old(self).wf(),
        ensures
            final(self)@ == Seq::<u32>::empty(),
            final(self).spec_capacity() == old(self).spec_capacity(),
            final(self).wf(),
    {
        self.inner.clear();
    }

    /// Reserves capacity for at least `additional` more units. More space
    /// may be reserved to avoid frequent allocations.
    pub fn reserve(&mut self, additional: usize)
        requires
            old(self).wf(),
            old(self)@.len() + additional <= usize::MAX,
        ensures
            final(self)@ == old(self)@,
            final(self).spec_capacity() >= final(self)@.len() + additional,
            final(self).spec_capacity() >= old(self).spec_capacity(),
            final(self).wf(),
    {
        let needed = self.inner.len() + additional;
        if self.cap < needed {
            self.cap = needed;
        }
        self.inner.reserve(additional);
    }

    /// Reserves capacity for exactly `additional` more units, modulo
    /// allocator rounding. Does nothing if the capacity is already
    /// sufficient. Prefer [`reserve`](Self::reserve) if further
    /// insertions are expected.
    pub fn reserve_exact(&mut self, additional: usize)
        requires
            old(self).wf(),
            old(self)@.len() + additional <= usize::MAX,
        ensures
            final(self)@ == old(self)@,
            final(self).spec_capacity() >= final(self)@.len() + additional,
            final(self).spec_capacity() >= old(self).spec_capacity(),
            final(self).wf(),
    {
        let needed = self.inner.len() + additional;
        if self.cap < needed {
            self.cap = needed;
        }
        self.inner.reserve(additional);
    }

    /// Collapses the accounted capacity to the current length.
    pub fn shrink_to_fit(&mut self)
        requires
            old(self).wf(),
        ensures
            final(self)@ == old(self)@,
            final(self).spec_capacity() == final(self)@.len(),
            final(self).wf(),
    {
        crate::support::vec_shrink_to_fit(&mut self.inner);
        self.cap = self.inner.len();
    }

    /// Converts the wide string into a vector of units, consuming it.
    pub fn into_vec(self) -> (r: Vec<u32>)
        ensures
            r@ == self@,
    {
        self.inner
    }

    /// Returns a reference to the vector of units of this wide string.
    pub fn as_vec(&self) -> (r: &Vec<u32>)
        ensures
            r@ == self@,
    {
        &self.inner
    }

    /// Returns the contents of this wide string as a slice of units.
    pub fn as_slice(&self) -> (r: &[u32])
        ensures
            r@ == self@,
    {
        self.inner.as_slice()
    }

    /// Extends the wide string with the units of another.
    ///
    /// Nothing is validated: it is the caller's responsibility if a seam
    /// creates an embedded nul or other ill-formed data.
    pub fn push(&mut self, s: &U32String)
        requires
            old(self).wf(),
        ensures
            final(self)@ == old(self)@ + s@,
            final(self).spec_capacity() >= old(self).spec_capacity(),
            final(self).wf(),
    {
        self.push_slice(s.as_slice());
    }

    /// Extends the wide string with the given slice of units.
    ///
    /// Nothing is validated: it is the caller's responsibility if a seam
    /// creates an embedded nul or other ill-formed data.
    pub fn push_slice(&mut self, s: &[u32])
        requires
            old(self).wf(),
        ensures
            final(self)@ == old(self)@ + s@,
            final(self).spec_capacity() >= old(self).spec_capacity(),
            final(self).wf(),
    {
        let n = s.len();
        let mut i: usize = 0;
        while i < n
            invariant
                old(self).wf(),
                n == s@.len(),
                i <= n,
                self@ == old(self)@ + s@.take(i as int),
                self.spec_capacity() == old(self).spec_capacity(),
            decreases n - i,
        {
            let u = s[i];
            self.inner.push(u);
            i = i + 1;
            assert(old(self)@ + s@.take(i - 1) + seq![s@[i - 1]] =~= old(self)@ + s@.take(
                i as int,
            ));
        }
        assert(s@.take(n as int) =~= s@);
        self.settle_capacity();
    }

    /// Shortens this wide string to `new_len` units, dropping the tail.
    ///
    /// Has no effect if `new_len` is not below the current length, and no
    /// effect on the capacity in any case.
    pub fn truncate(&mut self, new_len: usize)
        requires
            old(self).wf(),
        ensures
            new_len <= old(self)@.len() ==> final(self)@ == old(self)@.take(new_len as int),
            new_len > old(self)@.len() ==> final(self)@ == old(self)@,
            final(self).spec_capacity() == old(self).spec_capacity(),
            final(self).wf(),
    {
        self.inner.truncate(new_len);
    }

    /// Splices a slice of units into this wide string at position `idx`,
    /// shifting the trailing units.
    pub fn insert_ustr(&mut self, idx: usize, s: &[u32])
        requires
            old(self).wf(),
            idx <= old(self)@.len(),
        ensures
            final(self)@ == old(self)@.take(idx as int) + s@ + old(self)@.skip(idx as int),
            final(self).spec_capacity() >= old(self).spec_capacity(),
            final(self).wf(),
    {
        let mut tail = self.inner.split_off(idx);
        let n = s.len();
        let mut i: usize = 0;
        while i < n
            invariant
                n == s@.len(),
                i <= n,
                self.inner@ == old(self)@.take(idx as int) + s@.take(i as int),
                self.cap == old(self).spec_capacity(),
            decreases n - i,
        {
            let u = s[i];
            self.inner.push(u);
            i = i + 1;
            assert(old(self)@.take(idx as int) + s@.take(i - 1) + seq![s@[i - 1]] =~= old(
                self,
            )@.take(idx as int) + s@.take(i as int));
        }
        assert(s@.take(n as int) =~= s@);
        self.inner.append(&mut tail);
        self.settle_capacity();
    }

    /// Splits the wide string in two at `at`: the buffer retains the units
    /// before `at` and keeps its capacity, and a newly allocated buffer
    /// holding the units from `at` onward is returned. Splitting at the
    /// length is legal and yields an empty buffer.
    pub fn split_off(&mut self, at: usize) -> (r: U32String)
        requires
            old(self).wf(),
            at <= old(self)@.len(),
        ensures
            final(self)@ == old(self)@.take(at as int),
            r@ == old(self)@.skip(at as int),
            final(self).spec_capacity() == old(self).spec_capacity(),
            final(self).wf(),
            r.wf(),
    {
        let tail = self.inner.split_off(at);
        U32String::from_vec(tail)
    }

    /// Constructs a wide string from a vector of characters, one 32-bit
    /// unit per character.
    ///
    /// Each unit takes the character's scalar value; the conversion is an
    /// explicit per-element pass, so no layout assumption is involved.
    pub fn from_chars(raw: Vec<char>) -> (r: Self)
        ensures
            r@ == utf32_encode(raw@),
            r.wf(),
    {
        let mut inner: Vec<u32> = Vec::new();
        let n = raw.len();
        let mut i: usize = 0;
        while i < n
            invariant
                n == raw@.len(),
                i <= n,
                inner@ == utf32_encode(raw@.take(i as int)),
            decreases n - i,
        {
            let c = raw[i];
            inner.push(c as u32);
            i = i + 1;
            assert(utf32_encode(raw@.take(i - 1)).push(raw@[i - 1] as u32) =~= utf32_encode(
                raw@.take(i as int),
            ));
        }
        assert(raw@.take(n as int) =~= raw@);
        U32String::from_vec(inner)
    }

    /// Encodes a wide string copy of native text, one unit per character.
    ///
    /// Native text is always well-formed, so every unit of the result is a
    /// valid scalar value.
    pub fn from_str(s: &str) -> (r: Self)
        ensures
            r@ == utf32_encode(s@),
            r.wf(),
    {
        let mut r = U32String::new();
        r.push_str(s);
        proof {
            assert(r@ =~= utf32_encode(s@));
        }
        r
    }

    /// Extends the wide string with the encoding of native text, one unit
    /// per character.
    pub fn push_str(&mut self, s: &str)
        requires
            old(self).wf(),
        ensures
            final(self)@ == old(self)@ + utf32_encode(s@),
            final(self).spec_capacity() >= old(self).spec_capacity(),
            final(self).wf(),
    {
        let chars = s.chars();
        for c in it: chars
            invariant
                it.seq() == s@,
                self@ == old(self)@ + utf32_encode(it.seq().take(it.index() as int)),
                self.spec_capacity() >= old(self).spec_capacity(),
                self.wf(),
        {
            proof {
                let i = it.index() as int;
                let t = it.seq();
                assert(utf32_encode(t.take(i + 1)) =~= utf32_encode(t.take(i)).push(t[i] as u32));
                assert(old(self)@ + utf32_encode(t.take(i)).push(t[i] as u32) =~= (old(self)@
                    + utf32_encode(t.take(i))).push(t[i] as u32));
            }
            self.push_char(c);
        }
        proof {
            assert(s@.take(s@.len() as int) =~= s@);
        }
    }

    /// Appends the given character's scalar value as one unit.
    pub fn push_char(&mut self, c: char)
        requires
            old(self).wf(),
        ensures
            final(self)@ == old(self)@.push(c as u32),
            final(self).spec_capacity() >= old(self).spec_capacity(),
            final(self).wf(),
    {
        self.inner.push(c as u32);
        self.settle_capacity();
    }

    /// Removes and returns the last unit, or `None` when the buffer is
    /// empty. No surrogate handling applies to 32-bit contents.
    pub fn pop(&mut self) -> (r: Option<u32>)
        requires
            old(self).wf(),
        ensures
            old(self)@.len() == 0 ==> r is None && final(self)@ == old(self)@,
            old(self)@.len() > 0 ==> r == Some(old(self)@.last()) && final(self)@ == old(
                self,
            )@.drop_last(),
            final(self).spec_capacity() == old(self).spec_capacity(),
            final(self).wf(),
    {
        let r = self.inner.pop();
        proof {
            if old(self)@.len() > 0 {
                assert(self.inner@ =~= old(self)@.drop_last());
            }
        }
        r
    }

    /// Removes the unit at position `idx` and returns it.
    pub fn remove(&mut self, idx: usize) -> (r: u32)
        requires
            old(self).wf(),
            idx < old(self)@.len(),
        ensures
            r == old(self)@[idx as int],
            final(self)@ == old(self)@.remove(idx as int),
            final(self).spec_capacity() == old(self).spec_capacity(),
            final(self).wf(),
    {
        self.inner.remove(idx)
    }

    /// Inserts the given character's scalar value as one unit at position
    /// `idx`, shifting the trailing units.
    pub fn insert(&mut self, idx: usize, c: char)
        requires
            old(self).wf(),
            idx <= old(self)@.len(),
        ensures
            final(self)@ == old(self)@.insert(idx as int, c as u32),
            final(self).spec_capacity() >= old(self).spec_capacity(),
            final(self).wf(),
    {
        self.inner.insert(idx, c as u32);
        self.settle_capacity();
    }

    /// Decodes the contents to native text, lossily: every unit that is
    /// not a valid scalar value is replaced with U+FFFD.
    pub fn to_string_lossy(&self) -> (r: String)
        ensures
            r@ == utf32_decode(self@),
    {
        let mut out: Vec<char> = Vec::new();
        let n = self.inner.len();
        let mut i: usize = 0;
        while i < n
            invariant
                n == self@.len(),
                i <= n,
                out@ == utf32_decode(self@.take(i as int)),
            decreases n - i,
        {
            let u = self.inner[i];
            match char::from_u32(u) {
                Some(c) => {
                    proof {
                        char_u32_cast(c, u);
                    }
                    out.push(c);
                },
                None => {
                    out.push('\u{FFFD}');
                },
            }
            i = i + 1;
            assert(out@ =~= utf32_decode(self@.take(i as int)));
        }
        proof {
            assert(self@.take(n as int) =~= self@);
        }
        chars_to_string(&out)
    }

    /// Raises the accounted capacity to the current length where growth
    /// has outrun it.
    fn settle_capacity(&mut self)
        ensures
            final(self)@ == old(self)@,
            final(self).spec_capacity() >= old(self).spec_capacity(),
            final(self).wf(),
    {
        if self.inner.len() > self.cap {
            self.cap = self.inner.len();
        }
    }
}

} // verus!
