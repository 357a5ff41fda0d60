//! An owned, growable buffer of 16-bit code units.

use vstd::prelude::*;
use vstd::utf8::{char_is_scalar, char_u32_cast};

use crate::codec::{
    is_utf16_high_surrogate, is_utf16_low_surrogate, is_utf16_surrogate,
    lemma_utf16_encode_append, utf16_decode, utf16_encode, utf16_encode_scalar, utf16_pop_units,
    utf16_pop_value, utf16_remove_units, utf16_remove_value,
};
use crate::support::chars_to_string;

verus! {

/// An owned, mutable 16-bit wide string that is **not** nul-aware.
///
/// Contents may or may not be nul-terminated and may contain invalid and
/// ill-formed UTF-16: nothing is validated and nothing is dropped,
/// reordered, or duplicated beyond each operation's documented effect.
/// The buffer views as its sequence of 16-bit units, and accounts its own
/// capacity: the length never exceeds the capacity, and the capacity only
/// grows, except through an explicit [`shrink_to_fit`](Self::shrink_to_fit).
#[derive(Clone, Debug)]
pub struct U16String {
    inner: Vec<u16>,
    cap: usize,
}

impl PartialEq for U16String {
    /// Two wide strings are equal when they hold the same units in the
    /// same order; spare capacity plays no part.
    fn eq(&self, other: &U16String) -> (r: bool) {
        let n = self.inner.len();
        if n != other.inner.len() {
            return false;
        }
        let mut i: usize = 0;
        while i < n
            invariant
                n == self@.len(),
                n == other@.len(),
                i <= n,
                forall|j: int| 0 <= j < i ==> self@[j] == other@[j],
            decreases n - i,
        {
            if self.inner[i] != other.inner[i] {
                return false;
            }
            i = i + 1;
        }
        proof {
            assert(self@ =~= other@);
        }
        true
    }
}

impl vstd::std_specs::cmp::PartialEqSpecImpl for U16String {
    open spec fn obeys_eq_spec() -> bool {
        true
    }

    open spec fn eq_spec(&self, other: &U16String) -> bool {
        self@ == other@
    }
}

impl Default for U16String {
    /// The default wide string is empty and accounts no capacity.
    fn default() -> (r: Self)
        ensures
            r@ == Seq::<u16>::empty(),
            r.spec_capacity() == 0,
            r.wf(),
    {
        U16String::new()
    }
}

impl View for U16String {
    type V = Seq<u16>;

    closed spec fn view(&self) -> Seq<u16> {
        self.inner@
    }
}

impl U16String {
    /// The capacity this buffer accounts for.
    pub closed spec fn spec_capacity(&self) -> nat {
        self.cap as nat
    }

    /// Well-formedness: the contents fit within the accounted capacity.
    pub open spec fn wf(&self) -> bool {
        self@.len() <= self.spec_capacity()
    }

    /// Constructs a new empty wide string.
    pub fn new() -> (r: Self)
        ensures
            r@ == Seq::<u16>::empty(),
            r.spec_capacity() == 0,
            r.wf(),
    {
        U16String { inner: Vec::new(), cap: 0 }
    }

    /// Constructs a wide string from a vector of units.
    ///
    /// No checks are made on the contents of the vector. It may or may not
    /// be valid character data.
    pub fn from_vec(raw: Vec<u16>) -> (r: Self)
        ensures
            r@ == raw@,
            r.spec_capacity() == raw@.len(),
            r.wf(),
    {
        let cap = raw.len();
        U16String { inner: raw, cap }
    }

    /// Constructs an empty wide string accounting for `capacity` units.
    pub fn with_capacity(capacity: usize) -> (r: Self)
        ensures
            r@ == Seq::<u16>::empty(),
            r.spec_capacity() == capacity,
            r.wf(),
    {
        U16String { inner: Vec::with_capacity(capacity), cap: capacity }
    }

    /// Returns the capacity this wide string accounts for.
    pub fn capacity(&self) -> (r: usize)
        ensures
            r == self.spec_capacity(),
    {
        self.cap
    }

    /// Returns the length of this wide string in units.
    pub fn len(&self) -> (r: usize)
        ensures
            r == self@.len(),
    {
        self.inner.len()
    }

    /// Returns whether this wide string holds no units.
    pub fn is_empty(&self) -> (r: bool)
        ensures
            r == (self@.len() == 0),
    {
        self.inner.is_empty()
    }

    /// Truncates the wide string to zero length. The capacity is retained.
    pub fn clear(&mut self)
        requires
            old(self).wf(),
        ensures
            final(self)@ == Seq::<u16>::empty(),
            final(self).spec_capacity() == old(self).spec_capacity(),
            final(self).wf(),
    {
        self.inner.clear();
    }

    /// Reserves capacity for at least `additional` more units. More space
    /// may be reserved to avoid frequent allocations.
    pub fn reserve(&mut self, additional: usize)
        requires
            old(self).wf(),
            old(self)@.len() + additional <= usize::MAX,
        ensures
            final(self)@ == old(self)@,
            final(self).spec_capacity() >= final(self)@.len() + additional,
            final(self).spec_capacity() >= old(self).spec_capacity(),
            final(self).wf(),
    {
        let needed = self.inner.len() + additional;
        if self.cap < needed {
            self.cap = needed;
        }
        self.inner.reserve(additional);
    }

    /// Reserves capacity for exactly `additional` more units, modulo
    /// allocator rounding. Does nothing if the capacity is already
    /// sufficient. Prefer [`reserve`](Self::reserve) if further
    /// insertions are expected.
    pub fn reserve_exact(&mut self, additional: usize)
        requires
            old(self).wf(),
            old(self)@.len() + additional <= usize::MAX,
        ensures
            final(self)@ == old(self)@,
            final(self).spec_capacity() >= final(self)@.len() + additional,
            final(self).spec_capacity() >= old(self).spec_capacity(),
            final(self).wf(),
    {
        let needed = self.inner.len() + additional;
        if self.cap < needed {
            self.cap = needed;
        }
        self.inner.reserve(additional);
    }

    /// Collapses the accounted capacity to the current length.
    pub fn shrink_to_fit(&mut self)
        requires
            old(self).wf(),
        ensures
            final(self)@ == old(self)@,
            final(self).spec_capacity() == final(self)@.len(),
            final(self).wf(),
    {
        crate::support::vec_shrink_to_fit(&mut self.inner);
        self.cap = self.inner.len();
    }

    /// Converts the wide string into a vector of units, consuming it.
    pub fn into_vec(self) -> (r: Vec<u16>)
        ensures
            r@ == self@,
    {
        self.inner
    }

    /// Returns a reference to the vector of units of this wide string.
    pub fn as_vec(&self) -> (r: &Vec<u16>)
        ensures
            r@ == self@,
    {
        &self.inner
    }

    /// Returns the contents of this wide string as a slice of units.
    pub fn as_slice(&self) -> (r: &[u16])
        ensures
            r@ == self@,
    {
        self.inner.as_slice()
    }

    /// Extends the wide string with the units of another.
    ///
    /// Nothing is validated: a seam may create an embedded nul or a split
    /// surrogate pair, and that is the caller's responsibility.
    pub fn push(&mut self, s: &U16String)
        requires
            old(self).wf(),
        ensures
            final(self)@ == old(self)@ + s@,
            final(self).spec_capacity() >= old(self).spec_capacity(),
            final(self).wf(),
    {
        self.push_slice(s.as_slice());
    }

    /// Extends the wide string with the given slice of units.
    ///
    /// Nothing is validated: a seam may create an embedded nul or a split
    /// surrogate pair, and that is the caller's responsibility.
    pub fn push_slice(&mut self, s: &[u16])
        requires
            old(self).wf(),
        ensures
            final(self)@ == old(self)@ + s@,
            final(self).spec_capacity() >= old(self).spec_capacity(),
            final(self).wf(),
    {
        let n = s.len();
        let mut i: usize = 0;
        while i < n
            invariant
                old(self).wf(),
                n == s@.len(),
                i <= n,
                self@ == old(self)@ + s@.take(i as int),
                self.spec_capacity() == old(self).spec_capacity(),
            decreases n - i,
        {
            let u = s[i];
            self.inner.push(u);
            i = i + 1;
            assert(old(self)@ + s@.take(i - 1) + seq![s@[i - 1]] =~= old(self)@ + s@.take(
                i as int,
            ));
        }
        assert(s@.take(n as int) =~= s@);
        self.settle_capacity();
    }

    /// Shortens this wide string to `new_len` units, dropping the tail.
    ///
    /// Has no effect if `new_len` is not below the current length, and no
    /// effect on the capacity in any case.
    pub fn truncate(&mut self, new_len: usize)
        requires
            old(self).wf(),
        ensures
            new_len <= old(self)@.len() ==> final(self)@ == old(self)@.take(new_len as int),
            new_len > old(self)@.len() ==> final(self)@ == old(self)@,
            final(self).spec_capacity() == old(self).spec_capacity(),
            final(self).wf(),
    {
        self.inner.truncate(new_len);
    }

    /// Splices a slice of units into this wide string at position `idx`,
    /// shifting the trailing units.
    pub fn insert_ustr(&mut self, idx: usize, s: &[u16])
        requires
            old(self).wf(),
            idx <= old(self)@.len(),
        ensures
            final(self)@ == old(self)@.take(idx as int) + s@ + old(self)@.skip(idx as int),
            final(self).spec_capacity() >= old(self).spec_capacity(),
            final(self).wf(),
    {
        let mut tail = self.inner.split_off(idx);
        let n = s.len();
        let mut i: usize = 0;
        while i < n
            invariant
                n == s@.len(),
                i <= n,
                self.inner@ == old(self)@.take(idx as int) + s@.take(i as int),
                self.cap == old(self).spec_capacity(),
            decreases n - i,
        {
            let u = s[i];
            self.inner.push(u);
            i = i + 1;
            assert(old(self)@.take(idx as int) + s@.take(i - 1) + seq![s@[i - 1]] =~= old(
                self,
            )@.take(idx as int) + s@.take(i as int));
        }
        assert(s@.take(n as int) =~= s@);
        self.inner.append(&mut tail);
        self.settle_capacity();
    }

    /// Splits the wide string in two at `at`: the buffer retains the units
    /// before `at` and keeps its capacity, and a newly allocated buffer
    /// holding the units from `at` onward is returned. Splitting at the
    /// length is legal and yields an empty buffer.
    pub fn split_off(&mut self, at: usize) -> (r: U16String)
        requires
            old(self).wf(),
            at <= old(self)@.len(),
        ensures
            final(self)@ == old(self)@.take(at as int),
            r@ == old(self)@.skip(at as int),
            final(self).spec_capacity() == old(self).spec_capacity(),
            final(self).wf(),
            r.wf(),
    {
        let tail = self.inner.split_off(at);
        U16String::from_vec(tail)
    }

    /// Encodes a wide string copy of native text.
    ///
    /// Native text is always well-formed, so the result is always valid
    /// UTF-16.
    pub fn from_str(s: &str) -> (r: Self)
        ensures
            r@ == utf16_encode(s@),
            r.wf(),
    {
        let mut r = U16String::new();
        r.push_str(s);
        proof {
            assert(r@ =~= utf16_encode(s@));
        }
        r
    }

    /// Extends the wide string with the encoding of native text.
    ///
    /// The appended part is well-formed, but the seam is not checked: text
    /// appended after an unpaired high surrogate stays as it falls.
    pub fn push_str(&mut self, s: &str)
        requires
            old(self).wf(),
        ensures
            final(self)@ == old(self)@ + utf16_encode(s@),
            final(self).spec_capacity() >= old(self).spec_capacity(),
            final(self).wf(),
    {
        let chars = s.chars();
        for c in it: chars
            invariant
                it.seq() == s@,
                self@ == old(self)@ + utf16_encode(it.seq().take(it.index() as int)),
                self.spec_capacity() >= old(self).spec_capacity(),
                self.wf(),
        {
            proof {
                let i = it.index() as int;
                let t = it.seq();
                assert(t.take(i + 1) =~= t.take(i) + seq![t[i]]);
                lemma_utf16_encode_append(t.take(i), seq![t[i]]);
                assert(seq![t[i]].drop_first() =~= Seq::<char>::empty());
                assert(utf16_encode(seq![t[i]]) == utf16_encode_scalar(seq![t[i]][0] as u32)
                    + utf16_encode(Seq::<char>::empty()));
                assert(utf16_encode(seq![t[i]]) =~= utf16_encode_scalar(t[i] as u32));
            }
            self.push_char(c);
        }
        proof {
            assert(s@.take(s@.len() as int) =~= s@);
        }
    }

    /// Appends one character's 1- or 2-unit UTF-16 encoding.
    pub fn push_char(&mut self, c: char)
        requires
            old(self).wf(),
        ensures
            final(self)@ == old(self)@ + utf16_encode_scalar(c as u32),
            final(self).spec_capacity() >= old(self).spec_capacity(),
            final(self).wf(),
    {
        let v = c as u32;
        if v < 0x10000 {
            self.inner.push(v as u16);
            proof {
                assert(self.inner@ =~= old(self)@ + utf16_encode_scalar(c as u32));
            }
        } else {
            proof {
                char_is_scalar(c);
                assert(0 <= (v - 0x10000) / 0x400 < 0x400 && 0 <= (v - 0x10000) % 0x400
                    < 0x400) by (nonlinear_arith)
                    requires
                        0x10000 <= v <= 0x10FFFF,
                ;
            }
            let rest = v - 0x10000;
            let high: u16 = 0xD800u16 + (rest / 0x400) as u16;
            let low: u16 = 0xDC00u16 + (rest % 0x400) as u16;
            self.inner.push(high);
            self.inner.push(low);
            proof {
                assert(self.inner@ =~= old(self)@ + utf16_encode_scalar(c as u32));
            }
        }
        self.settle_capacity();
    }

    /// Removes and returns the last character or unpaired surrogate.
    ///
    /// Returns `None` when the buffer is empty. A trailing well-formed
    /// surrogate pair is popped whole and returned combined; any other
    /// trailing unit — an unpaired surrogate included — is popped alone
    /// and returned as its raw value. Tolerating unpaired surrogates is
    /// deliberate: they are data here, not errors.
    pub fn pop(&mut self) -> (r: Option<u32>)
        requires
            old(self).wf(),
        ensures
            old(self)@.len() == 0 ==> r is None && final(self)@ == old(self)@,
            old(self)@.len() > 0 ==> {
                &&& r == Some(utf16_pop_value(old(self)@))
                &&& final(self)@ == old(self)@.take(
                    old(self)@.len() - utf16_pop_units(old(self)@),
                )
            },
            final(self).spec_capacity() == old(self).spec_capacity(),
            final(self).wf(),
    {
        match self.inner.pop() {
            None => None,
            Some(low) => {
                if !is_utf16_low_surrogate(low) || self.inner.is_empty() {
                    proof {
                        assert(self.inner@ =~= old(self)@.take(old(self)@.len() - 1));
                    }
                    Some(low as u32)
                } else {
                    let high = self.inner[self.inner.len() - 1];
                    if is_utf16_high_surrogate(high) {
                        self.inner.pop();
                        proof {
                            assert(self.inner@ =~= old(self)@.take(old(self)@.len() - 2));
                        }
                        Some(0x10000u32 + ((high - 0xD800) as u32) * 0x400 + ((low
                            - 0xDC00) as u32))
                    } else {
                        proof {
                            assert(self.inner@ =~= old(self)@.take(old(self)@.len() - 1));
                        }
                        Some(low as u32)
                    }
                }
            },
        }
    }

    /// Removes a character or unpaired surrogate at position `idx` and
    /// returns its value.
    ///
    /// When `idx` addresses a high surrogate validly paired with the next
    /// unit, both units leave and the combined scalar is returned; any
    /// other unit leaves alone and is returned raw.
    pub fn remove(&mut self, idx: usize) -> (r: u32)
        requires
            old(self).wf(),
            idx < old(self)@.len(),
        ensures
            r == utf16_remove_value(old(self)@, idx as int),
            final(self)@ == old(self)@.take(idx as int) + old(self)@.skip(
                idx as int + utf16_remove_units(old(self)@, idx as int),
            ),
            final(self).spec_capacity() == old(self).spec_capacity(),
            final(self).wf(),
    {
        let u = self.inner[idx];
        if is_utf16_high_surrogate(u) && idx + 1 < self.inner.len() {
            let next = self.inner[idx + 1];
            if is_utf16_low_surrogate(next) {
                self.inner.remove(idx);
                self.inner.remove(idx);
                proof {
                    assert(self.inner@ =~= old(self)@.take(idx as int) + old(self)@.skip(
                        idx as int + 2,
                    ));
                }
                return 0x10000u32 + ((u - 0xD800) as u32) * 0x400 + ((next - 0xDC00) as u32);
            }
        }
        self.inner.remove(idx);
        proof {
            assert(self.inner@ =~= old(self)@.take(idx as int) + old(self)@.skip(idx as int + 1));
        }
        u as u32
    }

    /// Inserts one character's 1- or 2-unit UTF-16 encoding at position
    /// `idx`, shifting the trailing units.
    pub fn insert(&mut self, idx: usize, c: char)
        requires
            old(self).wf(),
            idx <= old(self)@.len(),
        ensures
            final(self)@ == old(self)@.take(idx as int) + utf16_encode_scalar(c as u32) + old(
                self,
            )@.skip(idx as int),
            final(self).spec_capacity() >= old(self).spec_capacity(),
            final(self).wf(),
    {
        let v = c as u32;
        if v < 0x10000 {
            self.inner.insert(idx, v as u16);
            proof {
                assert(self.inner@ =~= old(self)@.take(idx as int) + utf16_encode_scalar(
                    c as u32,
                ) + old(self)@.skip(idx as int));
            }
        } else {
            proof {
                char_is_scalar(c);
                assert(0 <= (v - 0x10000) / 0x400 < 0x400 && 0 <= (v - 0x10000) % 0x400
                    < 0x400) by (nonlinear_arith)
                    requires
                        0x10000 <= v <= 0x10FFFF,
                ;
            }
            let rest = v - 0x10000;
            let high: u16 = 0xD800u16 + (rest / 0x400) as u16;
            let low: u16 = 0xDC00u16 + (rest % 0x400) as u16;
            self.inner.insert(idx, high);
            let n = self.inner.len();
            assert(idx < n);
            self.inner.insert(idx + 1, low);
            proof {
                assert(self.inner@ =~= old(self)@.take(idx as int) + utf16_encode_scalar(
                    c as u32,
                ) + old(self)@.skip(idx as int));
            }
        }
        self.settle_capacity();
    }

    /// Decodes the contents to native text, lossily: a well-placed
    /// surrogate pair decodes to its scalar, and every unpaired surrogate
    /// is replaced with U+FFFD.
    pub fn to_string_lossy(&self) -> (r: String)
        ensures
            r@ == utf16_decode(self@),
    {
        let mut out: Vec<char> = Vec::new();
        let n = self.inner.len();
        let mut i: usize = 0;
        proof {
            assert(self@.skip(0) =~= self@);
            assert(out@ + utf16_decode(self@) =~= utf16_decode(self@));
        }
        while i < n
            invariant
                n == self@.len(),
                i <= n,
                utf16_decode(self@) == out@ + utf16_decode(self@.skip(i as int)),
            decreases n - i,
        {
            let ghost tail = self@.skip(i as int);
            let u = self.inner[i];
            assert(tail[0] == self@[i as int]);
            if !is_utf16_surrogate(u) {
                let c = char::from_u32(u as u32).unwrap();
                out.push(c);
                i = i + 1;
                proof {
                    char_u32_cast(c, u as u32);
                    assert(tail.drop_first() =~= self@.skip(i as int));
                    assert(out@ + utf16_decode(self@.skip(i as int)) =~= out@.drop_last()
                        + utf16_decode(tail));
                }
            } else if is_utf16_high_surrogate(u) && i + 1 < n {
                let next = self.inner[i + 1];
                if is_utf16_low_surrogate(next) {
                    assert(tail[1] == self@[i as int + 1]);
                    let v = 0x10000u32 + ((u - 0xD800) as u32) * 0x400 + ((next - 0xDC00) as u32);
                    let c = char::from_u32(v).unwrap();
                    out.push(c);
                    i = i + 2;
                    proof {
                        char_u32_cast(c, v);
                        assert(tail.skip(2) =~= self@.skip(i as int));
                        assert(out@ + utf16_decode(self@.skip(i as int)) =~= out@.drop_last()
                            + utf16_decode(tail));
                    }
                } else {
                    out.push('\u{FFFD}');
                    i = i + 1;
                    proof {
                        assert(tail.drop_first() =~= self@.skip(i as int));
                        assert(out@ + utf16_decode(self@.skip(i as int)) =~= out@.drop_last()
                            + utf16_decode(tail));
                    }
                }
            } else {
                out.push('\u{FFFD}');
                i = i + 1;
                proof {
                    assert(tail.drop_first() =~= self@.skip(i as int));
                    assert(out@ + utf16_decode(self@.skip(i as int)) =~= out@.drop_last()
                        + utf16_decode(tail));
                }
            }
        }
        proof {
            assert(self@.skip(n as int) =~= Seq::<u16>::empty());
            assert(out@ + utf16_decode(self@.skip(n as int)) =~= out@);
        }
        chars_to_string(&out)
    }

    /// Raises the accounted capacity to the current length where growth
    /// has outrun it.
    fn settle_capacity(&mut self)
        ensures
            final(self)@ == old(self)@,
            final(self).spec_capacity() >= old(self).spec_capacity(),
            final(self).wf(),
    {
        if self.inner.len() > self.cap {
            self.cap = self.inner.len();
        }
    }
}

} // verus!
