use vstd::arithmetic::power2::{lemma2_to64, lemma_pow2_pos, lemma_pow2_strictly_increases, lemma_pow2_unfold, pow2};
use vstd::prelude::*;
use vstd::string::StringSliceAdditionalSpecFns;
use vstd::utf8::{decode_utf8, encode_utf8_decode_utf8, encode_utf8_valid_utf8, valid_utf8, valid_utf8_concat};

verus! {

/// Logical capacity of a buffer made by [`Buffer::new`].
pub const DEFAULT_BUFFER_SIZE: usize = 8 * 1024;

/// Ceiling on a buffer's logical capacity and on the storage it grows to.
pub const MAX_BUFFER_SIZE: usize = 1024 * 1024;

/// The first of `p`, `2p`, `4p`, ... that is at least `n`.
pub open spec fn pow2_reaching(p: nat, n: nat) -> nat
    decreases (if p < n { n - p } else { 0 }),
    when p > 0
{
    if p >= n {
        p
    } else {
        pow2_reaching(2 * p, n)
    }
}

/// The least power of two that is at least `n` (one for zero).
pub open spec fn next_pow2(n: nat) -> nat {
    pow2_reaching(1, n)
}

proof fn lemma_pow2_reaching_at_least(p: nat, n: nat)
    requires
        p > 0,
    ensures
        pow2_reaching(p, n) >= n,
        pow2_reaching(p, n) >= p,
    decreases (if p < n { n - p } else { 0 }),
{
    if p < n {
        lemma_pow2_reaching_at_least(2 * p, n);
    }
}

proof fn lemma_pow2_reaching_bounded(k: nat, n: nat)
    requires
        k <= 20,
        n <= pow2(20),
    ensures
        pow2_reaching(pow2(k), n) <= pow2(20),
    decreases 20 - k,
{
    lemma_pow2_unfold(k + 1);
    lemma_pow2_pos(k);
    if pow2(k) < n {
        if k == 20 {
        } else {
            lemma_pow2_reaching_bounded(k + 1, n);
        }
    } else {
        if k < 20 {
            lemma_pow2_strictly_increases(k, 20);
        }
    }
}

/// The next power of two stays within the ceiling exactly when its argument does.
pub proof fn lemma_next_pow2_within_max(n: nat)
    ensures
        next_pow2(n) <= MAX_BUFFER_SIZE <==> n <= MAX_BUFFER_SIZE,
        next_pow2(n) >= n,
{
    lemma_pow2_reaching_at_least(1, n);
    lemma2_to64();
    if n <= MAX_BUFFER_SIZE {
        lemma_pow2_reaching_bounded(0, n);
    }
}

/// The least power of two that is at least `n`.
fn next_power_of_two(n: usize) -> (r: usize)
    requires
        n <= MAX_BUFFER_SIZE,
    ensures
        r == next_pow2(n as nat),
{
    let mut p: usize = 1;
    while p < n
        invariant
            0 < p <= 2 * MAX_BUFFER_SIZE,
            n <= MAX_BUFFER_SIZE,
            pow2_reaching(p as nat, n as nat) == next_pow2(n as nat),
        decreases 2 * MAX_BUFFER_SIZE - p,
    {
        p = p * 2;
    }
    p
}

/// What a buffer holds, as its users see it.
pub struct BufferState {
    /// The text written since the last reset, as UTF-8 bytes.
    pub bytes: Seq<u8>,
    /// The logical capacity.
    pub capacity: nat,
    /// The physical length of the storage.
    pub storage_len: nat,
}

impl BufferState {
    /// The invariant that every buffer keeps.
    pub open spec fn valid(self) -> bool {
        &&& self.bytes.len() <= self.capacity <= MAX_BUFFER_SIZE
        &&& self.bytes.len() <= self.storage_len <= self.capacity
        &&& valid_utf8(self.bytes)
    }

    /// The write cursor: how many bytes are in use.
    pub open spec fn pos(self) -> nat {
        self.bytes.len()
    }

    /// Whether `additional` more bytes fit under the logical capacity.
    pub open spec fn has_room(self, additional: nat) -> bool {
        self.pos() + additional <= self.capacity
    }

    /// Whether growing for `required` more bytes stays within the ceiling.
    pub open spec fn can_grow(self, required: nat) -> bool {
        next_pow2(self.pos() + required) <= MAX_BUFFER_SIZE
    }

    /// The state after a successful growth for `required` more bytes: capacity
    /// and storage reach the next power of two of the bytes then needed.
    pub open spec fn grown(self, required: nat) -> BufferState {
        let target = next_pow2(self.pos() + required);
        BufferState {
            bytes: self.bytes,
            capacity: if self.capacity >= target { self.capacity } else { target },
            storage_len: if self.storage_len >= target { self.storage_len } else { target },
        }
    }

    /// Whether a write of `len` bytes succeeds: it fits, or growth succeeds.
    pub open spec fn accepts(self, len: nat) -> bool {
        self.has_room(len) || self.can_grow(len)
    }

    /// The state after a successful write of `data`.
    pub open spec fn appended(self, data: Seq<u8>) -> BufferState {
        let base = if self.has_room(data.len()) { self } else { self.grown(data.len()) };
        let end = self.pos() + data.len();
        BufferState {
            bytes: self.bytes + data,
            capacity: base.capacity,
            storage_len: if base.storage_len >= end { base.storage_len } else { end },
        }
    }

    /// The state after a reset: nothing in use, capacity and storage kept.
    pub open spec fn cleared(self) -> BufferState {
        BufferState { bytes: Seq::empty(), capacity: self.capacity, storage_len: self.storage_len }
    }
}

/// Writing one byte more than the capacity of a fresh buffer needs exactly
/// one growth, to the next power of two of that length, and succeeds when that
/// stays within the ceiling; the cursor then stands at the length written.
/// Otherwise the write fails and the buffer is unchanged.
pub proof fn lemma_growth_boundary(capacity: nat, data: Seq<u8>)
    requires
        capacity <= MAX_BUFFER_SIZE,
        data.len() == capacity + 1,
    ensures
        ({
            let fresh = BufferState { bytes: Seq::empty(), capacity, storage_len: 0 };
            let target = next_pow2(capacity + 1);
            &&& !fresh.has_room(data.len())
            &&& fresh.accepts(data.len()) <==> target <= MAX_BUFFER_SIZE
            &&& target <= MAX_BUFFER_SIZE ==> {
                &&& fresh.grown(data.len()).has_room(data.len())
                &&& fresh.appended(data) == (BufferState {
                    bytes: data,
                    capacity: target,
                    storage_len: target,
                })
                &&& fresh.appended(data).pos() == capacity + 1
            }
        }),
{
    let fresh = BufferState { bytes: Seq::empty(), capacity, storage_len: 0 };
    lemma_next_pow2_within_max(capacity + 1);
    assert(fresh.bytes + data =~= data);
}

/// A reset of an empty buffer changes nothing. After writes, a reset empties
/// the buffer and keeps its capacity and storage, and a later write no longer
/// than that storage reuses it without growing it.
pub proof fn lemma_reset_reuses_storage(st: BufferState, data: Seq<u8>)
    requires
        st.valid(),
    ensures
        st.pos() == 0 ==> st.cleared() == st,
        st.cleared().pos() == 0,
        st.cleared().capacity == st.capacity,
        st.cleared().storage_len == st.storage_len,
        data.len() <= st.storage_len ==> {
            &&& st.cleared().accepts(data.len())
            &&& st.cleared().appended(data).storage_len == st.storage_len
        },
{
    if st.pos() == 0 {
        assert(st.bytes =~= Seq::<u8>::empty());
    }
}

/// The ways a write into a buffer can fail.
#[derive(Debug, Clone, Copy, PartialEq, Eq, Structural)]
pub enum WriteError {
    /// The text does not fit and the buffer cannot grow far enough.
    OutOfSpace,
}

/// A byte sink for text with a logical capacity that grows by powers of two
/// up to [`MAX_BUFFER_SIZE`].
///
/// A write either appends all of its text or changes nothing.
pub struct Buffer {
    storage: Vec<u8>,
    pos: usize,
    capacity: usize,
}

impl View for Buffer {
    type V = BufferState;

    closed spec fn view(&self) -> BufferState {
        BufferState {
            bytes: self.storage@.subrange(0, self.pos as int),
            capacity: self.capacity as nat,
            storage_len: self.storage@.len(),
        }
    }
}

impl Buffer {
    /// Well-formedness: the view is valid.
    pub closed spec fn wf(&self) -> bool {
        &&& self.pos <= self.storage@.len()
        &&& self@.valid()
    }

    /// Creates an empty buffer with the given logical capacity.
    pub fn with_capacity(capacity: usize) -> (r: Self)
        requires
            capacity <= MAX_BUFFER_SIZE,
        ensures
            r.wf(),
            r@ == (BufferState { bytes: Seq::empty(), capacity: capacity as nat, storage_len: 0 }),
    {
        let r = Buffer { storage: Vec::new(), pos: 0, capacity };
        proof {
            assert(r@.bytes =~= Seq::<u8>::empty());
            encode_utf8_valid_utf8(Seq::<char>::empty());
            assert(vstd::utf8::encode_utf8(Seq::<char>::empty()) =~= Seq::<u8>::empty());
        }
        r
    }

    /// Creates an empty buffer with capacity [`DEFAULT_BUFFER_SIZE`].
    pub fn new() -> (r: Self)
        ensures
            r.wf(),
            r@ == (BufferState {
                bytes: Seq::empty(),
                capacity: DEFAULT_BUFFER_SIZE as nat,
                storage_len: 0,
            }),
    {
        Buffer::with_capacity(DEFAULT_BUFFER_SIZE)
    }

    /// Whether `additional` more bytes fit under the logical capacity.
    pub fn has_capacity(&self, additional: usize) -> (r: bool)
        requires
            self.wf(),
        ensures
            r == self@.has_room(additional as nat),
    {
        additional <= self.capacity - self.pos
    }

    /// Grows capacity and storage to the next power of two of the bytes in use
    /// plus `required`, if that stays within [`MAX_BUFFER_SIZE`].
    ///
    /// Returns `false`, and changes nothing, when it would not.
    pub fn try_grow(&mut self, required: usize) -> (r: bool)
        requires
            old(self).wf(),
        ensures
            final(self).wf(),
            r == old(self)@.can_grow(required as nat),
            final(self)@ == (if r { old(self)@.grown(required as nat) } else { old(self)@ }),
    {
        proof {
            lemma_next_pow2_within_max((self.pos + required) as nat);
        }
        if required > MAX_BUFFER_SIZE - self.pos {
            return false;
        }
        let target = next_power_of_two(self.pos + required);
        if target > self.capacity {
            self.capacity = target;
        }
        if self.storage.len() < target {
            let ghost before = self.storage@;
            self.storage.resize(target, 0u8);
            proof {
                assert(self.storage@.subrange(0, self.pos as int)
                    =~= before.subrange(0, self.pos as int));
            }
        }
        true
    }

    /// Appends the bytes of `s`, growing first if they do not fit.
    ///
    /// Fails with [`WriteError::OutOfSpace`], and changes nothing, when the
    /// buffer cannot grow far enough.
    pub fn write_str(&mut self, s: &str) -> (r: Result<(), WriteError>)
        requires
            old(self).wf(),
        ensures
            final(self).wf(),
            r is Ok <==> old(self)@.accepts(s.spec_bytes().len()),
            r is Ok ==> final(self)@ == old(self)@.appended(s.spec_bytes()),
            r is Err ==> final(self)@ == old(self)@,
    {
        let bytes = s.as_bytes();
        let len = bytes.len();
        proof {
            lemma_next_pow2_within_max((self.pos + len) as nat);
        }
        if !self.has_capacity(len) && !self.try_grow(len) {
            return Err(WriteError::OutOfSpace);
        }
        let ghost mid = self@;
        let ghost old_bytes = self@.bytes;
        let pos = self.pos;
        let end = pos + len;
        if self.storage.len() < end {
            let ghost before = self.storage@;
            self.storage.resize(end, 0u8);
            proof {
                assert(self.storage@.subrange(0, pos as int) =~= before.subrange(0, pos as int));
            }
        }
        let ghost storage_len = self.storage@.len();
        let mut i: usize = 0;
        while i < len
            invariant
                i <= len,
                len == bytes@.len(),
                end == pos + len,
                self.storage@.len() == storage_len,
                storage_len >= end,
                self.pos == pos,
                self.capacity == mid.capacity,
                self.storage@.subrange(0, pos as int) == old_bytes,
                forall|j: int| 0 <= j < i ==> #[trigger] self.storage@[pos + j] == bytes@[j],
            decreases len - i,
        {
            let ghost before = self.storage@;
            self.storage.set(pos + i, bytes[i]);
            proof {
                assert(self.storage@.subrange(0, pos as int) =~= before.subrange(0, pos as int));
            }
            i = i + 1;
        }
        self.pos = end;
        proof {
            assert forall|j: int| 0 <= j < end implies self.storage@.subrange(0, end as int)[j]
                == (old_bytes + bytes@)[j] by {
                if j < pos {
                    assert(self.storage@.subrange(0, pos as int)[j] == self.storage@[j]);
                } else {
                    assert(self.storage@[pos + (j - pos)] == bytes@[j - pos]);
                }
            }
            assert(self.storage@.subrange(0, end as int) =~= old_bytes + bytes@);
            encode_utf8_valid_utf8(s@);
            valid_utf8_concat(old_bytes, bytes@);
        }
        Ok(())
    }

    /// Empties the buffer; capacity and storage are kept for later writes.
    pub fn reset(&mut self)
        requires
            old(self).wf(),
        ensures
            final(self).wf(),
            final(self)@ == old(self)@.cleared(),
    {
        self.pos = 0;
        proof {
            assert(self@.bytes =~= Seq::<u8>::empty());
            encode_utf8_valid_utf8(Seq::<char>::empty());
            assert(vstd::utf8::encode_utf8(Seq::<char>::empty()) =~= Seq::<u8>::empty());
        }
    }

    /// The write cursor: how many bytes are in use.
    pub fn pos(&self) -> (r: usize)
        requires
            self.wf(),
        ensures
            r == self@.pos(),
    {
        self.pos
    }

    /// The logical capacity.
    pub fn capacity(&self) -> (r: usize)
        requires
            self.wf(),
        ensures
            r == self@.capacity,
    {
        self.capacity
    }

    /// The physical length of the storage.
    pub fn storage_len(&self) -> (r: usize)
        requires
            self.wf(),
        ensures
            r == self@.storage_len,
    {
        self.storage.len()
    }

    /// A copy of the bytes in use.
    pub fn contents(&self) -> (r: Vec<u8>)
        requires
            self.wf(),
        ensures
            r@ == self@.bytes,
    {
        let mut r: Vec<u8> = Vec::new();
        let mut i: usize = 0;
        while i < self.pos
            invariant
                i <= self.pos <= self.storage@.len(),
                r@ == self.storage@.subrange(0, i as int),
            decreases self.pos - i,
        {
            r.push(self.storage[i]);
            proof {
                assert(r@ =~= self.storage@.subrange(0, i + 1));
            }
            i = i + 1;
        }
        r
    }

    /// The text in use.
    pub fn as_text(&self) -> (r: String)
        requires
            self.wf(),
        ensures
            r@ == decode_utf8(self@.bytes),
    {
        match utf8_to_string(self.contents()) {
            Some(t) => t,
            None => String::new(),
        }
    }
}

/// Relies on `String::from_utf8`: it succeeds exactly on valid UTF-8 and the
/// string then holds those bytes.
#[verifier::external_body]
fn utf8_to_string(b: Vec<u8>) -> (r: Option<String>)
    ensures
        r is Some <==> valid_utf8(b@),
        r is Some ==> r->0@ == decode_utf8(b@),
{
    String::from_utf8(b).ok()
}

/// Appends the bytes of `text` to `buffer`; see [`Buffer::write_str`].
pub fn write(buffer: &mut Buffer, text: &str) -> (r: Result<(), WriteError>)
    requires
        old(buffer).wf(),
    ensures
        final(buffer).wf(),
        r is Ok <==> old(buffer)@.accepts(text.spec_bytes().len()),
        r is Ok ==> final(buffer)@ == old(buffer)@.appended(text.spec_bytes()),
        r is Err ==> final(buffer)@ == old(buffer)@,
{
    buffer.write_str(text)
}

/// Formats `text` through `buffer`: resets it, writes the text and reads it
/// back. When the text does not fit even after growth the result is empty.
pub fn format_into(buffer: &mut Buffer, text: &str) -> (r: String)
    requires
        old(buffer).wf(),
    ensures
        final(buffer).wf(),
        old(buffer)@.cleared().accepts(text.spec_bytes().len()) ==> {
            &&& r@ == text@
            &&& final(buffer)@ == old(buffer)@.cleared().appended(text.spec_bytes())
        },
        !old(buffer)@.cleared().accepts(text.spec_bytes().len()) ==> {
            &&& r@.len() == 0
            &&& final(buffer)@ == old(buffer)@.cleared()
        },
{
    buffer.reset();
    match buffer.write_str(text) {
        Ok(()) => {
            proof {
                assert(buffer@.bytes =~= text.spec_bytes());
                encode_utf8_decode_utf8(text@);
            }
            buffer.as_text()
        },
        Err(_) => String::new(),
    }
}

} // verus!
