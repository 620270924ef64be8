use vstd::prelude::*;
use vstd::utf8::*;

use crate::array_vec::truncated;
use crate::array_vec::ArrayVec;
use crate::errors::CapacityError;
use crate::utf8_scan::utf8_check;

verus! {

broadcast use vstd::utf8::group_utf8_lib;

/// A UTF-8 string stored in a byte vector of fixed capacity.
///
/// The stored bytes are a valid UTF-8 encoding at every observable
/// point: every mutation either appends or removes whole character
/// encodings and succeeds, or refuses and leaves the string unchanged.
#[derive(Debug)]
pub struct ArrayString {
    vec: ArrayVec<u8>,
}

/// The UTF-8 encoding of a concatenation is the concatenation of the
/// encodings.
pub proof fn lemma_encode_utf8_concat(a: Seq<char>, b: Seq<char>)
    ensures
        encode_utf8(a + b) == encode_utf8(a) + encode_utf8(b),
    decreases a.len(),
{
    if a.len() == 0 {
        assert(a + b =~= b);
        assert(encode_utf8(a) + encode_utf8(b) =~= encode_utf8(b));
    } else {
        lemma_encode_utf8_concat(a.drop_first(), b);
        assert((a + b).drop_first() =~= a.drop_first() + b);
        assert((a + b)[0] == a[0]);
        assert(encode_utf8(a + b) =~= encode_utf8(a) + encode_utf8(b));
    }
}

/// The UTF-8 encoding of a single character is that character's scalar
/// encoding.
proof fn lemma_encode_utf8_singleton(c: char)
    ensures
        encode_utf8(seq![c]) == encode_scalar(c as u32),
{
    let s = seq![c];
    assert(s.len() == 1 && s[0] == c);
    assert(s.drop_first() =~= Seq::<char>::empty());
    assert(encode_utf8(Seq::<char>::empty()) =~= Seq::<u8>::empty());
    assert(encode_utf8(s) == encode_scalar(c as u32) + encode_utf8(s.drop_first()));
    assert(encode_utf8(s) =~= encode_scalar(c as u32));
}

/// The UTF-8 encoding of one character, byte for byte as
/// `vstd::utf8::encode_scalar` states it.
fn encode_char(c: char) -> (r: Vec<u8>)
    ensures
        r@ == encode_scalar(c as u32),
        1 <= r@.len() <= 4,
{
    let u = c as u32;
    let mut v: Vec<u8> = Vec::new();
    if u <= 0x7F {
        v.push(#[verifier::truncate] ((u & 0x7F) as u8));
        proof {
            assert(v@ =~= encode_scalar(c as u32));
        }
    } else if u <= 0x7FF {
        v.push(0xC0 | #[verifier::truncate] (((u >> 6) & 0x1F) as u8));
        v.push(0x80 | #[verifier::truncate] ((u & 0x3F) as u8));
        proof {
            assert(v@ =~= encode_scalar(c as u32));
        }
    } else if u <= 0xFFFF {
        v.push(0xE0 | #[verifier::truncate] (((u >> 12) & 0x0F) as u8));
        v.push(0x80 | #[verifier::truncate] (((u >> 6) & 0x3F) as u8));
        v.push(0x80 | #[verifier::truncate] ((u & 0x3F) as u8));
        proof {
            assert(v@ =~= encode_scalar(c as u32));
        }
    } else {
        v.push(0xF0 | #[verifier::truncate] (((u >> 18) & 0x7) as u8));
        v.push(0x80 | #[verifier::truncate] (((u >> 12) & 0x3F) as u8));
        v.push(0x80 | #[verifier::truncate] (((u >> 6) & 0x3F) as u8));
        v.push(0x80 | #[verifier::truncate] ((u & 0x3F) as u8));
        proof {
            assert(v@ =~= encode_scalar(c as u32));
        }
    }
    v
}

/// Relies on core::str::from_utf8: on bytes that are a valid UTF-8
/// encoding it is documented to succeed and return the string slice of
/// exactly the characters those bytes encode.
#[verifier::external_body]
fn bytes_as_str(bytes: &[u8]) -> (r: &str)
    requires
        valid_utf8(bytes@),
    ensures
        r@ == decode_utf8(bytes@),
{
    core::str::from_utf8(bytes).unwrap()
}

impl View for ArrayString {
    type V = Seq<u8>;

    closed spec fn view(&self) -> Seq<u8> {
        self.vec@
    }
}

impl ArrayString {
    /// The fixed capacity, in bytes.
    pub closed spec fn spec_capacity(&self) -> usize {
        self.vec.spec_capacity()
    }

    /// The stored bytes are valid UTF-8 and fit in the fixed capacity.
    pub open spec fn wf(&self) -> bool {
        self@.len() <= self.spec_capacity() && valid_utf8(self@)
    }

    /// The characters the stored bytes encode.
    pub open spec fn chars(&self) -> Seq<char> {
        decode_utf8(self@)
    }

    /// Create an empty string with the given fixed byte capacity.
    pub fn new(capacity: usize) -> (t: ArrayString)
        ensures
            t.wf(),
            t@ == Seq::<u8>::empty(),
            t.chars() == Seq::<char>::empty(),
            t.spec_capacity() == capacity,
    {
        let t = ArrayString { vec: ArrayVec::new(capacity) };
        proof {
            assert(valid_utf8(t@));
            assert(decode_utf8(t@) =~= Seq::<char>::empty());
        }
        t
    }

    /// The fixed capacity, in bytes.
    #[verifier::when_used_as_spec(spec_capacity)]
    pub fn capacity(&self) -> (c: usize)
        ensures
            c == self.spec_capacity(),
    {
        self.vec.capacity()
    }

    /// The number of bytes currently stored.
    pub fn len(&self) -> (n: usize)
        ensures
            n == self@.len(),
    {
        self.vec.len()
    }

    /// True when the string holds no bytes.
    pub fn is_empty(&self) -> (r: bool)
        ensures
            r == (self@.len() == 0),
    {
        self.vec.is_empty()
    }

    /// Append the whole UTF-8 encoding of `c`; refuse, handing the
    /// character back, when that encoding does not fit in the remaining
    /// bytes. Never appends a partial encoding.
    pub fn push_char(&mut self, c: char) -> (r: Result<(), CapacityError<char>>)
        requires
            old(self).wf(),
        ensures
            final(self).wf(),
            final(self).spec_capacity() == old(self).spec_capacity(),
            old(self)@.len() + encode_scalar(c as u32).len() <= old(self).spec_capacity() ==> r
                is Ok && final(self)@ == old(self)@ + encode_scalar(c as u32) && final(self).chars() == old(self).chars().push(c),
            old(self)@.len() + encode_scalar(c as u32).len() > old(self).spec_capacity() ==> (
            r matches Err(e) && e@ == c) && final(self)@ == old(self)@,
    {
        let enc = encode_char(c);
        if enc.len() <= self.vec.capacity() - self.vec.len() {
            let ghost pre = self.vec@;
            let ghost cs = decode_utf8(pre);
            let res = self.vec.extend_from_vec(enc);
            proof {
                assert(res is Ok);
                assert(encode_utf8(decode_utf8(pre)) == pre);
                lemma_encode_utf8_singleton(c);
                lemma_encode_utf8_concat(cs, seq![c]);
                assert(self.vec@ == encode_utf8(cs + seq![c]));
                assert(valid_utf8(self.vec@));
                assert(decode_utf8(self.vec@) == cs + seq![c]);
                assert(cs + seq![c] =~= cs.push(c));
            }
            Ok(())
        } else {
            Err(CapacityError::new(c))
        }
    }

    /// Append the whole UTF-8 encoding of `s`; refuse, changing
    /// nothing, when those bytes do not all fit in the remaining room.
    /// Never appends only part of `s`.
    pub fn push_str(&mut self, s: &str) -> (r: Result<(), CapacityError<()>>)
        requires
            old(self).wf(),
        ensures
            final(self).wf(),
            final(self).spec_capacity() == old(self).spec_capacity(),
            old(self)@.len() + encode_utf8(s@).len() <= old(self).spec_capacity() ==> r is Ok
                && final(self)@ == old(self)@ + encode_utf8(s@) && final(self).chars() == old(self).chars() + s@,
            old(self)@.len() + encode_utf8(s@).len() > old(self).spec_capacity() ==> r is Err
                && final(self)@ == old(self)@,
    {
        let n = s.unicode_len();
        let mut buf: Vec<u8> = Vec::new();
        let mut i: usize = 0;
        while i < n
            invariant
                n == s@.len(),
                i <= n,
                buf@ == encode_utf8(s@.take(i as int)),
            decreases n - i,
        {
            let c = s.get_char(i);
            let mut enc = encode_char(c);
            buf.append(&mut enc);
            proof {
                lemma_encode_utf8_singleton(c);
                lemma_encode_utf8_concat(s@.take(i as int), seq![c]);
                assert(s@.take(i as int) + seq![c] =~= s@.take(i + 1 as int));
            }
            i = i + 1;
        }
        proof {
            assert(s@.take(n as int) =~= s@);
        }
        let ghost pre = self.vec@;
        let ghost cs = decode_utf8(pre);
        let res = self.vec.extend_from_vec(buf);
        match res {
            Ok(_) => {
                proof {
                    assert(encode_utf8(decode_utf8(pre)) == pre);
                    lemma_encode_utf8_concat(cs, s@);
                    assert(self.vec@ == encode_utf8(cs + s@));
                    assert(valid_utf8(self.vec@));
                    assert(decode_utf8(self.vec@) == cs + s@);
                }
                Ok(())
            },
            Err(_) => Err(CapacityError::new(())),
        }
    }

    /// Cut the stored bytes down to `new_len` when that falls on a
    /// character boundary; lengths at or beyond the current one leave
    /// the string unchanged. The dropped suffix is always a whole
    /// number of character encodings.
    pub fn truncate(&mut self, new_len: usize)
        requires
            old(self).wf(),
            new_len < old(self)@.len() ==> is_char_boundary(old(self)@, new_len as int),
        ensures
            final(self).wf(),
            final(self).spec_capacity() == old(self).spec_capacity(),
            final(self)@ == truncated(old(self)@, new_len as nat),
            new_len < old(self)@.len() ==> old(self).chars() == final(self).chars() + decode_utf8(
                old(self)@.skip(new_len as int),
            ),
            new_len >= old(self)@.len() ==> final(self)@ == old(self)@,
    {
        self.vec.truncate(new_len);
        proof {
            if new_len < old(self)@.len() {
                let pre = old(self)@;
                assert(valid_utf8(pre.subrange(0, new_len as int)));
                assert(decode_utf8(pre) == decode_utf8(pre.subrange(0, new_len as int))
                    + decode_utf8(pre.subrange(new_len as int, pre.len() as int)));
                assert(pre.skip(new_len as int) =~= pre.subrange(new_len as int, pre.len() as int));
                assert(self.vec@ =~= pre.subrange(0, new_len as int));
            }
        }
    }

    /// Whether `index` falls on a character boundary of the stored
    /// bytes: the start, the end, or the first byte of a character's
    /// encoding.
    pub fn is_char_boundary(&self, index: usize) -> (r: bool)
        requires
            self.wf(),
        ensures
            r == is_char_boundary(self@, index as int),
    {
        let n = self.vec.len();
        if index == 0 {
            proof {
                assert(is_char_boundary(self@, 0int));
            }
            true
        } else if index > n {
            proof {
                assert(!is_char_boundary(self@, index as int));
            }
            false
        } else if index == n {
            proof {
                assert(is_char_boundary(self@, self@.len() as int));
            }
            true
        } else {
            let bytes = self.vec.as_slice();
            let b = bytes[index];
            proof {
                assert(is_char_boundary(self@, index as int) <==> !is_continuation_byte(
                    self@[index as int],
                ));
            }
            !(0x80 <= b && b <= 0xBF)
        }
    }

    /// A read-only string view of the stored bytes; valid by the type's
    /// invariant, with no re-validation.
    pub fn as_str(&self) -> (r: &str)
        requires
            self.wf(),
        ensures
            r@ == self.chars(),
    {
        bytes_as_str(self.vec.as_slice())
    }

    /// The stored bytes, exactly the UTF-8 encoding of the characters.
    pub fn as_bytes(&self) -> (r: &[u8])
        ensures
            r@ == self@,
    {
        self.vec.as_slice()
    }

    /// Build a string, with the given byte capacity, from an arbitrary
    /// byte sequence; refuse, handing the bytes back unchanged, when
    /// they are not a valid UTF-8 encoding or are longer than the
    /// capacity.
    pub fn from_bytes(capacity: usize, bytes: Vec<u8>) -> (r: Result<ArrayString, Vec<u8>>)
        ensures
            valid_utf8(bytes@) && bytes@.len() <= capacity ==> (r matches Ok(t) && t.wf() && t@
                == bytes@ && t.chars() == decode_utf8(bytes@) && t.spec_capacity() == capacity),
            !(valid_utf8(bytes@) && bytes@.len() <= capacity) ==> (r matches Err(b) && b == bytes),
    {
        if !utf8_check(bytes.as_slice()) {
            return Err(bytes);
        }
        match ArrayVec::from_vec(capacity, bytes) {
            Ok(v) => Ok(ArrayString { vec: v }),
            Err(e) => Err(e.element()),
        }
    }

    /// Build a string, with the given byte capacity, holding the
    /// characters of `s`; refuse when the encoding of `s` is longer
    /// than the capacity.
    pub fn from_str(capacity: usize, s: &str) -> (r: Result<ArrayString, CapacityError<()>>)
        ensures
            encode_utf8(s@).len() <= capacity ==> (r matches Ok(t) && t.wf() && t@ == encode_utf8(
                s@,
            ) && t.chars() == s@ && t.spec_capacity() == capacity),
            encode_utf8(s@).len() > capacity ==> r is Err,
    {
        let mut t = ArrayString::new(capacity);
        let ghost empty_chars = t.chars();
        match t.push_str(s) {
            Ok(_) => {
                proof {
                    assert(Seq::<u8>::empty() + encode_utf8(s@) =~= encode_utf8(s@));
                    assert(empty_chars + s@ =~= s@);
                }
                Ok(t)
            },
            Err(e) => Err(e),
        }
    }
}

} // verus!
