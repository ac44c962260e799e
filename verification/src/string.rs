//! NUL-terminated strings.  A `Str` wraps a byte range of any length;
//! the trailing NUL is structural, not content.  A range that is empty
//! or lacks the trailing NUL reads as the empty string.

use vstd::prelude::*;

use crate::cast::Cast;
use crate::cast::WrongSize;

verus! {

/// The string content of a byte range: everything but a single trailing
/// NUL; the empty sequence when the range is empty or not terminated.
pub open spec fn str_bytes_spec(data: Seq<u8>) -> Seq<u8> {
    if data.len() > 0 && data[data.len() - 1] == 0 {
        data.subrange(0, data.len() - 1)
    } else {
        Seq::empty()
    }
}

/// The bytes before the first NUL of `data` (all of `data` when it has
/// no NUL).
pub open spec fn cstr_content_spec(data: Seq<u8>) -> Seq<u8>
    decreases data.len(),
{
    if data.len() == 0 {
        Seq::empty()
    } else if data[0] == 0 {
        Seq::empty()
    } else {
        seq![data[0]].add(cstr_content_spec(data.subrange(1, data.len() as int)))
    }
}

/// The C-string reading of a byte range: the bytes up to the first NUL,
/// provided the range carries a trailing NUL at all; an unterminated
/// range reads as if it were a single NUL byte, i.e. as empty.
pub open spec fn cstr_bytes_spec(data: Seq<u8>) -> Seq<u8> {
    if data.len() > 0 && data[data.len() - 1] == 0 {
        cstr_content_spec(data)
    } else {
        Seq::empty()
    }
}

/// Scanning for the first NUL yields exactly the prefix before it.
pub proof fn lemma_cstr_content(data: Seq<u8>, i: int)
    requires
        0 <= i < data.len(),
        data[i] == 0,
        forall|j: int| 0 <= j < i ==> data[j] != 0,
    ensures
        cstr_content_spec(data) == data.subrange(0, i),
    decreases i,
{
    if i == 0 {
        assert(cstr_content_spec(data) =~= data.subrange(0, 0));
    } else {
        let tail = data.subrange(1, data.len() as int);
        lemma_cstr_content(tail, i - 1);
        assert(seq![data[0]].add(tail.subrange(0, i - 1)) =~= data.subrange(0, i));
    }
}

/// A view of a byte range read as a NUL-terminated string.
pub struct Str<'a> {
    data: &'a [u8],
}

impl<'a> View for Str<'a> {
    type V = Seq<u8>;

    closed spec fn view(&self) -> Seq<u8> {
        self.data@
    }
}

impl<'a> Str<'a> {
    /// The string's content: the bytes before a single trailing NUL, or
    /// the empty sequence when the range is empty or unterminated.
    pub fn to_bytes(&self) -> (r: &'a [u8])
        ensures
            r@ == str_bytes_spec(self@),
    {
        let n = self.data.len();
        if n > 0 && self.data[n - 1] == 0 {
            vstd::slice::slice_subrange(self.data, 0, n - 1)
        } else {
            vstd::slice::slice_subrange(self.data, 0, 0)
        }
    }

    /// The C-string form's content: the bytes up to the first NUL, even
    /// one in the interior.  An empty or unterminated range reads as the
    /// empty string.
    pub fn to_cstr(&self) -> (r: &'a [u8])
        ensures
            r@ == cstr_bytes_spec(self@),
    {
        let n = self.data.len();
        if n == 0 || self.data[n - 1] != 0 {
            return vstd::slice::slice_subrange(self.data, 0, 0);
        }
        let mut i: usize = 0;
        while self.data[i] != 0
            invariant
                0 <= i < self.data@.len(),
                self.data@[self.data@.len() - 1] == 0,
                forall|j: int| 0 <= j < i ==> self.data@[j] != 0,
            decreases self.data@.len() - i,
        {
            i = i + 1;
        }
        proof {
            lemma_cstr_content(self.data@, i as int);
        }
        vstd::slice::slice_subrange(self.data, 0, i)
    }
}

/// Byte-wise comparison of two ranges.
fn bytes_eq(a: &[u8], b: &[u8]) -> (r: bool)
    ensures
        r == (a@ == b@),
{
    if a.len() != b.len() {
        proof {
            assert(a@.len() != b@.len());
        }
        return false;
    }
    let n = a.len();
    let mut i: usize = 0;
    while i < n
        invariant
            0 <= i <= n,
            n == a@.len() && n == b@.len(),
            forall|j: int| 0 <= j < i ==> a@[j] == b@[j],
        decreases n - i,
    {
        if a[i] != b[i] {
            proof {
                assert(a@[i as int] != b@[i as int]);
            }
            return false;
        }
        i = i + 1;
    }
    proof {
        assert(a@ =~= b@);
    }
    true
}

impl<'a> PartialEq for Str<'a> {
    /// Two strings are equal when their C-string forms are: comparison
    /// truncates at the first NUL, it is not raw byte equality.
    fn eq(&self, other: &Self) -> (r: bool) {
        bytes_eq(self.to_cstr(), other.to_cstr())
    }
}

impl<'a> vstd::std_specs::cmp::PartialEqSpecImpl for Str<'a> {
    open spec fn obeys_eq_spec() -> bool {
        true
    }

    open spec fn eq_spec(&self, other: &Str<'a>) -> bool {
        cstr_bytes_spec(self@) == cstr_bytes_spec(other@)
    }
}

impl<'a> Cast<'a> for Str<'a> {
    open spec fn align_spec() -> nat {
        1
    }

    open spec fn size_spec() -> Option<nat> {
        None
    }

    open spec fn accepts_spec(bytes: Seq<u8>) -> bool {
        true
    }

    open spec fn wire_spec(self) -> Seq<u8> {
        self@
    }

    open spec fn default_wire_spec() -> Seq<u8> {
        Seq::empty()
    }

    proof fn lemma_cast_properties() {
    }

    fn align() -> (r: usize) {
        1
    }

    fn fixed_size() -> (r: Option<usize>) {
        None
    }

    fn default_value() -> (r: Self) {
        Str { data: &[] }
    }

    fn try_from_aligned_slice(slice: &'a [u8]) -> (r: Result<Self, WrongSize>) {
        Ok(Str { data: slice })
    }
}

} // verus!
