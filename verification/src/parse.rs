//! The three-way result that every parser of this crate returns.

use vstd::prelude::*;
use vstd::slice::slice_subrange;

verus! {

/// `$`, which opens a data frame.
pub const DOLLAR: u8 = 0x24;

/// `#`, which ends the payload of a data frame.
pub const HASH: u8 = 0x23;

/// `+`, the acknowledgement, and the mark of a supported feature.
pub const PLUS: u8 = 0x2b;

/// `-`, the rejection, and the mark of an unsupported feature.
pub const MINUS: u8 = 0x2d;

/// `;`, which separates the entries of a feature list.
pub const SEMICOLON: u8 = 0x3b;

/// `=`, which separates a feature's name from its value.
pub const EQUALS: u8 = 0x3d;

/// How much input a parser asks for before it can decide.
#[derive(Debug, PartialEq, Eq, Clone, Copy)]
pub enum Needed {
    /// More input is needed, and the total does not fit in a `usize`.
    Unknown,
    /// The input must hold at least this many bytes, counted from its start.
    Size(usize),
}

/// Why a parser rejected its input.
#[derive(Debug, PartialEq, Eq, Clone, Copy)]
pub enum ErrorKind {
    /// The input starts with none of `$`, `+` and `-`.
    UnrecognizedPacket,
    /// The two bytes after `#` are not both hexadecimal digits.
    MalformedChecksum,
    /// A feature entry ends in neither `+` nor `-` and holds no `=`, or its
    /// text is not UTF-8.
    MalformedFeatureEntry,
    /// The text after `q` is no known query.
    UnrecognizedQuery,
    /// The payload starts with no known command, or its arguments are short.
    UnsupportedCommand,
}

/// Result of running a parser on a byte buffer.
#[derive(Debug, PartialEq, Eq)]
pub enum Parsed<'a, T> {
    /// The value that was recognized, and the input that follows it.
    Done(&'a [u8], T),
    /// The input is a proper prefix of something recognizable.
    Incomplete(Needed),
    /// The input cannot be recognized, whatever follows it.
    Error(ErrorKind),
}

/// Mathematical counterpart of [`Parsed`]: the rest as a sequence, the value by
/// its view.
pub enum ParsedView<V> {
    Done(Seq<u8>, V),
    Incomplete(Needed),
    Error(ErrorKind),
}

impl<'a, T: View> View for Parsed<'a, T> {
    type V = ParsedView<T::V>;

    open spec fn view(&self) -> ParsedView<T::V> {
        match *self {
            Parsed::Done(rest, value) => ParsedView::Done(rest@, value@),
            Parsed::Incomplete(n) => ParsedView::Incomplete(n),
            Parsed::Error(e) => ParsedView::Error(e),
        }
    }
}

impl<V> ParsedView<V> {
    /// Number of bytes of `input` that the parser used up; 0 unless it is done.
    pub open spec fn consumed(self, input: Seq<u8>) -> int {
        match self {
            ParsedView::Done(rest, _) => input.len() - rest.len(),
            _ => 0,
        }
    }
}

/// The request for `total` bytes of input.
pub open spec fn need(total: int) -> Needed {
    if total <= usize::MAX {
        Needed::Size(total as usize)
    } else {
        Needed::Unknown
    }
}

/// Asks for `more` bytes beyond the first `at`.
pub fn need_more(at: usize, more: usize) -> (n: Needed)
    ensures
        n == need(at + more),
{
    match at.checked_add(more) {
        Some(total) => Needed::Size(total),
        None => Needed::Unknown,
    }
}

/// Index of the first occurrence of `byte` in `bytes`, or the length of `bytes`
/// where there is none.
pub open spec fn first_index_of(bytes: Seq<u8>, byte: u8) -> int
    decreases bytes.len(),
{
    if bytes.len() == 0 || bytes[0] == byte {
        0
    } else {
        1 + first_index_of(bytes.drop_first(), byte)
    }
}

/// `first_index_of` is the one index with `byte` at it and none before it.
pub proof fn first_index_of_unique(bytes: Seq<u8>, byte: u8, k: int)
    requires
        0 <= k <= bytes.len(),
        forall|j: int| 0 <= j < k ==> bytes[j] != byte,
        k < bytes.len() ==> bytes[k] == byte,
    ensures
        first_index_of(bytes, byte) == k,
    decreases bytes.len(),
{
    if bytes.len() == 0 || bytes[0] == byte {
    } else {
        let tail = bytes.drop_first();
        assert forall|j: int| 0 <= j < k - 1 implies tail[j] != byte by {
            assert(tail[j] == bytes[j + 1]);
        }
        first_index_of_unique(tail, byte, k - 1);
    }
}

/// Bounds of `first_index_of`, and what stands at and before it.
pub proof fn first_index_of_bounds(bytes: Seq<u8>, byte: u8)
    ensures
        0 <= first_index_of(bytes, byte) <= bytes.len(),
        forall|j: int| 0 <= j < first_index_of(bytes, byte) ==> bytes[j] != byte,
        first_index_of(bytes, byte) < bytes.len() ==> bytes[first_index_of(bytes, byte)] == byte,
    decreases bytes.len(),
{
    if bytes.len() == 0 || bytes[0] == byte {
    } else {
        let tail = bytes.drop_first();
        first_index_of_bounds(tail, byte);
        assert forall|j: int| 0 <= j < first_index_of(bytes, byte) implies bytes[j] != byte by {
            if j > 0 {
                assert(tail[j - 1] == bytes[j]);
            }
        }
    }
}

/// Finds the first `byte` in `bytes`.
pub fn find_byte(bytes: &[u8], byte: u8) -> (k: usize)
    ensures
        k == first_index_of(bytes@, byte),
        k <= bytes@.len(),
{
    let mut k: usize = 0;
    while k < bytes.len() && bytes[k] != byte
        invariant
            k <= bytes@.len(),
            forall|j: int| 0 <= j < k ==> bytes@[j] != byte,
        decreases bytes@.len() - k,
    {
        k += 1;
    }
    proof {
        first_index_of_unique(bytes@, byte, k as int);
    }
    k
}

/// Whether two byte strings hold the same bytes.
pub fn bytes_eq(a: &[u8], b: &[u8]) -> (same: bool)
    ensures
        same == (a@ == b@),
{
    if a.len() != b.len() {
        return false;
    }
    let mut i: usize = 0;
    while i < a.len()
        invariant
            i <= a@.len(),
            a@.len() == b@.len(),
            forall|j: int| 0 <= j < i ==> a@[j] == b@[j],
        decreases a@.len() - i,
    {
        if a[i] != b[i] {
            return false;
        }
        i += 1;
    }
    assert(a@ =~= b@);
    true
}

/// The bytes of `bytes` from index `from` on.
pub fn skip<'a>(bytes: &'a [u8], from: usize) -> (rest: &'a [u8])
    requires
        from <= bytes@.len(),
    ensures
        rest@ == bytes@.skip(from as int),
{
    slice_subrange(bytes, from, bytes.len())
}

/// The first `to` bytes of `bytes`.
pub fn take<'a>(bytes: &'a [u8], to: usize) -> (head: &'a [u8])
    requires
        to <= bytes@.len(),
    ensures
        head@ == bytes@.take(to as int),
{
    slice_subrange(bytes, 0, to)
}

} // verus!

