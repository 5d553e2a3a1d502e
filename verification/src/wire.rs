use crate::error::MatrixError;
use crate::matrix::{decode_size, spec_side, Matrix};
use crate::scalar::Scalar;
use byteorder::{BigEndian, ByteOrder, LittleEndian, NativeEndian};
use vstd::prelude::*;
use vstd::slice::slice_subrange;

verus! {

/// The order in which the four bytes of a scalar stand in a buffer.
#[derive(Clone, Copy, Debug, PartialEq, Eq, Structural)]
pub enum Endian {
    /// The byte of least weight first.
    Little,
    /// The byte of most weight first.
    Big,
}

/// The number that the first four bytes of `b` spell in the given order.
pub open spec fn spec_word(order: Endian, b: Seq<u8>) -> int {
    match order {
        Endian::Little => b[0] + b[1] * 0x100 + b[2] * 0x1_0000 + b[3] * 0x100_0000,
        Endian::Big => b[3] + b[2] * 0x100 + b[1] * 0x1_0000 + b[0] * 0x100_0000,
    }
}

/// The four bytes that spell `n` in the given order.
pub open spec fn spec_word_bytes(order: Endian, n: u32) -> Seq<u8> {
    match order {
        Endian::Little => seq![
            (n % 0x100) as u8,
            (n / 0x100 % 0x100) as u8,
            (n / 0x1_0000 % 0x100) as u8,
            (n / 0x100_0000) as u8,
        ],
        Endian::Big => seq![
            (n / 0x100_0000) as u8,
            (n / 0x1_0000 % 0x100) as u8,
            (n / 0x100 % 0x100) as u8,
            (n % 0x100) as u8,
        ],
    }
}

/// The scalars that a buffer holds: one for every four bytes, in their
/// order; up to three bytes that are left over at the end are not read.
pub open spec fn spec_decode(order: Endian, bytes: Seq<u8>) -> Seq<Scalar> {
    Seq::new(
        (bytes.len() / 4) as nat,
        |i: int| Scalar { bits: spec_word(order, bytes.subrange(4 * i, 4 * i + 4)) as u32 },
    )
}

/// The buffer that holds the given scalars: four bytes for each, with no
/// header and nothing between them.
pub open spec fn spec_encode(order: Endian, entries: Seq<Scalar>) -> Seq<u8> {
    Seq::new(4 * entries.len(), |k: int| spec_word_bytes(order, entries[k / 4].bits)[k % 4])
}

/// The bytes that spell a number spell that number.
pub proof fn lemma_word_round_trip(order: Endian, n: u32)
    ensures
        spec_word_bytes(order, n).len() == 4,
        spec_word(order, spec_word_bytes(order, n)) == n,
{
}

/// `byteorder::LittleEndian::read_u32`: the number that the first four bytes
/// of the buffer spell, the byte of least weight first. The call panics on a
/// buffer of fewer than four bytes.
#[verifier::external_body]
fn read_little(buf: &[u8]) -> (r: u32)
    requires
        buf@.len() >= 4,
    ensures
        r == spec_word(Endian::Little, buf@),
{
    LittleEndian::read_u32(buf)
}

/// `byteorder::BigEndian::read_u32`: the number that the first four bytes of
/// the buffer spell, the byte of most weight first. The call panics on a
/// buffer of fewer than four bytes.
#[verifier::external_body]
fn read_big(buf: &[u8]) -> (r: u32)
    requires
        buf@.len() >= 4,
    ensures
        r == spec_word(Endian::Big, buf@),
{
    BigEndian::read_u32(buf)
}

/// `byteorder::LittleEndian::write_u32`, on a buffer of four bytes: the bytes
/// that spell the number, the byte of least weight first.
#[verifier::external_body]
fn write_little(n: u32) -> (r: [u8; 4])
    ensures
        r@ == spec_word_bytes(Endian::Little, n),
{
    let mut buf = [0u8; 4];
    LittleEndian::write_u32(&mut buf, n);
    buf
}

/// `byteorder::BigEndian::write_u32`, on a buffer of four bytes: the bytes
/// that spell the number, the byte of most weight first.
#[verifier::external_body]
fn write_big(n: u32) -> (r: [u8; 4])
    ensures
        r@ == spec_word_bytes(Endian::Big, n),
{
    let mut buf = [0u8; 4];
    BigEndian::write_u32(&mut buf, n);
    buf
}

/// `byteorder::NativeEndian::read_u16`: the number that the first two bytes
/// of the buffer spell in the order of the machine, which is one of the two.
/// The call panics on a buffer of fewer than two bytes.
#[verifier::external_body]
fn read_native_pair(buf: &[u8]) -> (r: u16)
    requires
        buf@.len() >= 2,
    ensures
        r == buf@[0] + buf@[1] * 0x100 || r == buf@[1] + buf@[0] * 0x100,
{
    NativeEndian::read_u16(buf)
}

impl Endian {
    /// The byte order of the machine that runs the call.
    pub fn native() -> (r: Endian) {
        let probe: [u8; 2] = [1, 0];
        Endian::from_probe(read_native_pair(probe.as_slice()))
    }

    /// The byte order of a machine on which the bytes 1 and 0, in this order,
    /// spell the given number: the byte of least weight comes first where the
    /// number is 1, and the byte of most weight where it is anything else.
    pub fn from_probe(seen: u16) -> (r: Endian)
        ensures
            seen == 1 ==> r == Endian::Little,
            seen != 1 ==> r == Endian::Big,
    {
        if seen == 1 {
            Endian::Little
        } else {
            Endian::Big
        }
    }

    /// Reads the scalar that stands in the first four bytes of the buffer.
    pub fn read_scalar(self, buf: &[u8]) -> (r: Scalar)
        requires
            buf@.len() >= 4,
        ensures
            r.bits == spec_word(self, buf@),
    {
        match self {
            Endian::Little => Scalar { bits: read_little(buf) },
            Endian::Big => Scalar { bits: read_big(buf) },
        }
    }

    /// The four bytes that hold the scalar.
    pub fn write_scalar(self, value: Scalar) -> (r: [u8; 4])
        ensures
            r@ == spec_word_bytes(self, value.bits),
    {
        match self {
            Endian::Little => write_little(value.bits),
            Endian::Big => write_big(value.bits),
        }
    }
}

impl Matrix {
    /// Builds a matrix from a buffer that holds its entries row by row, four
    /// bytes each in the given order. The number of scalars in the buffer
    /// gives the side.
    pub fn from_bytes_in(order: Endian, bytes: &[u8]) -> (r: Result<Matrix, MatrixError>)
        ensures
            match spec_side(bytes@.len() as int / 4) {
                Some(n) => r is Ok && r->Ok_0.wf() && r->Ok_0.spec_size() == n && r->Ok_0@
                    == spec_decode(order, bytes@),
                None => r == Err::<Matrix, MatrixError>(MatrixError::InvalidMatrix),
            },
    {
        let count: usize = bytes.len() / 4;
        match decode_size(count) {
            Ok(_) => {},
            Err(e) => {
                return Err(e);
            },
        }
        let ghost want = spec_decode(order, bytes@);
        let mut data: Vec<Scalar> = Vec::new();
        let mut i: usize = 0;
        while i < count
            invariant
                count == bytes@.len() / 4,
                count <= 16,
                i <= count,
                want == spec_decode(order, bytes@),
                data@.len() == i,
                forall|k: int| 0 <= k < i ==> data@[k] == want[k],
            decreases count - i,
        {
            let word = slice_subrange(bytes, 4 * i, 4 * i + 4);
            data.push(order.read_scalar(word));
            i += 1;
        }
        assert(data@ =~= want);
        Matrix::from_scalars(data)
    }

    /// The buffer that holds the entries row by row, four bytes each in the
    /// given order.
    pub fn to_bytes_in(&self, order: Endian) -> (r: Vec<u8>)
        ensures
            r@ == spec_encode(order, self@),
    {
        let values = self.values();
        let ghost want = spec_encode(order, self@);
        let mut out: Vec<u8> = Vec::new();
        let mut i: usize = 0;
        while i < values.len()
            invariant
                values@ == self@,
                i <= values@.len(),
                want == spec_encode(order, self@),
                out@.len() == 4 * i,
                forall|k: int| 0 <= k < out@.len() ==> out@[k] == want[k],
            decreases values@.len() - i,
        {
            let word = order.write_scalar(values[i]);
            out.push(word[0]);
            out.push(word[1]);
            out.push(word[2]);
            out.push(word[3]);
            i += 1;
        }
        assert(out@ =~= want);
        out
    }

    /// Builds a matrix from a buffer in the byte order of the machine.
    pub fn from_bytes(bytes: &[u8]) -> (r: Result<Matrix, MatrixError>)
        ensures
            match spec_side(bytes@.len() as int / 4) {
                Some(n) => r is Ok && r->Ok_0.wf() && r->Ok_0.spec_size() == n && (r->Ok_0@
                    == spec_decode(Endian::Little, bytes@) || r->Ok_0@ == spec_decode(
                    Endian::Big,
                    bytes@,
                )),
                None => r == Err::<Matrix, MatrixError>(MatrixError::InvalidMatrix),
            },
    {
        Matrix::from_bytes_in(Endian::native(), bytes)
    }

    /// The buffer that holds the entries in the byte order of the machine.
    pub fn to_bytes(&self) -> (r: Vec<u8>)
        ensures
            r@ == spec_encode(Endian::Little, self@) || r@ == spec_encode(Endian::Big, self@),
    {
        self.to_bytes_in(Endian::native())
    }
}

/// A buffer that was written from scalars holds those scalars, bit for bit,
/// when it is read in the order in which it was written.
pub proof fn lemma_decode_encode(order: Endian, entries: Seq<Scalar>)
    ensures
        spec_encode(order, entries).len() == 4 * entries.len(),
        spec_decode(order, spec_encode(order, entries)) == entries,
{
    let bytes = spec_encode(order, entries);
    let back = spec_decode(order, bytes);
    assert(back.len() == entries.len());
    assert forall|i: int| 0 <= i < entries.len() implies back[i] == entries[i] by {
        let word = bytes.subrange(4 * i, 4 * i + 4);
        assert(word =~= spec_word_bytes(order, entries[i].bits));
        lemma_word_round_trip(order, entries[i].bits);
    }
    assert(back =~= entries);
}

/// Writing a matrix and reading the buffer in the same byte order gives a
/// matrix of the same side and the same entries, bit for bit.
pub proof fn lemma_bytes_round_trip(order: Endian, m: Matrix)
    requires
        m.wf(),
    ensures
        spec_side(spec_encode(order, m@).len() as int / 4) == Some(m.spec_size()),
        spec_decode(order, spec_encode(order, m@)) == m@,
{
    lemma_decode_encode(order, m@);
}

} // verus!
