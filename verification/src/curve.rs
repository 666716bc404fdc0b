//! Curve paths: a curve is a count-prefixed list of control points with no
//! offset indirection inside it. Each point holds a 3D position, two 3D
//! tangent handles and one reserved word, all carried as `u32` bit patterns
//! of the IEEE-754 wire floats.

use vstd::prelude::*;

use crate::ByteOrder;
use crate::EffError;
use crate::scalar::{
    lemma_concat_split, lemma_concat_subrange, lemma_subrange_of_subrange,
    lemma_u16_at_of_bytes, lemma_u32_at_of_bytes, lemma_u8_at_of_bytes, put_u32, take_u32,
    u32_at, u32_bytes,
};

verus! {

/// One control point of a curve: position, two tangent handles and a
/// reserved word, forty wire bytes.
#[derive(Clone, Copy, PartialEq, Eq, Debug)]
pub struct CurvePoint {
    pub point: (u32, u32, u32),
    pub handle_0: (u32, u32, u32),
    pub handle_1: (u32, u32, u32),
    pub unknown: u32,
}

impl CurvePoint {
    /// The forty wire bytes of this point in byte order `o`.
    pub open spec fn wire(self, o: ByteOrder) -> Seq<u8> {
        u32_bytes(self.point.0, o) + u32_bytes(self.point.1, o) + u32_bytes(self.point.2, o)
            + u32_bytes(self.handle_0.0, o) + u32_bytes(self.handle_0.1, o)
            + u32_bytes(self.handle_0.2, o) + u32_bytes(self.handle_1.0, o)
            + u32_bytes(self.handle_1.1, o) + u32_bytes(self.handle_1.2, o)
            + u32_bytes(self.unknown, o)
    }

    /// The point stored at byte position `i` of `data` in byte order `o`.
    pub open spec fn decoded_at(data: Seq<u8>, i: int, o: ByteOrder) -> CurvePoint {
        CurvePoint {
            point: (u32_at(data, i, o), u32_at(data, i + 4, o), u32_at(data, i + 8, o)),
            handle_0: (u32_at(data, i + 12, o), u32_at(data, i + 16, o), u32_at(data, i + 20, o)),
            handle_1: (u32_at(data, i + 24, o), u32_at(data, i + 28, o), u32_at(data, i + 32, o)),
            unknown: u32_at(data, i + 36, o),
        }
    }

    /// Decoding any window of `data` that holds this record's wire bytes
    /// yields the record back: the codec loses nothing.
    #[verifier::rlimit(60)]
    pub proof fn lemma_decoded_of_wire(data: Seq<u8>, i: int, x: CurvePoint, o: ByteOrder)
        requires
            0 <= i,
            i + 40 <= data.len(),
            data.subrange(i, i + 40) == x.wire(o),
        ensures
            CurvePoint::decoded_at(data, i, o) == x,
    {
        assert(u32_bytes(x.point.0, o).len() == 4);
        assert(u32_bytes(x.point.1, o).len() == 4);
        assert(u32_bytes(x.point.2, o).len() == 4);
        assert(u32_bytes(x.handle_0.0, o).len() == 4);
        assert(u32_bytes(x.handle_0.1, o).len() == 4);
        assert(u32_bytes(x.handle_0.2, o).len() == 4);
        assert(u32_bytes(x.handle_1.0, o).len() == 4);
        assert(u32_bytes(x.handle_1.1, o).len() == 4);
        assert(u32_bytes(x.handle_1.2, o).len() == 4);
        assert(u32_bytes(x.unknown, o).len() == 4);
        assert(x.wire(o).subrange(0, 40) =~= x.wire(o));
        lemma_concat_split(u32_bytes(x.point.0, o) + u32_bytes(x.point.1, o) + u32_bytes(x.point.2, o) + u32_bytes(x.handle_0.0, o) + u32_bytes(x.handle_0.1, o) + u32_bytes(x.handle_0.2, o) + u32_bytes(x.handle_1.0, o) + u32_bytes(x.handle_1.1, o) + u32_bytes(x.handle_1.2, o), u32_bytes(x.unknown, o));
        assert(x.wire(o).subrange(0, 36) == u32_bytes(x.point.0, o) + u32_bytes(x.point.1, o) + u32_bytes(x.point.2, o) + u32_bytes(x.handle_0.0, o) + u32_bytes(x.handle_0.1, o) + u32_bytes(x.handle_0.2, o) + u32_bytes(x.handle_1.0, o) + u32_bytes(x.handle_1.1, o) + u32_bytes(x.handle_1.2, o));
        assert(x.wire(o).subrange(36, 40) == u32_bytes(x.unknown, o));
        lemma_concat_split(u32_bytes(x.point.0, o) + u32_bytes(x.point.1, o) + u32_bytes(x.point.2, o) + u32_bytes(x.handle_0.0, o) + u32_bytes(x.handle_0.1, o) + u32_bytes(x.handle_0.2, o) + u32_bytes(x.handle_1.0, o) + u32_bytes(x.handle_1.1, o), u32_bytes(x.handle_1.2, o));
        lemma_subrange_of_subrange(x.wire(o), 0, 36, 0, 32);
        lemma_subrange_of_subrange(x.wire(o), 0, 36, 32, 36);
        assert(x.wire(o).subrange(0, 32) == u32_bytes(x.point.0, o) + u32_bytes(x.point.1, o) + u32_bytes(x.point.2, o) + u32_bytes(x.handle_0.0, o) + u32_bytes(x.handle_0.1, o) + u32_bytes(x.handle_0.2, o) + u32_bytes(x.handle_1.0, o) + u32_bytes(x.handle_1.1, o));
        assert(x.wire(o).subrange(32, 36) == u32_bytes(x.handle_1.2, o));
        lemma_concat_split(u32_bytes(x.point.0, o) + u32_bytes(x.point.1, o) + u32_bytes(x.point.2, o) + u32_bytes(x.handle_0.0, o) + u32_bytes(x.handle_0.1, o) + u32_bytes(x.handle_0.2, o) + u32_bytes(x.handle_1.0, o), u32_bytes(x.handle_1.1, o));
        lemma_subrange_of_subrange(x.wire(o), 0, 32, 0, 28);
        lemma_subrange_of_subrange(x.wire(o), 0, 32, 28, 32);
        assert(x.wire(o).subrange(0, 28) == u32_bytes(x.point.0, o) + u32_bytes(x.point.1, o) + u32_bytes(x.point.2, o) + u32_bytes(x.handle_0.0, o) + u32_bytes(x.handle_0.1, o) + u32_bytes(x.handle_0.2, o) + u32_bytes(x.handle_1.0, o));
        assert(x.wire(o).subrange(28, 32) == u32_bytes(x.handle_1.1, o));
        lemma_concat_split(u32_bytes(x.point.0, o) + u32_bytes(x.point.1, o) + u32_bytes(x.point.2, o) + u32_bytes(x.handle_0.0, o) + u32_bytes(x.handle_0.1, o) + u32_bytes(x.handle_0.2, o), u32_bytes(x.handle_1.0, o));
        lemma_subrange_of_subrange(x.wire(o), 0, 28, 0, 24);
        lemma_subrange_of_subrange(x.wire(o), 0, 28, 24, 28);
        assert(x.wire(o).subrange(0, 24) == u32_bytes(x.point.0, o) + u32_bytes(x.point.1, o) + u32_bytes(x.point.2, o) + u32_bytes(x.handle_0.0, o) + u32_bytes(x.handle_0.1, o) + u32_bytes(x.handle_0.2, o));
        assert(x.wire(o).subrange(24, 28) == u32_bytes(x.handle_1.0, o));
        lemma_concat_split(u32_bytes(x.point.0, o) + u32_bytes(x.point.1, o) + u32_bytes(x.point.2, o) + u32_bytes(x.handle_0.0, o) + u32_bytes(x.handle_0.1, o), u32_bytes(x.handle_0.2, o));
        lemma_subrange_of_subrange(x.wire(o), 0, 24, 0, 20);
        lemma_subrange_of_subrange(x.wire(o), 0, 24, 20, 24);
        assert(x.wire(o).subrange(0, 20) == u32_bytes(x.point.0, o) + u32_bytes(x.point.1, o) + u32_bytes(x.point.2, o) + u32_bytes(x.handle_0.0, o) + u32_bytes(x.handle_0.1, o));
        assert(x.wire(o).subrange(20, 24) == u32_bytes(x.handle_0.2, o));
        lemma_concat_split(u32_bytes(x.point.0, o) + u32_bytes(x.point.1, o) + u32_bytes(x.point.2, o) + u32_bytes(x.handle_0.0, o), u32_bytes(x.handle_0.1, o));
        lemma_subrange_of_subrange(x.wire(o), 0, 20, 0, 16);
        lemma_subrange_of_subrange(x.wire(o), 0, 20, 16, 20);
        assert(x.wire(o).subrange(0, 16) == u32_bytes(x.point.0, o) + u32_bytes(x.point.1, o) + u32_bytes(x.point.2, o) + u32_bytes(x.handle_0.0, o));
        assert(x.wire(o).subrange(16, 20) == u32_bytes(x.handle_0.1, o));
        lemma_concat_split(u32_bytes(x.point.0, o) + u32_bytes(x.point.1, o) + u32_bytes(x.point.2, o), u32_bytes(x.handle_0.0, o));
        lemma_subrange_of_subrange(x.wire(o), 0, 16, 0, 12);
        lemma_subrange_of_subrange(x.wire(o), 0, 16, 12, 16);
        assert(x.wire(o).subrange(0, 12) == u32_bytes(x.point.0, o) + u32_bytes(x.point.1, o) + u32_bytes(x.point.2, o));
        assert(x.wire(o).subrange(12, 16) == u32_bytes(x.handle_0.0, o));
        lemma_concat_split(u32_bytes(x.point.0, o) + u32_bytes(x.point.1, o), u32_bytes(x.point.2, o));
        lemma_subrange_of_subrange(x.wire(o), 0, 12, 0, 8);
        lemma_subrange_of_subrange(x.wire(o), 0, 12, 8, 12);
        assert(x.wire(o).subrange(0, 8) == u32_bytes(x.point.0, o) + u32_bytes(x.point.1, o));
        assert(x.wire(o).subrange(8, 12) == u32_bytes(x.point.2, o));
        lemma_concat_split(u32_bytes(x.point.0, o), u32_bytes(x.point.1, o));
        lemma_subrange_of_subrange(x.wire(o), 0, 8, 0, 4);
        lemma_subrange_of_subrange(x.wire(o), 0, 8, 4, 8);
        assert(x.wire(o).subrange(0, 4) == u32_bytes(x.point.0, o));
        assert(x.wire(o).subrange(4, 8) == u32_bytes(x.point.1, o));
        lemma_subrange_of_subrange(data, i, i + 40, 0, 4);
        assert(data.subrange(i, i + 4) == u32_bytes(x.point.0, o));
        lemma_u32_at_of_bytes(data, i, x.point.0, o);
        lemma_subrange_of_subrange(data, i, i + 40, 4, 8);
        assert(data.subrange(i + 4, i + 8) == u32_bytes(x.point.1, o));
        lemma_u32_at_of_bytes(data, i + 4, x.point.1, o);
        lemma_subrange_of_subrange(data, i, i + 40, 8, 12);
        assert(data.subrange(i + 8, i + 12) == u32_bytes(x.point.2, o));
        lemma_u32_at_of_bytes(data, i + 8, x.point.2, o);
        lemma_subrange_of_subrange(data, i, i + 40, 12, 16);
        assert(data.subrange(i + 12, i + 16) == u32_bytes(x.handle_0.0, o));
        lemma_u32_at_of_bytes(data, i + 12, x.handle_0.0, o);
        lemma_subrange_of_subrange(data, i, i + 40, 16, 20);
        assert(data.subrange(i + 16, i + 20) == u32_bytes(x.handle_0.1, o));
        lemma_u32_at_of_bytes(data, i + 16, x.handle_0.1, o);
        lemma_subrange_of_subrange(data, i, i + 40, 20, 24);
        assert(data.subrange(i + 20, i + 24) == u32_bytes(x.handle_0.2, o));
        lemma_u32_at_of_bytes(data, i + 20, x.handle_0.2, o);
        lemma_subrange_of_subrange(data, i, i + 40, 24, 28);
        assert(data.subrange(i + 24, i + 28) == u32_bytes(x.handle_1.0, o));
        lemma_u32_at_of_bytes(data, i + 24, x.handle_1.0, o);
        lemma_subrange_of_subrange(data, i, i + 40, 28, 32);
        assert(data.subrange(i + 28, i + 32) == u32_bytes(x.handle_1.1, o));
        lemma_u32_at_of_bytes(data, i + 28, x.handle_1.1, o);
        lemma_subrange_of_subrange(data, i, i + 40, 32, 36);
        assert(data.subrange(i + 32, i + 36) == u32_bytes(x.handle_1.2, o));
        lemma_u32_at_of_bytes(data, i + 32, x.handle_1.2, o);
        lemma_subrange_of_subrange(data, i, i + 40, 36, 40);
        assert(data.subrange(i + 36, i + 40) == u32_bytes(x.unknown, o));
        lemma_u32_at_of_bytes(data, i + 36, x.unknown, o);
    }

    /// Decode one point at `*pos`; the caller has checked that all forty
    /// bytes are there.
    pub fn read(data: &Vec<u8>, pos: &mut usize, o: ByteOrder) -> (p: CurvePoint)
        requires
            *old(pos) + 40 <= data@.len(),
        ensures
            *final(pos) == *old(pos) + 40,
            p == CurvePoint::decoded_at(data@, *old(pos) as int, o),
            p.wire(o) == data@.subrange(*old(pos) as int, *old(pos) + 40),
    {
        let point_0 = take_u32(data, pos, o);
        let point_1 = take_u32(data, pos, o);
        let point_2 = take_u32(data, pos, o);
        let handle_0_0 = take_u32(data, pos, o);
        let handle_0_1 = take_u32(data, pos, o);
        let handle_0_2 = take_u32(data, pos, o);
        let handle_1_0 = take_u32(data, pos, o);
        let handle_1_1 = take_u32(data, pos, o);
        let handle_1_2 = take_u32(data, pos, o);
        let unknown = take_u32(data, pos, o);
        let p = CurvePoint {
            point: (point_0, point_1, point_2),
            handle_0: (handle_0_0, handle_0_1, handle_0_2),
            handle_1: (handle_1_0, handle_1_1, handle_1_2),
            unknown,
        };
        proof {
            let i = *old(pos) as int;
            lemma_concat_subrange(data@, i, i + 4, i + 8);
            lemma_concat_subrange(data@, i, i + 8, i + 12);
            lemma_concat_subrange(data@, i, i + 12, i + 16);
            lemma_concat_subrange(data@, i, i + 16, i + 20);
            lemma_concat_subrange(data@, i, i + 20, i + 24);
            lemma_concat_subrange(data@, i, i + 24, i + 28);
            lemma_concat_subrange(data@, i, i + 28, i + 32);
            lemma_concat_subrange(data@, i, i + 32, i + 36);
            lemma_concat_subrange(data@, i, i + 36, i + 40);
            assert(p.wire(o) == data@.subrange(i, i + 40));
        }
        p
    }

    /// Encode this point, appending its forty wire bytes to `out`.
    pub fn write(&self, out: &mut Vec<u8>, o: ByteOrder)
        ensures
            final(out)@ == old(out)@ + self.wire(o),
    {
        put_u32(out, self.point.0, o);
        put_u32(out, self.point.1, o);
        put_u32(out, self.point.2, o);
        put_u32(out, self.handle_0.0, o);
        put_u32(out, self.handle_0.1, o);
        put_u32(out, self.handle_0.2, o);
        put_u32(out, self.handle_1.0, o);
        put_u32(out, self.handle_1.1, o);
        put_u32(out, self.handle_1.2, o);
        put_u32(out, self.unknown, o);
        proof {
            assert(out@ =~= old(out)@ + self.wire(o));
        }
    }
}

/// The wire bytes of a run of points, one point after the other.
pub open spec fn points_wire(ps: Seq<CurvePoint>, o: ByteOrder) -> Seq<u8>
    decreases ps.len(),
{
    if ps.len() == 0 {
        Seq::empty()
    } else {
        points_wire(ps.drop_last(), o) + ps.last().wire(o)
    }
}

/// A run of points occupies forty bytes per point.
pub proof fn lemma_points_wire_len(ps: Seq<CurvePoint>, o: ByteOrder)
    ensures
        points_wire(ps, o).len() == 40 * ps.len(),
    decreases ps.len(),
{
    if ps.len() > 0 {
        lemma_points_wire_len(ps.drop_last(), o);
    }
}

/// A curve path: a count-prefixed list of control points.
#[derive(Clone, PartialEq, Eq, Debug)]
pub struct Curve {
    pub points: Vec<CurvePoint>,
}

/// The wire bytes of a curve with the given point sequence: the point
/// count followed by the points. Meaningful when the count fits a `u32`.
pub open spec fn curve_wire(ps: Seq<CurvePoint>, o: ByteOrder) -> Seq<u8> {
    u32_bytes(ps.len() as u32, o) + points_wire(ps, o)
}

/// A curve occupies four bytes for its count plus forty per point.
pub proof fn lemma_curve_wire_len(ps: Seq<CurvePoint>, o: ByteOrder)
    ensures
        curve_wire(ps, o).len() == 4 + 40 * ps.len(),
{
    lemma_points_wire_len(ps, o);
}

impl Curve {
    /// The wire bytes of this curve in byte order `o`: the point count
    /// followed by the points. Meaningful when the count fits a `u32`.
    pub open spec fn wire(self, o: ByteOrder) -> Seq<u8> {
        curve_wire(self.points@, o)
    }

    /// Decode one curve at `*pos`; `None` exactly when the count or one of
    /// the announced points lies beyond the end of the buffer, in which case
    /// `*pos` is unchanged.
    #[verifier::rlimit(60)]
    #[verifier::spinoff_prover]
    pub fn new(data: &Vec<u8>, pos: &mut usize, o: ByteOrder) -> (r: Option<Curve>)
        ensures
            match r {
                Some(c) => {
                    let p = *old(pos) as int;
                    let n = u32_at(data@, p, o) as int;
                    &&& p + 4 <= data@.len()
                    &&& p + 4 + 40 * n <= data@.len()
                    &&& *final(pos) == p + 4 + 40 * n
                    &&& c.points@.len() == n
                    &&& forall|k: int|
                        0 <= k < n ==> c.points@[k] == CurvePoint::decoded_at(
                            data@,
                            p + 4 + 40 * k,
                            o,
                        )
                    &&& c.wire(o) == data@.subrange(p, p + 4 + 40 * n)
                }
                None => {
                    let p = *old(pos) as int;
                    &&& *final(pos) == p
                    &&& (p + 4 > data@.len() || p + 4 + 40 * (u32_at(data@, p, o) as int)
                        > data@.len())
                }
            },
    {
        let start: usize = *pos;
        let dlen: usize = data.len();
        if dlen < 4 || start > dlen - 4 {
            return None;
        }
        let count = take_u32(data, pos, o);
        // Bounds in 64-bit arithmetic: 4 + 40 * count cannot overflow a u64.
        if (count as u64) * 40 > (dlen as u64) - (*pos as u64) {
            *pos = start;
            return None;
        }
        let ghost base = *pos as int;
        let mut points: Vec<CurvePoint> = Vec::new();
        let mut j: usize = 0;
        while j < count as usize
            invariant
                0 <= j <= count,
                base == start + 4,
                start + 4 + 40 * (count as int) <= data@.len(),
                *pos == base + 40 * j,
                points@.len() == j,
                forall|k: int|
                    0 <= k < j ==> points@[k] == CurvePoint::decoded_at(data@, base + 40 * k, o),
                points_wire(points@, o) == data@.subrange(base, base + 40 * j),
            decreases count as int - j,
        {
            let pt = CurvePoint::read(data, pos, o);
            let ghost prepoints = points@;
            points.push(pt);
            j = j + 1;
            proof {
                assert(points@.drop_last() =~= prepoints);
                lemma_concat_subrange(data@, base, base + 40 * (j - 1), base + 40 * j);
                assert(points_wire(points@, o) == data@.subrange(base, base + 40 * j));
            }
        }
        let c = Curve { points };
        proof {
            lemma_concat_subrange(data@, start as int, base, base + 40 * (count as int));
        }
        Some(c)
    }

    /// Encode this curve, appending the count and the points to `out`.
    /// Fails with `CastFailure`, leaving `out` unchanged, exactly when the
    /// point count does not fit the 32-bit count field.
    pub fn write(&self, out: &mut Vec<u8>, o: ByteOrder) -> (r: Result<(), EffError>)
        ensures
            match r {
                Ok(()) => {
                    &&& self.points@.len() <= u32::MAX
                    &&& final(out)@ == old(out)@ + self.wire(o)
                }
                Err(e) => {
                    &&& self.points@.len() > u32::MAX
                    &&& e == EffError::CastFailure
                    &&& final(out)@ == old(out)@
                }
            },
    {
        let n: usize = self.points.len();
        if (n as u64) > (u32::MAX as u64) {
            return Err(EffError::CastFailure);
        }
        put_u32(out, n as u32, o);
        let ghost mark = out@;
        let mut j: usize = 0;
        while j < n
            invariant
                0 <= j <= n,
                n == self.points@.len(),
                out@ == mark + points_wire(self.points@.take(j as int), o),
            decreases n - j,
        {
            self.points[j].write(out, o);
            j = j + 1;
            proof {
                assert(self.points@.take(j as int).drop_last() =~= self.points@.take(j - 1));
                assert(out@ == mark + points_wire(self.points@.take(j as int), o));
            }
        }
        proof {
            assert(self.points@.take(n as int) =~= self.points@);
            assert(out@ =~= old(out)@ + self.wire(o));
        }
        Ok(())
    }
}

} // verus!
