//! Loading a container from a byte stream: the top-level offset table is
//! resolved, then each non-absent slot is decoded with the matching section
//! reader. A slot whose offset is zero decodes to an empty collection,
//! never to an error; a slot whose offset points outside the stream fails
//! with `InvalidOffset`; a section whose announced contents run past the end
//! of the stream fails with `Truncated`. The first failure is propagated at
//! once and no partially built container is ever returned.

use vstd::prelude::*;

use crate::ByteOrder;
use crate::EffError;
use crate::container::{Eff, EffView};
use crate::curve::{Curve, CurvePoint};
use crate::effect::Effect;
use crate::group::{EffectGroup, EffectGroupView, GroupHeader};
use crate::records::{EarLink, TableEntry, TextureMetadata};
use crate::scalar::{get_u32, take_u32, u16_at, u32_at};

verus! {

/// The top-level offset table: a 32-bit slot count followed by that many
/// 32-bit offsets, read from position zero. The container needs the first
/// ten slots, so a table announcing fewer is refused.
pub open spec fn parse_top_offsets(data: Seq<u8>, o: ByteOrder) -> Result<Seq<u32>, EffError> {
    if data.len() < 4 {
        Err(EffError::Truncated)
    } else {
        let c = u32_at(data, 0, o) as int;
        if 4 + 4 * c > data.len() || c < 10 {
            Err(EffError::Truncated)
        } else {
            Ok(Seq::new(c as nat, |k: int| u32_at(data, 4 + 4 * k, o)))
        }
    }
}

/// A plain id-table section at offset `off`: a 32-bit element count
/// followed by that many eight-byte entries. Offset zero means the section
/// is absent and decodes to the empty collection.
pub open spec fn parse_id_table(data: Seq<u8>, off: int, o: ByteOrder) -> Result<
    Seq<TableEntry>,
    EffError,
> {
    if off == 0 {
        Ok(Seq::empty())
    } else if off + 4 > data.len() {
        Err(EffError::InvalidOffset)
    } else {
        let n = u32_at(data, off, o) as int;
        if off + 4 + 8 * n > data.len() {
            Err(EffError::Truncated)
        } else {
            Ok(Seq::new(n as nat, |k: int| TableEntry::decoded_at(data, off + 4 + 8 * k, o)))
        }
    }
}

/// The ear-link section at offset `off`, shaped like an id table with
/// eight-byte ear-link entries.
pub open spec fn parse_ear_links(data: Seq<u8>, off: int, o: ByteOrder) -> Result<
    Seq<EarLink>,
    EffError,
> {
    if off == 0 {
        Ok(Seq::empty())
    } else if off + 4 > data.len() {
        Err(EffError::InvalidOffset)
    } else {
        let n = u32_at(data, off, o) as int;
        if off + 4 + 8 * n > data.len() {
            Err(EffError::Truncated)
        } else {
            Ok(Seq::new(n as nat, |k: int| EarLink::decoded_at(data, off + 4 + 8 * k, o)))
        }
    }
}

/// The offsets of a sub-table at `off`: its 32-bit count, then that many
/// 32-bit displacements, each relative to `off` itself.
pub open spec fn sub_table_offsets(data: Seq<u8>, off: int, o: ByteOrder) -> Seq<u32> {
    Seq::new(u32_at(data, off, o) as nat, |k: int| u32_at(data, off + 4 + 4 * k, o))
}

/// Every texture-metadata record announced by the sub-table lies within the
/// stream.
pub open spec fn all_meta_fit(data: Seq<u8>, base: int, offs: Seq<u32>) -> bool {
    forall|k: int| 0 <= k < offs.len() ==> base + #[trigger] offs[k] + 12 <= data.len()
}

/// The texture-metadata section at offset `off`: a sub-table of relative
/// offsets, one stray count word that the reader consumes after the
/// sub-table, then one twelve-byte record at each announced displacement.
pub open spec fn parse_meta_section(data: Seq<u8>, off: int, o: ByteOrder) -> Result<
    Seq<TextureMetadata>,
    EffError,
> {
    if off == 0 {
        Ok(Seq::empty())
    } else if off + 4 > data.len() {
        Err(EffError::InvalidOffset)
    } else {
        let n = u32_at(data, off, o) as int;
        if off + 8 + 4 * n > data.len() {
            Err(EffError::Truncated)
        } else {
            let offs = sub_table_offsets(data, off, o);
            if !all_meta_fit(data, off, offs) {
                Err(EffError::Truncated)
            } else {
                Ok(
                    Seq::new(
                        n as nat,
                        |k: int| TextureMetadata::decoded_at(data, off + offs[k], o),
                    ),
                )
            }
        }
    }
}

/// An effect group at position `t` lies within the stream: its 37 header
/// bytes, its eleven-byte reserved gap, and all its announced effect
/// records are there. The gap belongs to the record, so even a group that
/// announces no effects occupies 48 bytes.
pub open spec fn group_fits(data: Seq<u8>, t: int, o: ByteOrder) -> bool {
    &&& t + 37 <= data.len()
    &&& t + 48 + 300 * (u16_at(data, t, o) as int) <= data.len()
}

/// The effect group stored at position `t`.
pub open spec fn group_at(data: Seq<u8>, t: int, o: ByteOrder) -> EffectGroupView {
    EffectGroupView {
        header: GroupHeader::decoded_at(data, t + 2, o),
        effects: Seq::new(
            u16_at(data, t, o) as nat,
            |k: int| Effect::decoded_at(data, t + 48 + 300 * k, o),
        ),
    }
}

/// Every effect group announced by the sub-table lies within the stream.
pub open spec fn all_groups_fit(data: Seq<u8>, base: int, offs: Seq<u32>, o: ByteOrder) -> bool {
    forall|k: int| 0 <= k < offs.len() ==> group_fits(data, base + #[trigger] offs[k], o)
}

/// An effect-group section at offset `off`: a sub-table of relative
/// offsets, then one variably-sized group at each announced displacement.
pub open spec fn parse_effects_section(data: Seq<u8>, off: int, o: ByteOrder) -> Result<
    Seq<EffectGroupView>,
    EffError,
> {
    if off == 0 {
        Ok(Seq::empty())
    } else if off + 4 > data.len() {
        Err(EffError::InvalidOffset)
    } else {
        let n = u32_at(data, off, o) as int;
        if off + 4 + 4 * n > data.len() {
            Err(EffError::Truncated)
        } else {
            let offs = sub_table_offsets(data, off, o);
            if !all_groups_fit(data, off, offs, o) {
                Err(EffError::Truncated)
            } else {
                Ok(Seq::new(n as nat, |k: int| group_at(data, off + offs[k], o)))
            }
        }
    }
}

/// A curve at position `t` lies within the stream: its count word is there
/// and so are all its announced forty-byte points.
pub open spec fn curve_fits(data: Seq<u8>, t: int, o: ByteOrder) -> bool {
    &&& t + 4 <= data.len()
    &&& t + 4 + 40 * (u32_at(data, t, o) as int) <= data.len()
}

/// The point sequence of the curve stored at position `t`.
pub open spec fn curve_at(data: Seq<u8>, t: int, o: ByteOrder) -> Seq<CurvePoint> {
    Seq::new(u32_at(data, t, o) as nat, |k: int| CurvePoint::decoded_at(data, t + 4 + 40 * k, o))
}

/// Every curve announced by the sub-table lies within the stream.
pub open spec fn all_curves_fit(data: Seq<u8>, base: int, offs: Seq<u32>, o: ByteOrder) -> bool {
    forall|k: int| 0 <= k < offs.len() ==> curve_fits(data, base + #[trigger] offs[k], o)
}

/// The curve-path section at offset `off`: a sub-table of relative offsets,
/// one stray count word that the reader consumes after the sub-table, then
/// one count-prefixed curve at each announced displacement.
pub open spec fn parse_paths_section(data: Seq<u8>, off: int, o: ByteOrder) -> Result<
    Seq<Seq<CurvePoint>>,
    EffError,
> {
    if off == 0 {
        Ok(Seq::empty())
    } else if off + 4 > data.len() {
        Err(EffError::InvalidOffset)
    } else {
        let n = u32_at(data, off, o) as int;
        if off + 8 + 4 * n > data.len() {
            Err(EffError::Truncated)
        } else {
            let offs = sub_table_offsets(data, off, o);
            if !all_curves_fit(data, off, offs, o) {
                Err(EffError::Truncated)
            } else {
                Ok(Seq::new(n as nat, |k: int| curve_at(data, off + offs[k], o)))
            }
        }
    }
}

/// The whole container read from `data` in byte order `o`: resolve the
/// top-level table, then decode the nine data slots in their fixed order
/// (slots five and ten are reserved padding and carry nothing). The first
/// failing section decides the error.
pub open spec fn spec_load(data: Seq<u8>, o: ByteOrder) -> Result<EffView, EffError> {
    let top = parse_top_offsets(data, o);
    if top is Err {
        Err(top->Err_0)
    } else {
        let offs = top->Ok_0;
        let t0 = parse_id_table(data, offs[0] as int, o);
        let t1 = parse_id_table(data, offs[1] as int, o);
        let t2 = parse_ear_links(data, offs[2] as int, o);
        let t3 = parse_id_table(data, offs[3] as int, o);
        let t4 = parse_id_table(data, offs[4] as int, o);
        let t6 = parse_meta_section(data, offs[6] as int, o);
        let t7 = parse_effects_section(data, offs[7] as int, o);
        let t8 = parse_effects_section(data, offs[8] as int, o);
        let t9 = parse_paths_section(data, offs[9] as int, o);
        if t0 is Err {
            Err(t0->Err_0)
        } else if t1 is Err {
            Err(t1->Err_0)
        } else if t2 is Err {
            Err(t2->Err_0)
        } else if t3 is Err {
            Err(t3->Err_0)
        } else if t4 is Err {
            Err(t4->Err_0)
        } else if t6 is Err {
            Err(t6->Err_0)
        } else if t7 is Err {
            Err(t7->Err_0)
        } else if t8 is Err {
            Err(t8->Err_0)
        } else if t9 is Err {
            Err(t9->Err_0)
        } else {
            Ok(
                EffView {
                    texture_ids: t0->Ok_0,
                    core_ids: t1->Ok_0,
                    ear_links: t2->Ok_0,
                    unknown_table: t3->Ok_0,
                    model_ids: t4->Ok_0,
                    tpls_metadata: t6->Ok_0,
                    effects_0: t7->Ok_0,
                    effects_1: t8->Ok_0,
                    paths: t9->Ok_0,
                },
            )
        }
    }
}

impl Eff {
    /// Read the top-level offset table from the head of the stream.
    fn load_offsets(data: &Vec<u8>, o: ByteOrder) -> (r: Result<Vec<u32>, EffError>)
        ensures
            match r {
                Ok(v) => parse_top_offsets(data@, o) == Ok::<Seq<u32>, EffError>(v@),
                Err(e) => parse_top_offsets(data@, o) == Err::<Seq<u32>, EffError>(e),
            },
    {
        let mut pos: usize = 0;
        let count = match get_u32(data, &mut pos, o) {
            Some(c) => c,
            None => {
                return Err(EffError::Truncated);
            }
        };
        let mut offs: Vec<u32> = Vec::new();
        let mut j: usize = 0;
        while j < count as usize
            invariant
                0 <= j <= count,
                pos == 4 + 4 * j,
                4 + 4 * j <= data@.len(),
                count == u32_at(data@, 0, o),
                offs@.len() == j,
                forall|k: int| 0 <= k < j ==> offs@[k] == u32_at(data@, 4 + 4 * k, o),
            decreases count as int - j,
        {
            let w = match get_u32(data, &mut pos, o) {
                Some(w) => w,
                None => {
                    return Err(EffError::Truncated);
                }
            };
            offs.push(w);
            j = j + 1;
        }
        if count < 10 {
            return Err(EffError::Truncated);
        }
        proof {
            assert(offs@ =~= Seq::new(count as nat, |k: int| u32_at(data@, 4 + 4 * k, o)));
        }
        Ok(offs)
    }

    /// Load a plain id table from slot offset `off`.
    fn load_table(data: &Vec<u8>, off: u32, o: ByteOrder) -> (r: Result<Vec<TableEntry>, EffError>)
        ensures
            off == 0 ==> (r is Ok && r->Ok_0@.len() == 0),
            match r {
                Ok(v) => parse_id_table(data@, off as int, o) == Ok::<Seq<TableEntry>, EffError>(
                    v@,
                ),
                Err(e) => parse_id_table(data@, off as int, o) == Err::<Seq<TableEntry>, EffError>(
                    e,
                ),
            },
    {
        let mut result: Vec<TableEntry> = Vec::new();
        if off == 0 {
            proof {
                assert(result@ =~= Seq::<TableEntry>::empty());
            }
            return Ok(result);
        }
        let dlen: usize = data.len();
        if (off as u64) + 4 > (dlen as u64) {
            return Err(EffError::InvalidOffset);
        }
        let mut pos: usize = off as usize;
        let count = take_u32(data, &mut pos, o);
        let mut j: usize = 0;
        while j < count as usize
            invariant
                off != 0,
                0 <= j <= count,
                pos == off + 4 + 8 * j,
                pos <= data@.len(),
                count == u32_at(data@, off as int, o),
                result@.len() == j,
                forall|k: int|
                    0 <= k < j ==> result@[k] == TableEntry::decoded_at(
                        data@,
                        off + 4 + 8 * k,
                        o,
                    ),
            decreases count as int - j,
        {
            let e = match TableEntry::new(data, &mut pos, o) {
                Some(e) => e,
                None => {
                    return Err(EffError::Truncated);
                }
            };
            result.push(e);
            j = j + 1;
        }
        proof {
            assert(result@ =~= Seq::new(
                count as nat,
                |k: int| TableEntry::decoded_at(data@, off + 4 + 8 * k, o),
            ));
        }
        Ok(result)
    }

    /// Load the ear-link table from slot offset `off`.
    fn load_ear_links(data: &Vec<u8>, off: u32, o: ByteOrder) -> (r: Result<Vec<EarLink>, EffError>)
        ensures
            off == 0 ==> (r is Ok && r->Ok_0@.len() == 0),
            match r {
                Ok(v) => parse_ear_links(data@, off as int, o) == Ok::<Seq<EarLink>, EffError>(v@),
                Err(e) => parse_ear_links(data@, off as int, o) == Err::<Seq<EarLink>, EffError>(
                    e,
                ),
            },
    {
        let mut result: Vec<EarLink> = Vec::new();
        if off == 0 {
            proof {
                assert(result@ =~= Seq::<EarLink>::empty());
            }
            return Ok(result);
        }
        let dlen: usize = data.len();
        if (off as u64) + 4 > (dlen as u64) {
            return Err(EffError::InvalidOffset);
        }
        let mut pos: usize = off as usize;
        let count = take_u32(data, &mut pos, o);
        let mut j: usize = 0;
        while j < count as usize
            invariant
                off != 0,
                0 <= j <= count,
                pos == off + 4 + 8 * j,
                pos <= data@.len(),
                count == u32_at(data@, off as int, o),
                result@.len() == j,
                forall|k: int|
                    0 <= k < j ==> result@[k] == EarLink::decoded_at(data@, off + 4 + 8 * k, o),
            decreases count as int - j,
        {
            let e = match EarLink::new(data, &mut pos, o) {
                Some(e) => e,
                None => {
                    return Err(EffError::Truncated);
                }
            };
            result.push(e);
            j = j + 1;
        }
        proof {
            assert(result@ =~= Seq::new(
                count as nat,
                |k: int| EarLink::decoded_at(data@, off + 4 + 8 * k, o),
            ));
        }
        Ok(result)
    }

    /// Read a sub-table at `*pos`: its count, then that many relative
    /// offsets.
    fn load_sub_offsets(data: &Vec<u8>, pos: &mut usize, o: ByteOrder) -> (r: Result<
        Vec<u32>,
        EffError,
    >)
        ensures
            match r {
                Ok(v) => {
                    &&& *old(pos) + 4 <= data@.len()
                    &&& *old(pos) + 4 + 4 * v@.len() <= data@.len()
                    &&& v@ == sub_table_offsets(data@, *old(pos) as int, o)
                    &&& *final(pos) == *old(pos) + 4 + 4 * v@.len()
                }
                Err(e) => {
                    &&& e == EffError::Truncated
                    &&& *old(pos) + 4 > data@.len() || *old(pos) + 4 + 4 * (u32_at(
                        data@,
                        *old(pos) as int,
                        o,
                    ) as int) > data@.len()
                }
            },
    {
        let start: usize = *pos;
        let count = match get_u32(data, pos, o) {
            Some(c) => c,
            None => {
                return Err(EffError::Truncated);
            }
        };
        let mut offs: Vec<u32> = Vec::new();
        let mut j: usize = 0;
        while j < count as usize
            invariant
                start == *old(pos),
                0 <= j <= count,
                *pos == start + 4 + 4 * j,
                start + 4 + 4 * j <= data@.len(),
                count == u32_at(data@, start as int, o),
                offs@.len() == j,
                forall|k: int| 0 <= k < j ==> offs@[k] == u32_at(data@, start + 4 + 4 * k, o),
            decreases count as int - j,
        {
            let w = match get_u32(data, pos, o) {
                Some(w) => w,
                None => {
                    return Err(EffError::Truncated);
                }
            };
            offs.push(w);
            j = j + 1;
        }
        proof {
            assert(offs@ =~= sub_table_offsets(data@, start as int, o));
        }
        Ok(offs)
    }

    /// Load the texture-metadata section from slot offset `off`.
    fn load_tpls_metadata(data: &Vec<u8>, off: u32, o: ByteOrder) -> (r: Result<
        Vec<TextureMetadata>,
        EffError,
    >)
        ensures
            off == 0 ==> (r is Ok && r->Ok_0@.len() == 0),
            match r {
                Ok(v) => parse_meta_section(data@, off as int, o) == Ok::<
                    Seq<TextureMetadata>,
                    EffError,
                >(v@),
                Err(e) => parse_meta_section(data@, off as int, o) == Err::<
                    Seq<TextureMetadata>,
                    EffError,
                >(e),
            },
    {
        let mut result: Vec<TextureMetadata> = Vec::new();
        if off == 0 {
            proof {
                assert(result@ =~= Seq::<TextureMetadata>::empty());
            }
            return Ok(result);
        }
        let dlen: usize = data.len();
        if (off as u64) + 4 > (dlen as u64) {
            return Err(EffError::InvalidOffset);
        }
        let mut pos: usize = off as usize;
        let offs = match Eff::load_sub_offsets(data, &mut pos, o) {
            Ok(v) => v,
            Err(e) => {
                return Err(e);
            }
        };
        // The format carries one stray count word after this sub-table; it
        // is consumed and ignored, and a stream that ends before it is
        // refused.
        if get_u32(data, &mut pos, o).is_none() {
            return Err(EffError::Truncated);
        }
        let n: usize = offs.len();
        let mut j: usize = 0;
        while j < n
            invariant
                off != 0,
                off + 8 + 4 * offs@.len() <= data@.len(),
                0 <= j <= n,
                n == offs@.len(),
                offs@ == sub_table_offsets(data@, off as int, o),
                result@.len() == j,
                forall|k: int|
                    0 <= k < j ==> (off + #[trigger] offs@[k] + 12 <= data@.len()
                        && result@[k] == TextureMetadata::decoded_at(data@, off + offs@[k], o)),
            decreases n - j,
        {
            let t64: u64 = (off as u64) + (offs[j] as u64);
            if t64 + 12 > (data.len() as u64) {
                return Err(EffError::Truncated);
            }
            let mut rp: usize = t64 as usize;
            let m = match TextureMetadata::new(data, &mut rp, o) {
                Some(m) => m,
                None => {
                    return Err(EffError::Truncated);
                }
            };
            result.push(m);
            j = j + 1;
        }
        proof {
            assert(all_meta_fit(data@, off as int, offs@));
            assert(result@ =~= Seq::new(
                offs@.len(),
                |k: int| TextureMetadata::decoded_at(data@, off + offs@[k], o),
            ));
        }
        Ok(result)
    }

    /// Load one effect-group section from slot offset `off`.
    fn load_effects(data: &Vec<u8>, off: u32, o: ByteOrder) -> (r: Result<
        Vec<EffectGroup>,
        EffError,
    >)
        ensures
            off == 0 ==> (r is Ok && r->Ok_0@.len() == 0),
            match r {
                Ok(v) => parse_effects_section(data@, off as int, o) == Ok::<
                    Seq<EffectGroupView>,
                    EffError,
                >(v@.map_values(|g: EffectGroup| g@)),
                Err(e) => parse_effects_section(data@, off as int, o) == Err::<
                    Seq<EffectGroupView>,
                    EffError,
                >(e),
            },
    {
        let mut result: Vec<EffectGroup> = Vec::new();
        if off == 0 {
            proof {
                assert(result@.map_values(|g: EffectGroup| g@) =~= Seq::<
                    EffectGroupView,
                >::empty());
            }
            return Ok(result);
        }
        let dlen: usize = data.len();
        if (off as u64) + 4 > (dlen as u64) {
            return Err(EffError::InvalidOffset);
        }
        let mut pos: usize = off as usize;
        let offs = match Eff::load_sub_offsets(data, &mut pos, o) {
            Ok(v) => v,
            Err(e) => {
                return Err(e);
            }
        };
        let n: usize = offs.len();
        let mut j: usize = 0;
        while j < n
            invariant
                off != 0,
                off + 4 + 4 * offs@.len() <= data@.len(),
                0 <= j <= n,
                n == offs@.len(),
                offs@ == sub_table_offsets(data@, off as int, o),
                result@.len() == j,
                forall|k: int|
                    0 <= k < j ==> (group_fits(data@, off + #[trigger] offs@[k], o)
                        && result@.map_values(|g: EffectGroup| g@)[k] == group_at(
                        data@,
                        off + offs@[k],
                        o,
                    )),
            decreases n - j,
        {
            let t64: u64 = (off as u64) + (offs[j] as u64);
            if t64 + 37 > (data.len() as u64) {
                return Err(EffError::Truncated);
            }
            let mut rp: usize = t64 as usize;
            let g = match EffectGroup::new(data, &mut rp, o) {
                Some(g) => g,
                None => {
                    return Err(EffError::Truncated);
                }
            };
            let ghost pre = result@;
            result.push(g);
            j = j + 1;
            proof {
                assert(g@.effects =~= group_at(data@, (off + offs@[j - 1]) as int, o).effects);
                assert(g@ =~= group_at(data@, (off + offs@[j - 1]) as int, o));
                assert(result@.map_values(|g: EffectGroup| g@) =~= pre.map_values(
                    |g: EffectGroup| g@,
                ) + seq![g@]);
            }
        }
        proof {
            assert(all_groups_fit(data@, off as int, offs@, o));
            assert(result@.map_values(|g: EffectGroup| g@) =~= Seq::new(
                offs@.len(),
                |k: int| group_at(data@, off + offs@[k], o),
            ));
        }
        Ok(result)
    }

    /// Load the curve-path section from slot offset `off`.
    fn load_paths(data: &Vec<u8>, off: u32, o: ByteOrder) -> (r: Result<Vec<Curve>, EffError>)
        ensures
            off == 0 ==> (r is Ok && r->Ok_0@.len() == 0),
            match r {
                Ok(v) => parse_paths_section(data@, off as int, o) == Ok::<
                    Seq<Seq<CurvePoint>>,
                    EffError,
                >(v@.map_values(|c: Curve| c.points@)),
                Err(e) => parse_paths_section(data@, off as int, o) == Err::<
                    Seq<Seq<CurvePoint>>,
                    EffError,
                >(e),
            },
    {
        let mut result: Vec<Curve> = Vec::new();
        if off == 0 {
            proof {
                assert(result@.map_values(|c: Curve| c.points@) =~= Seq::<
                    Seq<CurvePoint>,
                >::empty());
            }
            return Ok(result);
        }
        let dlen: usize = data.len();
        if (off as u64) + 4 > (dlen as u64) {
            return Err(EffError::InvalidOffset);
        }
        let mut pos: usize = off as usize;
        let offs = match Eff::load_sub_offsets(data, &mut pos, o) {
            Ok(v) => v,
            Err(e) => {
                return Err(e);
            }
        };
        // The stray count word, exactly as in the metadata section.
        if get_u32(data, &mut pos, o).is_none() {
            return Err(EffError::Truncated);
        }
        let n: usize = offs.len();
        let mut j: usize = 0;
        while j < n
            invariant
                off != 0,
                off + 8 + 4 * offs@.len() <= data@.len(),
                0 <= j <= n,
                n == offs@.len(),
                offs@ == sub_table_offsets(data@, off as int, o),
                result@.len() == j,
                forall|k: int|
                    0 <= k < j ==> (curve_fits(data@, off + #[trigger] offs@[k], o)
                        && result@.map_values(|c: Curve| c.points@)[k] == curve_at(
                        data@,
                        off + offs@[k],
                        o,
                    )),
            decreases n - j,
        {
            let t64: u64 = (off as u64) + (offs[j] as u64);
            if t64 + 4 > (data.len() as u64) {
                return Err(EffError::Truncated);
            }
            let mut rp: usize = t64 as usize;
            let c = match Curve::new(data, &mut rp, o) {
                Some(c) => c,
                None => {
                    return Err(EffError::Truncated);
                }
            };
            let ghost pre = result@;
            result.push(c);
            j = j + 1;
            proof {
                assert(c.points@ =~= curve_at(data@, (off + offs@[j - 1]) as int, o));
                assert(result@.map_values(|c: Curve| c.points@) =~= pre.map_values(
                    |c: Curve| c.points@,
                ) + seq![c.points@]);
            }
        }
        proof {
            assert(all_curves_fit(data@, off as int, offs@, o));
            assert(result@.map_values(|c: Curve| c.points@) =~= Seq::new(
                offs@.len(),
                |k: int| curve_at(data@, off + offs@[k], o),
            ));
        }
        Ok(result)
    }

    /// Decode a whole container from `data` in byte order `o`. The result
    /// is exactly what `spec_load` says: a container whose nine collections
    /// are the decoded sections, or the first error the stream forces.
    pub fn new(data: &Vec<u8>, o: ByteOrder) -> (r: Result<Eff, EffError>)
        ensures
            match r {
                Ok(c) => spec_load(data@, o) == Ok::<EffView, EffError>(c@),
                Err(e) => spec_load(data@, o) == Err::<EffView, EffError>(e),
            },
    {
        let offsets = match Eff::load_offsets(data, o) {
            Ok(v) => v,
            Err(e) => {
                return Err(e);
            }
        };
        proof {
            assert(offsets@.len() >= 10);
        }
        let texture_ids = match Eff::load_table(data, offsets[0], o) {
            Ok(v) => v,
            Err(e) => {
                return Err(e);
            }
        };
        let core_ids = match Eff::load_table(data, offsets[1], o) {
            Ok(v) => v,
            Err(e) => {
                return Err(e);
            }
        };
        let ear_links = match Eff::load_ear_links(data, offsets[2], o) {
            Ok(v) => v,
            Err(e) => {
                return Err(e);
            }
        };
        let unknown_table = match Eff::load_table(data, offsets[3], o) {
            Ok(v) => v,
            Err(e) => {
                return Err(e);
            }
        };
        let model_ids = match Eff::load_table(data, offsets[4], o) {
            Ok(v) => v,
            Err(e) => {
                return Err(e);
            }
        };
        let tpls_metadata = match Eff::load_tpls_metadata(data, offsets[6], o) {
            Ok(v) => v,
            Err(e) => {
                return Err(e);
            }
        };
        let effects_0 = match Eff::load_effects(data, offsets[7], o) {
            Ok(v) => v,
            Err(e) => {
                return Err(e);
            }
        };
        let effects_1 = match Eff::load_effects(data, offsets[8], o) {
            Ok(v) => v,
            Err(e) => {
                return Err(e);
            }
        };
        let paths = match Eff::load_paths(data, offsets[9], o) {
            Ok(v) => v,
            Err(e) => {
                return Err(e);
            }
        };
        let c = Eff {
            texture_ids,
            core_ids,
            ear_links,
            unknown_table,
            model_ids,
            tpls_metadata,
            effects_0,
            effects_1,
            paths,
        };
        proof {
            assert(spec_load(data@, o)->Ok_0 =~= c@);
        }
        Ok(c)
    }
}

/// A top-level offset of zero means the section is absent: every section
/// parser maps offset zero to an empty collection, never to an error.
pub proof fn lemma_zero_offset_is_empty(data: Seq<u8>, o: ByteOrder)
    ensures
        parse_id_table(data, 0, o) == Ok::<Seq<TableEntry>, EffError>(Seq::empty()),
        parse_ear_links(data, 0, o) == Ok::<Seq<EarLink>, EffError>(Seq::empty()),
        parse_meta_section(data, 0, o) == Ok::<Seq<TextureMetadata>, EffError>(Seq::empty()),
        parse_effects_section(data, 0, o) == Ok::<Seq<EffectGroupView>, EffError>(Seq::empty()),
        parse_paths_section(data, 0, o) == Ok::<Seq<Seq<CurvePoint>>, EffError>(Seq::empty()),
{
}

/// In a successfully loaded container, every slot whose top-level offset is
/// zero contributes an empty collection.
pub proof fn lemma_absent_slots_decode_empty(data: Seq<u8>, o: ByteOrder)
    requires
        spec_load(data, o) is Ok,
    ensures
        ({
            let offs = parse_top_offsets(data, o)->Ok_0;
            let m = spec_load(data, o)->Ok_0;
            &&& offs[0] == 0 ==> m.texture_ids == Seq::<TableEntry>::empty()
            &&& offs[1] == 0 ==> m.core_ids == Seq::<TableEntry>::empty()
            &&& offs[2] == 0 ==> m.ear_links == Seq::<EarLink>::empty()
            &&& offs[3] == 0 ==> m.unknown_table == Seq::<TableEntry>::empty()
            &&& offs[4] == 0 ==> m.model_ids == Seq::<TableEntry>::empty()
            &&& offs[6] == 0 ==> m.tpls_metadata == Seq::<TextureMetadata>::empty()
            &&& offs[7] == 0 ==> m.effects_0 == Seq::<EffectGroupView>::empty()
            &&& offs[8] == 0 ==> m.effects_1 == Seq::<EffectGroupView>::empty()
            &&& offs[9] == 0 ==> m.paths == Seq::<Seq<CurvePoint>>::empty()
        }),
{
}

/// Every failure of a section parser is a truncation or an invalid-offset
/// error; the decoder produces no other kind.
pub proof fn lemma_section_errors(data: Seq<u8>, off: int, o: ByteOrder)
    ensures
        parse_id_table(data, off, o) is Err ==> (parse_id_table(data, off, o)->Err_0
            == EffError::Truncated || parse_id_table(data, off, o)->Err_0
            == EffError::InvalidOffset),
        parse_ear_links(data, off, o) is Err ==> (parse_ear_links(data, off, o)->Err_0
            == EffError::Truncated || parse_ear_links(data, off, o)->Err_0
            == EffError::InvalidOffset),
        parse_meta_section(data, off, o) is Err ==> (parse_meta_section(data, off, o)->Err_0
            == EffError::Truncated || parse_meta_section(data, off, o)->Err_0
            == EffError::InvalidOffset),
        parse_effects_section(data, off, o) is Err ==> (parse_effects_section(data, off, o)->Err_0
            == EffError::Truncated || parse_effects_section(data, off, o)->Err_0
            == EffError::InvalidOffset),
        parse_paths_section(data, off, o) is Err ==> (parse_paths_section(data, off, o)->Err_0
            == EffError::Truncated || parse_paths_section(data, off, o)->Err_0
            == EffError::InvalidOffset),
{
}

/// A non-zero top-level offset that points past the end of the stream makes
/// the whole decode fail with a truncation or invalid-offset error; it is
/// never silently treated as an absent or shortened section.
pub proof fn lemma_offset_past_end_fails(data: Seq<u8>, o: ByteOrder, i: int)
    requires
        parse_top_offsets(data, o) is Ok,
        0 <= i <= 9,
        i != 5,
        parse_top_offsets(data, o)->Ok_0[i] != 0,
        parse_top_offsets(data, o)->Ok_0[i] + 4 > data.len(),
    ensures
        spec_load(data, o) is Err,
        spec_load(data, o)->Err_0 == EffError::Truncated || spec_load(data, o)->Err_0
            == EffError::InvalidOffset,
{
    let offs = parse_top_offsets(data, o)->Ok_0;
    lemma_section_errors(data, offs[0] as int, o);
    lemma_section_errors(data, offs[1] as int, o);
    lemma_section_errors(data, offs[2] as int, o);
    lemma_section_errors(data, offs[3] as int, o);
    lemma_section_errors(data, offs[4] as int, o);
    lemma_section_errors(data, offs[6] as int, o);
    lemma_section_errors(data, offs[7] as int, o);
    lemma_section_errors(data, offs[8] as int, o);
    lemma_section_errors(data, offs[9] as int, o);
    if i == 0 {
        assert(parse_id_table(data, offs[0] as int, o) is Err);
    } else if i == 1 {
        assert(parse_id_table(data, offs[1] as int, o) is Err);
    } else if i == 2 {
        assert(parse_ear_links(data, offs[2] as int, o) is Err);
    } else if i == 3 {
        assert(parse_id_table(data, offs[3] as int, o) is Err);
    } else if i == 4 {
        assert(parse_id_table(data, offs[4] as int, o) is Err);
    } else if i == 6 {
        assert(parse_meta_section(data, offs[6] as int, o) is Err);
    } else if i == 7 {
        assert(parse_effects_section(data, offs[7] as int, o) is Err);
    } else if i == 8 {
        assert(parse_effects_section(data, offs[8] as int, o) is Err);
    } else {
        assert(parse_paths_section(data, offs[9] as int, o) is Err);
    }
}

} // verus!
