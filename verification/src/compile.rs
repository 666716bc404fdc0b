//! Compiling a container back to bytes: the eleven-slot header is reserved,
//! the nine sections are written consecutively from offset 0x40 with every
//! section boundary aligned to 32 bytes, the two reserved slots are emitted
//! as eight zero words each, and the finished offset table is backfilled
//! over the reserved header. Sections with their own sub-tables follow the
//! same reserve-write-backfill protocol relative to their own start. All
//! padding and reserved gaps are zero-filled, so compilation is a pure
//! function of the container and the byte order.

use vstd::prelude::*;

use crate::ByteOrder;
use crate::container::{lemma_align, lemma_align_shift, spec_align, Eff, EffView};
use crate::curve::{curve_wire, lemma_curve_wire_len, Curve, CurvePoint};
use crate::group::{EffectGroup, EffectGroupView};
use crate::records::{
    ear_entries_wire, id_entries_wire, EarLink, TableEntry, TextureMetadata,
};
use crate::scalar::{
    lemma_u32_words_len, patch_u32_words, push_zeros, put_u32, set_u32_at, u32_bytes, u32_words,
    zero_bytes,
};

verus! {

/// `s` padded with zero bytes to the next 32-byte boundary.
pub open spec fn pad32(s: Seq<u8>) -> Seq<u8> {
    s + zero_bytes(spec_align(s.len() as int) - s.len())
}

/// The bytes of a plain id-table section: the element count followed by the
/// entries. `None` exactly when the count does not fit its 32-bit field.
pub open spec fn sec_id_table(es: Seq<TableEntry>, o: ByteOrder) -> Option<Seq<u8>> {
    if es.len() > u32::MAX {
        None
    } else {
        Some(u32_bytes(es.len() as u32, o) + id_entries_wire(es, o))
    }
}

/// The bytes of the ear-link section: the element count followed by the
/// records. `None` exactly when the count does not fit its 32-bit field.
pub open spec fn sec_ear_links(es: Seq<EarLink>, o: ByteOrder) -> Option<Seq<u8>> {
    if es.len() > u32::MAX {
        None
    } else {
        Some(u32_bytes(es.len() as u32, o) + ear_entries_wire(es, o))
    }
}

/// The record area of the texture-metadata section, laid out from the
/// relative position `rel` (already 32-byte aligned): each record is
/// followed by zero padding to the next boundary. Returns the bytes and the
/// relative offsets of the records; `None` exactly when an offset does not
/// fit its 32-bit field.
pub open spec fn meta_body(ms: Seq<TextureMetadata>, rel: int, o: ByteOrder) -> Option<
    (Seq<u8>, Seq<u32>),
> decreases ms.len() {
    if ms.len() == 0 {
        Some((Seq::empty(), Seq::empty()))
    } else if rel > u32::MAX {
        None
    } else {
        let end = rel + 12;
        let nxt = spec_align(end);
        match meta_body(ms.drop_first(), nxt, o) {
            None => None,
            Some(rest) => Some(
                (ms[0].wire(o) + zero_bytes(nxt - end) + rest.0, seq![rel as u32] + rest.1),
            ),
        }
    }
}

/// The bytes of the texture-metadata section: its sub-table of count and
/// relative offsets, zero padding to the first aligned record position,
/// then the records. `None` when the count or an offset does not fit.
pub open spec fn sec_meta(ms: Seq<TextureMetadata>, o: ByteOrder) -> Option<Seq<u8>> {
    if ms.len() > u32::MAX {
        None
    } else {
        let table_len = 4 * ms.len() + 4;
        let r0 = spec_align(table_len as int);
        match meta_body(ms, r0, o) {
            None => None,
            Some(body) => Some(
                u32_bytes(ms.len() as u32, o) + u32_words(body.1, o) + zero_bytes(r0 - table_len)
                    + body.0,
            ),
        }
    }
}

/// The record area of an effect-group section, as `meta_body` but with
/// variably-sized groups. `None` when an offset does not fit its 32-bit
/// field or a group's effect count does not fit its 16-bit field.
pub open spec fn groups_body(gs: Seq<EffectGroupView>, rel: int, o: ByteOrder) -> Option<
    (Seq<u8>, Seq<u32>),
> decreases gs.len() {
    if gs.len() == 0 {
        Some((Seq::empty(), Seq::empty()))
    } else if rel > u32::MAX || gs[0].effects.len() > u16::MAX {
        None
    } else {
        let end = rel + 48 + 300 * gs[0].effects.len();
        let nxt = spec_align(end);
        match groups_body(gs.drop_first(), nxt, o) {
            None => None,
            Some(rest) => Some(
                (gs[0].wire(o) + zero_bytes(nxt - end) + rest.0, seq![rel as u32] + rest.1),
            ),
        }
    }
}

/// The bytes of an effect-group section. `None` when a count or an offset
/// does not fit its field.
pub open spec fn sec_effects(gs: Seq<EffectGroupView>, o: ByteOrder) -> Option<Seq<u8>> {
    if gs.len() > u32::MAX {
        None
    } else {
        let table_len = 4 * gs.len() + 4;
        let r0 = spec_align(table_len as int);
        match groups_body(gs, r0, o) {
            None => None,
            Some(body) => Some(
                u32_bytes(gs.len() as u32, o) + u32_words(body.1, o) + zero_bytes(r0 - table_len)
                    + body.0,
            ),
        }
    }
}

/// The record area of the curve-path section, as `meta_body` but with
/// variably-sized curves. `None` when an offset or a point count does not
/// fit its 32-bit field.
pub open spec fn curves_body(cs: Seq<Seq<CurvePoint>>, rel: int, o: ByteOrder) -> Option<
    (Seq<u8>, Seq<u32>),
> decreases cs.len() {
    if cs.len() == 0 {
        Some((Seq::empty(), Seq::empty()))
    } else if rel > u32::MAX || cs[0].len() > u32::MAX {
        None
    } else {
        let end = rel + 4 + 40 * cs[0].len();
        let nxt = spec_align(end);
        match curves_body(cs.drop_first(), nxt, o) {
            None => None,
            Some(rest) => Some(
                (curve_wire(cs[0], o) + zero_bytes(nxt - end) + rest.0, seq![rel as u32] + rest.1),
            ),
        }
    }
}

/// The bytes of the curve-path section. `None` when a count or an offset
/// does not fit its field.
pub open spec fn sec_paths(cs: Seq<Seq<CurvePoint>>, o: ByteOrder) -> Option<Seq<u8>> {
    if cs.len() > u32::MAX {
        None
    } else {
        let table_len = 4 * cs.len() + 4;
        let r0 = spec_align(table_len as int);
        match curves_body(cs, r0, o) {
            None => None,
            Some(body) => Some(
                u32_bytes(cs.len() as u32, o) + u32_words(body.1, o) + zero_bytes(r0 - table_len)
                    + body.0,
            ),
        }
    }
}

/// The compiled stream grows section by section; each stage below is the
/// stream after one more section has been written and padded to the next
/// 32-byte boundary. The first stage starts from the reserved 0x40-byte
/// header region; stage six appends the first reserved padding block of
/// eight zero words.
#[verifier::opaque]
pub open spec fn cb1(m: EffView, o: ByteOrder) -> Seq<u8> {
    pad32(zero_bytes(0x40) + sec_id_table(m.texture_ids, o)->Some_0)
}

#[verifier::opaque]
pub open spec fn cb2(m: EffView, o: ByteOrder) -> Seq<u8> {
    pad32(cb1(m, o) + sec_id_table(m.core_ids, o)->Some_0)
}

#[verifier::opaque]
pub open spec fn cb3(m: EffView, o: ByteOrder) -> Seq<u8> {
    pad32(cb2(m, o) + sec_ear_links(m.ear_links, o)->Some_0)
}

#[verifier::opaque]
pub open spec fn cb4(m: EffView, o: ByteOrder) -> Seq<u8> {
    pad32(cb3(m, o) + sec_id_table(m.unknown_table, o)->Some_0)
}

#[verifier::opaque]
pub open spec fn cb5(m: EffView, o: ByteOrder) -> Seq<u8> {
    pad32(cb4(m, o) + sec_id_table(m.model_ids, o)->Some_0)
}

#[verifier::opaque]
pub open spec fn cb6(m: EffView, o: ByteOrder) -> Seq<u8> {
    pad32(cb5(m, o) + zero_bytes(32))
}

#[verifier::opaque]
pub open spec fn cb7(m: EffView, o: ByteOrder) -> Seq<u8> {
    pad32(cb6(m, o) + sec_meta(m.tpls_metadata, o)->Some_0)
}

#[verifier::opaque]
pub open spec fn cb8(m: EffView, o: ByteOrder) -> Seq<u8> {
    pad32(cb7(m, o) + sec_effects(m.effects_0, o)->Some_0)
}

#[verifier::opaque]
pub open spec fn cb9(m: EffView, o: ByteOrder) -> Seq<u8> {
    pad32(cb8(m, o) + sec_effects(m.effects_1, o)->Some_0)
}

#[verifier::opaque]
pub open spec fn cb10(m: EffView, o: ByteOrder) -> Seq<u8> {
    pad32(cb9(m, o) + sec_paths(m.paths, o)->Some_0)
}

/// Each stage is at least as long as the one before it.
pub proof fn lemma_chain_monotone(m: EffView, o: ByteOrder)
    ensures
        zero_bytes(0x40).len() <= cb1(m, o).len(),
        cb1(m, o).len() <= cb2(m, o).len(),
        cb2(m, o).len() <= cb3(m, o).len(),
        cb3(m, o).len() <= cb4(m, o).len(),
        cb4(m, o).len() <= cb5(m, o).len(),
        cb5(m, o).len() <= cb6(m, o).len(),
        cb6(m, o).len() <= cb7(m, o).len(),
        cb7(m, o).len() <= cb8(m, o).len(),
        cb8(m, o).len() <= cb9(m, o).len(),
        cb9(m, o).len() <= cb10(m, o).len(),
{
    reveal(cb1);
    reveal(cb2);
    reveal(cb3);
    reveal(cb4);
    reveal(cb5);
    reveal(cb6);
    reveal(cb7);
    reveal(cb8);
    reveal(cb9);
    reveal(cb10);
    lemma_align((zero_bytes(0x40) + sec_id_table(m.texture_ids, o)->Some_0).len() as int);
    lemma_align((cb1(m, o) + sec_id_table(m.core_ids, o)->Some_0).len() as int);
    lemma_align((cb2(m, o) + sec_ear_links(m.ear_links, o)->Some_0).len() as int);
    lemma_align((cb3(m, o) + sec_id_table(m.unknown_table, o)->Some_0).len() as int);
    lemma_align((cb4(m, o) + sec_id_table(m.model_ids, o)->Some_0).len() as int);
    lemma_align((cb5(m, o) + zero_bytes(32)).len() as int);
    lemma_align((cb6(m, o) + sec_meta(m.tpls_metadata, o)->Some_0).len() as int);
    lemma_align((cb7(m, o) + sec_effects(m.effects_0, o)->Some_0).len() as int);
    lemma_align((cb8(m, o) + sec_effects(m.effects_1, o)->Some_0).len() as int);
    lemma_align((cb9(m, o) + sec_paths(m.paths, o)->Some_0).len() as int);
}

/// The eleven top-level slot offsets of the compiled stream: the fixed
/// first offset 0x40, then the aligned start of each following section.
#[verifier::opaque]
pub open spec fn spec_tops(m: EffView, o: ByteOrder) -> Seq<u32> {
    seq![
        0x40u32,
        cb1(m, o).len() as u32,
        cb2(m, o).len() as u32,
        cb3(m, o).len() as u32,
        cb4(m, o).len() as u32,
        cb5(m, o).len() as u32,
        cb6(m, o).len() as u32,
        cb7(m, o).len() as u32,
        cb8(m, o).len() as u32,
        cb9(m, o).len() as u32,
        cb10(m, o).len() as u32,
    ]
}

/// The whole compiled stream for container `m` in byte order `o`: the
/// eleven-word header, the nine sections in slot order, the two reserved
/// padding blocks of eight zero words, every section start aligned.
/// `None` exactly when a count, an offset, or a section position does not
/// fit its 32-bit field.
pub open spec fn spec_compile(m: EffView, o: ByteOrder) -> Option<Seq<u8>> {
    if sec_id_table(m.texture_ids, o) is None || sec_id_table(m.core_ids, o) is None
        || sec_ear_links(m.ear_links, o) is None || sec_id_table(m.unknown_table, o) is None
        || sec_id_table(m.model_ids, o) is None || sec_meta(m.tpls_metadata, o) is None
        || sec_effects(m.effects_0, o) is None || sec_effects(m.effects_1, o) is None
        || sec_paths(m.paths, o) is None {
        None
    } else if cb10(m, o).len() > u32::MAX {
        None
    } else {
        Some(
            u32_bytes(11u32, o) + u32_words(spec_tops(m, o), o) + (cb10(m, o) + zero_bytes(
                32,
            )).skip(48),
        )
    }
}

/// Compiling is deterministic: equal containers compile to equal bytes in a
/// given byte order, so compiling the same container twice yields
/// byte-identical output.
pub proof fn lemma_compile_deterministic(a: EffView, b: EffView, o: ByteOrder)
    requires
        a == b,
    ensures
        spec_compile(a, o) == spec_compile(b, o),
{
}

/// Append zero bytes to `out` until its length is a multiple of 32; the
/// alignment step between sections and records.
pub fn pad_to_32(out: &mut Vec<u8>)
    ensures
        final(out)@ == pad32(old(out)@),
        final(out)@.len() == spec_align(old(out)@.len() as int),
{
    proof {
        lemma_align(old(out)@.len() as int);
    }
    while out.len() % 32 != 0
        invariant
            old(out)@.len() <= out@.len() <= spec_align(old(out)@.len() as int),
            spec_align(old(out)@.len() as int) % 32 == 0,
            spec_align(old(out)@.len() as int) < old(out)@.len() + 32,
            spec_align(spec_align(old(out)@.len() as int)) == spec_align(old(out)@.len() as int),
            out@ == old(out)@ + zero_bytes(out@.len() - old(out)@.len()),
        decreases spec_align(old(out)@.len() as int) - out@.len(),
    {
        proof {
            lemma_align(out@.len() as int);
            assert(out@.len() < spec_align(old(out)@.len() as int));
        }
        out.push(0u8);
        proof {
            assert(out@ =~= old(out)@ + zero_bytes(out@.len() - old(out)@.len()));
        }
    }
    proof {
        assert(out@ =~= pad32(old(out)@));
    }
}

impl Eff {
    /// Write a plain id-table section: count, then the entries.
    fn write_id_section(out: &mut Vec<u8>, entries: &Vec<TableEntry>, o: ByteOrder) -> (ok: bool)
        ensures
            match sec_id_table(entries@, o) {
                Some(bytes) => ok && final(out)@ == old(out)@ + bytes,
                None => !ok,
            },
    {
        let n: usize = entries.len();
        if (n as u64) > (u32::MAX as u64) {
            return false;
        }
        put_u32(out, n as u32, o);
        let ghost mark = out@;
        let mut j: usize = 0;
        while j < n
            invariant
                0 <= j <= n,
                n == entries@.len(),
                out@ == mark + id_entries_wire(entries@.take(j as int), o),
            decreases n - j,
        {
            let _ = entries[j].write(out, o);
            j = j + 1;
            proof {
                assert(entries@.take(j as int).drop_last() =~= entries@.take(j - 1));
                assert(out@ == mark + id_entries_wire(entries@.take(j as int), o));
            }
        }
        proof {
            assert(entries@.take(n as int) =~= entries@);
            assert(out@ =~= old(out)@ + sec_id_table(entries@, o)->Some_0);
        }
        true
    }

    /// Write the ear-link section: count, then the records.
    fn write_ear_section(out: &mut Vec<u8>, entries: &Vec<EarLink>, o: ByteOrder) -> (ok: bool)
        ensures
            match sec_ear_links(entries@, o) {
                Some(bytes) => ok && final(out)@ == old(out)@ + bytes,
                None => !ok,
            },
    {
        let n: usize = entries.len();
        if (n as u64) > (u32::MAX as u64) {
            return false;
        }
        put_u32(out, n as u32, o);
        let ghost mark = out@;
        let mut j: usize = 0;
        while j < n
            invariant
                0 <= j <= n,
                n == entries@.len(),
                out@ == mark + ear_entries_wire(entries@.take(j as int), o),
            decreases n - j,
        {
            let _ = entries[j].write(out, o);
            j = j + 1;
            proof {
                assert(entries@.take(j as int).drop_last() =~= entries@.take(j - 1));
                assert(out@ == mark + ear_entries_wire(entries@.take(j as int), o));
            }
        }
        proof {
            assert(entries@.take(n as int) =~= entries@);
            assert(out@ =~= old(out)@ + sec_ear_links(entries@, o)->Some_0);
        }
        true
    }

    /// Write the texture-metadata section, sub-table and aligned records,
    /// by the reserve-write-backfill protocol done in a scratch buffer.
    #[verifier::rlimit(100)]
    #[verifier::spinoff_prover]
    fn write_meta_section(out: &mut Vec<u8>, items: &Vec<TextureMetadata>, o: ByteOrder) -> (ok: bool)
        ensures
            match sec_meta(items@, o) {
                Some(bytes) => ok && final(out)@ == old(out)@ + bytes,
                None => !ok,
            },
    {
        let ghost vs = items@;
        let n: usize = items.len();
        if (n as u64) > (u32::MAX as u64) {
            return false;
        }
        let table_len: u64 = 4 * (n as u64) + 4;
        proof {
            lemma_align(table_len as int);
        }
        let r0: u64 = match Eff::byte_align(table_len) {
            Some(a) => a,
            None => {
                return false;
            }
        };
        let mut body: Vec<u8> = Vec::new();
        let mut offs: Vec<u32> = Vec::new();
        let mut j: usize = 0;
        proof {
            assert(vs.skip(0) =~= vs);
            if meta_body(vs, r0 as int, o) is Some {
                assert(Seq::<u8>::empty() + meta_body(vs, r0 as int, o)->Some_0.0 =~= meta_body(
                    vs,
                    r0 as int,
                    o,
                )->Some_0.0);
                assert(Seq::<u32>::empty() + meta_body(vs, r0 as int, o)->Some_0.1 =~= meta_body(
                    vs,
                    r0 as int,
                    o,
                )->Some_0.1);
            }
        }
        while j < n
            invariant
                0 <= j <= n,
                n == vs.len(),
                n <= u32::MAX,
                vs == items@,
                offs@.len() == j,
                r0 == spec_align(table_len as int),
                table_len == 4 * (n as int) + 4,
                r0 < table_len + 32,
                (r0 as int) % 32 == 0,
                body@.len() % 32 == 0,
                (meta_body(vs.skip(j as int), r0 + body@.len(), o) is None ==> meta_body(
                    vs,
                    r0 as int,
                    o,
                ) is None),
                (meta_body(vs.skip(j as int), r0 + body@.len(), o) is Some ==> meta_body(
                    vs,
                    r0 as int,
                    o,
                ) is Some),
                (meta_body(vs.skip(j as int), r0 + body@.len(), o) is Some ==> meta_body(
                    vs,
                    r0 as int,
                    o,
                )->Some_0.0 == body@ + meta_body(vs.skip(j as int), r0 + body@.len(), o)->Some_0.0),
                (meta_body(vs.skip(j as int), r0 + body@.len(), o) is Some ==> meta_body(
                    vs,
                    r0 as int,
                    o,
                )->Some_0.1 == offs@ + meta_body(vs.skip(j as int), r0 + body@.len(), o)->Some_0.1),
            decreases n - j,
        {
            if (body.len() as u64) > (u32::MAX as u64) {
                proof {
                    assert(vs.skip(j as int).len() > 0);
                }
                return false;
            }
            let rel64: u64 = r0 + (body.len() as u64);
            if rel64 > (u32::MAX as u64) {
                proof {
                    assert(vs.skip(j as int).len() > 0);
                }
                return false;
            }
            let ghost prebody = body@;
            let ghost preoffs = offs@;
            let ghost rel = rel64 as int;
            offs.push(rel64 as u32);
            let _ = items[j].write(&mut body, o);
            pad_to_32(&mut body);
            j = j + 1;
            proof {
                lemma_align_shift(r0 as int, prebody.len() + 12int);
                assert(vs.skip(j - 1).drop_first() =~= vs.skip(j as int));
                assert(vs.skip(j - 1)[0] == vs[j - 1]);
                let end = rel + 12int;
                let nxt = spec_align(end);
                assert(r0 + body@.len() == nxt);
                assert(body@ =~= prebody + (vs[j - 1].wire(o) + zero_bytes(nxt - end)));
                if meta_body(vs.skip(j as int), nxt, o) is Some {
                    let rest = meta_body(vs.skip(j as int), nxt, o)->Some_0;
                    assert(meta_body(vs.skip(j - 1), rel, o) == Some(
                        (vs[j - 1].wire(o) + zero_bytes(nxt - end) + rest.0, seq![rel64 as u32] + rest.1),
                    ));
                    assert(prebody + (vs[j - 1].wire(o) + zero_bytes(nxt - end) + rest.0) =~= body@
                        + rest.0);
                    assert(preoffs + (seq![rel64 as u32] + rest.1) =~= offs@ + rest.1);
                } else {
                    assert(meta_body(vs.skip(j - 1), rel, o) is None);
                }
            }
        }
        proof {
            assert(vs.skip(n as int) =~= Seq::<TextureMetadata>::empty());
            assert(meta_body(vs.skip(n as int), r0 + body@.len(), o) == Some(
                (Seq::<u8>::empty(), Seq::<u32>::empty()),
            ));
            assert(body@ + Seq::<u8>::empty() =~= body@);
            assert(offs@ + Seq::<u32>::empty() =~= offs@);
            assert(meta_body(vs, r0 as int, o)->Some_0.0 == body@);
            assert(meta_body(vs, r0 as int, o)->Some_0.1 == offs@);
        }
        put_u32(out, n as u32, o);
        let ghost mark = out@;
        let mut k: usize = 0;
        while k < n
            invariant
                0 <= k <= n,
                n == offs@.len(),
                out@ == mark + u32_words(offs@.take(k as int), o),
            decreases n - k,
        {
            put_u32(out, offs[k], o);
            k = k + 1;
            proof {
                assert(offs@.take(k as int).drop_last() =~= offs@.take(k - 1));
                assert(out@ == mark + u32_words(offs@.take(k as int), o));
            }
        }
        proof {
            assert(offs@.take(n as int) =~= offs@);
        }
        let gap: u64 = r0 - table_len;
        push_zeros(out, gap as usize);
        out.append(&mut body);
        proof {
            assert(out@ =~= old(out)@ + sec_meta(vs, o)->Some_0);
        }
        true
    }

    /// Write one effect-group section, sub-table and aligned groups.
    #[verifier::rlimit(100)]
    #[verifier::spinoff_prover]
    fn write_effects_section(out: &mut Vec<u8>, items: &Vec<EffectGroup>, o: ByteOrder) -> (ok: bool)
        ensures
            match sec_effects(items@.map_values(|g: EffectGroup| g@), o) {
                Some(bytes) => ok && final(out)@ == old(out)@ + bytes,
                None => !ok,
            },
    {
        let ghost vs = items@.map_values(|g: EffectGroup| g@);
        let n: usize = items.len();
        if (n as u64) > (u32::MAX as u64) {
            return false;
        }
        let table_len: u64 = 4 * (n as u64) + 4;
        proof {
            lemma_align(table_len as int);
        }
        let r0: u64 = match Eff::byte_align(table_len) {
            Some(a) => a,
            None => {
                return false;
            }
        };
        let mut body: Vec<u8> = Vec::new();
        let mut offs: Vec<u32> = Vec::new();
        let mut j: usize = 0;
        proof {
            assert(vs.skip(0) =~= vs);
            if groups_body(vs, r0 as int, o) is Some {
                assert(Seq::<u8>::empty() + groups_body(vs, r0 as int, o)->Some_0.0 =~= groups_body(
                    vs,
                    r0 as int,
                    o,
                )->Some_0.0);
                assert(Seq::<u32>::empty() + groups_body(vs, r0 as int, o)->Some_0.1 =~= groups_body(
                    vs,
                    r0 as int,
                    o,
                )->Some_0.1);
            }
        }
        while j < n
            invariant
                0 <= j <= n,
                n == vs.len(),
                n <= u32::MAX,
                vs == items@.map_values(|g: EffectGroup| g@),
                offs@.len() == j,
                r0 == spec_align(table_len as int),
                table_len == 4 * (n as int) + 4,
                r0 < table_len + 32,
                (r0 as int) % 32 == 0,
                body@.len() % 32 == 0,
                (groups_body(vs.skip(j as int), r0 + body@.len(), o) is None ==> groups_body(
                    vs,
                    r0 as int,
                    o,
                ) is None),
                (groups_body(vs.skip(j as int), r0 + body@.len(), o) is Some ==> groups_body(
                    vs,
                    r0 as int,
                    o,
                ) is Some),
                (groups_body(vs.skip(j as int), r0 + body@.len(), o) is Some ==> groups_body(
                    vs,
                    r0 as int,
                    o,
                )->Some_0.0 == body@ + groups_body(vs.skip(j as int), r0 + body@.len(), o)->Some_0.0),
                (groups_body(vs.skip(j as int), r0 + body@.len(), o) is Some ==> groups_body(
                    vs,
                    r0 as int,
                    o,
                )->Some_0.1 == offs@ + groups_body(vs.skip(j as int), r0 + body@.len(), o)->Some_0.1),
            decreases n - j,
        {
            if (body.len() as u64) > (u32::MAX as u64) {
                proof {
                    assert(vs.skip(j as int).len() > 0);
                }
                return false;
            }
            let rel64: u64 = r0 + (body.len() as u64);
            if rel64 > (u32::MAX as u64) {
                proof {
                    assert(vs.skip(j as int).len() > 0);
                }
                return false;
            }
            let ghost prebody = body@;
            let ghost preoffs = offs@;
            let ghost rel = rel64 as int;
            offs.push(rel64 as u32);
            let wrote = items[j].write(&mut body, o);
            if wrote.is_err() {
                proof {
                    assert(vs.skip(j as int)[0] == vs[j as int]);
                    assert(vs.skip(j as int).len() > 0);
                }
                return false;
            }
            pad_to_32(&mut body);
            j = j + 1;
            proof {
                vs[j - 1].lemma_wire_len(o);
                lemma_align_shift(r0 as int, prebody.len() + 48int + 300 * vs[j - 1].effects.len());
                assert(vs.skip(j - 1).drop_first() =~= vs.skip(j as int));
                assert(vs.skip(j - 1)[0] == vs[j - 1]);
                let end = rel + 48int + 300 * vs[j - 1].effects.len();
                let nxt = spec_align(end);
                assert(r0 + body@.len() == nxt);
                assert(body@ =~= prebody + (vs[j - 1].wire(o) + zero_bytes(nxt - end)));
                if groups_body(vs.skip(j as int), nxt, o) is Some {
                    let rest = groups_body(vs.skip(j as int), nxt, o)->Some_0;
                    assert(groups_body(vs.skip(j - 1), rel, o) == Some(
                        (vs[j - 1].wire(o) + zero_bytes(nxt - end) + rest.0, seq![rel64 as u32] + rest.1),
                    ));
                    assert(prebody + (vs[j - 1].wire(o) + zero_bytes(nxt - end) + rest.0) =~= body@
                        + rest.0);
                    assert(preoffs + (seq![rel64 as u32] + rest.1) =~= offs@ + rest.1);
                } else {
                    assert(groups_body(vs.skip(j - 1), rel, o) is None);
                }
            }
        }
        proof {
            assert(vs.skip(n as int) =~= Seq::<EffectGroupView>::empty());
            assert(groups_body(vs.skip(n as int), r0 + body@.len(), o) == Some(
                (Seq::<u8>::empty(), Seq::<u32>::empty()),
            ));
            assert(body@ + Seq::<u8>::empty() =~= body@);
            assert(offs@ + Seq::<u32>::empty() =~= offs@);
            assert(groups_body(vs, r0 as int, o)->Some_0.0 == body@);
            assert(groups_body(vs, r0 as int, o)->Some_0.1 == offs@);
        }
        put_u32(out, n as u32, o);
        let ghost mark = out@;
        let mut k: usize = 0;
        while k < n
            invariant
                0 <= k <= n,
                n == offs@.len(),
                out@ == mark + u32_words(offs@.take(k as int), o),
            decreases n - k,
        {
            put_u32(out, offs[k], o);
            k = k + 1;
            proof {
                assert(offs@.take(k as int).drop_last() =~= offs@.take(k - 1));
                assert(out@ == mark + u32_words(offs@.take(k as int), o));
            }
        }
        proof {
            assert(offs@.take(n as int) =~= offs@);
        }
        let gap: u64 = r0 - table_len;
        push_zeros(out, gap as usize);
        out.append(&mut body);
        proof {
            assert(out@ =~= old(out)@ + sec_effects(vs, o)->Some_0);
        }
        true
    }

    /// Write the curve-path section, sub-table and aligned curves.
    #[verifier::rlimit(100)]
    #[verifier::spinoff_prover]
    fn write_paths_section(out: &mut Vec<u8>, items: &Vec<Curve>, o: ByteOrder) -> (ok: bool)
        ensures
            match sec_paths(items@.map_values(|c: Curve| c.points@), o) {
                Some(bytes) => ok && final(out)@ == old(out)@ + bytes,
                None => !ok,
            },
    {
        let ghost vs = items@.map_values(|c: Curve| c.points@);
        let n: usize = items.len();
        if (n as u64) > (u32::MAX as u64) {
            return false;
        }
        let table_len: u64 = 4 * (n as u64) + 4;
        proof {
            lemma_align(table_len as int);
        }
        let r0: u64 = match Eff::byte_align(table_len) {
            Some(a) => a,
            None => {
                return false;
            }
        };
        let mut body: Vec<u8> = Vec::new();
        let mut offs: Vec<u32> = Vec::new();
        let mut j: usize = 0;
        proof {
            assert(vs.skip(0) =~= vs);
            if curves_body(vs, r0 as int, o) is Some {
                assert(Seq::<u8>::empty() + curves_body(vs, r0 as int, o)->Some_0.0 =~= curves_body(
                    vs,
                    r0 as int,
                    o,
                )->Some_0.0);
                assert(Seq::<u32>::empty() + curves_body(vs, r0 as int, o)->Some_0.1 =~= curves_body(
                    vs,
                    r0 as int,
                    o,
                )->Some_0.1);
            }
        }
        while j < n
            invariant
                0 <= j <= n,
                n == vs.len(),
                n <= u32::MAX,
                vs == items@.map_values(|c: Curve| c.points@),
                offs@.len() == j,
                r0 == spec_align(table_len as int),
                table_len == 4 * (n as int) + 4,
                r0 < table_len + 32,
                (r0 as int) % 32 == 0,
                body@.len() % 32 == 0,
                (curves_body(vs.skip(j as int), r0 + body@.len(), o) is None ==> curves_body(
                    vs,
                    r0 as int,
                    o,
                ) is None),
                (curves_body(vs.skip(j as int), r0 + body@.len(), o) is Some ==> curves_body(
                    vs,
                    r0 as int,
                    o,
                ) is Some),
                (curves_body(vs.skip(j as int), r0 + body@.len(), o) is Some ==> curves_body(
                    vs,
                    r0 as int,
                    o,
                )->Some_0.0 == body@ + curves_body(vs.skip(j as int), r0 + body@.len(), o)->Some_0.0),
                (curves_body(vs.skip(j as int), r0 + body@.len(), o) is Some ==> curves_body(
                    vs,
                    r0 as int,
                    o,
                )->Some_0.1 == offs@ + curves_body(vs.skip(j as int), r0 + body@.len(), o)->Some_0.1),
            decreases n - j,
        {
            if (body.len() as u64) > (u32::MAX as u64) {
                proof {
                    assert(vs.skip(j as int).len() > 0);
                }
                return false;
            }
            let rel64: u64 = r0 + (body.len() as u64);
            if rel64 > (u32::MAX as u64) {
                proof {
                    assert(vs.skip(j as int).len() > 0);
                }
                return false;
            }
            let ghost prebody = body@;
            let ghost preoffs = offs@;
            let ghost rel = rel64 as int;
            offs.push(rel64 as u32);
            let wrote = items[j].write(&mut body, o);
            if wrote.is_err() {
                proof {
                    assert(vs.skip(j as int)[0] == vs[j as int]);
                    assert(vs.skip(j as int).len() > 0);
                }
                return false;
            }
            pad_to_32(&mut body);
            j = j + 1;
            proof {
                lemma_curve_wire_len(vs[j - 1], o);
                lemma_align_shift(r0 as int, prebody.len() + 4int + 40 * vs[j - 1].len());
                assert(vs.skip(j - 1).drop_first() =~= vs.skip(j as int));
                assert(vs.skip(j - 1)[0] == vs[j - 1]);
                let end = rel + 4int + 40 * vs[j - 1].len();
                let nxt = spec_align(end);
                assert(r0 + body@.len() == nxt);
                assert(body@ =~= prebody + (curve_wire(vs[j - 1], o) + zero_bytes(nxt - end)));
                if curves_body(vs.skip(j as int), nxt, o) is Some {
                    let rest = curves_body(vs.skip(j as int), nxt, o)->Some_0;
                    assert(curves_body(vs.skip(j - 1), rel, o) == Some(
                        (curve_wire(vs[j - 1], o) + zero_bytes(nxt - end) + rest.0, seq![rel64 as u32] + rest.1),
                    ));
                    assert(prebody + (curve_wire(vs[j - 1], o) + zero_bytes(nxt - end) + rest.0) =~= body@
                        + rest.0);
                    assert(preoffs + (seq![rel64 as u32] + rest.1) =~= offs@ + rest.1);
                } else {
                    assert(curves_body(vs.skip(j - 1), rel, o) is None);
                }
            }
        }
        proof {
            assert(vs.skip(n as int) =~= Seq::<Seq<CurvePoint>>::empty());
            assert(curves_body(vs.skip(n as int), r0 + body@.len(), o) == Some(
                (Seq::<u8>::empty(), Seq::<u32>::empty()),
            ));
            assert(body@ + Seq::<u8>::empty() =~= body@);
            assert(offs@ + Seq::<u32>::empty() =~= offs@);
            assert(curves_body(vs, r0 as int, o)->Some_0.0 == body@);
            assert(curves_body(vs, r0 as int, o)->Some_0.1 == offs@);
        }
        put_u32(out, n as u32, o);
        let ghost mark = out@;
        let mut k: usize = 0;
        while k < n
            invariant
                0 <= k <= n,
                n == offs@.len(),
                out@ == mark + u32_words(offs@.take(k as int), o),
            decreases n - k,
        {
            put_u32(out, offs[k], o);
            k = k + 1;
            proof {
                assert(offs@.take(k as int).drop_last() =~= offs@.take(k - 1));
                assert(out@ == mark + u32_words(offs@.take(k as int), o));
            }
        }
        proof {
            assert(offs@.take(n as int) =~= offs@);
        }
        let gap: u64 = r0 - table_len;
        push_zeros(out, gap as usize);
        out.append(&mut body);
        proof {
            assert(out@ =~= old(out)@ + sec_paths(vs, o)->Some_0);
        }
        true
    }

    /// Backfill the reserved header region: the fixed slot count of eleven,
    /// then the eleven collected section offsets.
    fn finish_header(out: &mut Vec<u8>, tops: &Vec<u32>, o: ByteOrder)
        requires
            tops@.len() == 11,
            old(out)@.len() >= 64,
        ensures
            final(out)@ == u32_bytes(11u32, o) + u32_words(tops@, o) + old(out)@.skip(48),
    {
        set_u32_at(out, 0, 11u32, o);
        patch_u32_words(out, 4, tops, o);
        proof {
            lemma_u32_words_len(tops@, o);
            assert(out@ =~= u32_bytes(11u32, o) + u32_words(tops@, o) + old(out)@.skip(48));
        }
    }

    /// Compile this container to a fresh byte stream in byte order `o`. The
    /// result is exactly what `spec_compile` says; `None` exactly when a
    /// count, an offset, or a section position does not fit its fixed-width
    /// wire field. Compiling never changes the container, so compiling the
    /// same container twice yields byte-identical output.
    #[verifier::rlimit(100)]
    #[verifier::spinoff_prover]
    pub fn compile(&mut self, o: ByteOrder) -> (r: Option<Vec<u8>>)
        ensures
            *final(self) == *old(self),
            match r {
                Some(v) => spec_compile(old(self)@, o) == Some(v@),
                None => spec_compile(old(self)@, o) is None,
            },
    {
        let ghost m = old(self)@;
        proof {
            reveal(cb1);
            reveal(cb2);
            reveal(cb3);
            reveal(cb4);
            reveal(cb5);
            reveal(cb6);
            reveal(cb7);
            reveal(cb8);
            reveal(cb9);
            reveal(cb10);
            reveal(spec_tops);
            lemma_chain_monotone(m, o);
        }
        let mut out: Vec<u8> = Vec::new();
        push_zeros(&mut out, 0x40);
        proof {
            assert(out@ =~= zero_bytes(0x40));
        }
        let mut tops: Vec<u32> = Vec::new();
        tops.push(0x40);
        if !Eff::write_id_section(&mut out, &self.texture_ids, o) {
            return None;
        }
        pad_to_32(&mut out);
        let ghost b1 = out@;
        proof {
            assert(b1 == cb1(m, o));
        }
        if (out.len() as u64) > (u32::MAX as u64) {
            return None;
        }
        tops.push(out.len() as u32);
        if !Eff::write_id_section(&mut out, &self.core_ids, o) {
            return None;
        }
        pad_to_32(&mut out);
        let ghost b2 = out@;
        proof {
            assert(b2 == cb2(m, o));
        }
        if (out.len() as u64) > (u32::MAX as u64) {
            return None;
        }
        tops.push(out.len() as u32);
        if !Eff::write_ear_section(&mut out, &self.ear_links, o) {
            return None;
        }
        pad_to_32(&mut out);
        let ghost b3 = out@;
        proof {
            assert(b3 == cb3(m, o));
        }
        if (out.len() as u64) > (u32::MAX as u64) {
            return None;
        }
        tops.push(out.len() as u32);
        if !Eff::write_id_section(&mut out, &self.unknown_table, o) {
            return None;
        }
        pad_to_32(&mut out);
        let ghost b4 = out@;
        proof {
            assert(b4 == cb4(m, o));
        }
        if (out.len() as u64) > (u32::MAX as u64) {
            return None;
        }
        tops.push(out.len() as u32);
        if !Eff::write_id_section(&mut out, &self.model_ids, o) {
            return None;
        }
        pad_to_32(&mut out);
        let ghost b5 = out@;
        proof {
            assert(b5 == cb5(m, o));
        }
        if (out.len() as u64) > (u32::MAX as u64) {
            return None;
        }
        tops.push(out.len() as u32);
        push_zeros(&mut out, 32);
        pad_to_32(&mut out);
        let ghost b6 = out@;
        proof {
            assert(b6 == cb6(m, o));
        }
        if (out.len() as u64) > (u32::MAX as u64) {
            return None;
        }
        tops.push(out.len() as u32);
        if !Eff::write_meta_section(&mut out, &self.tpls_metadata, o) {
            return None;
        }
        pad_to_32(&mut out);
        let ghost b7 = out@;
        proof {
            assert(b7 == cb7(m, o));
        }
        if (out.len() as u64) > (u32::MAX as u64) {
            return None;
        }
        tops.push(out.len() as u32);
        if !Eff::write_effects_section(&mut out, &self.effects_0, o) {
            return None;
        }
        pad_to_32(&mut out);
        let ghost b8 = out@;
        proof {
            assert(b8 == cb8(m, o));
        }
        if (out.len() as u64) > (u32::MAX as u64) {
            return None;
        }
        tops.push(out.len() as u32);
        if !Eff::write_effects_section(&mut out, &self.effects_1, o) {
            return None;
        }
        pad_to_32(&mut out);
        let ghost b9 = out@;
        proof {
            assert(b9 == cb9(m, o));
        }
        if (out.len() as u64) > (u32::MAX as u64) {
            return None;
        }
        tops.push(out.len() as u32);
        if !Eff::write_paths_section(&mut out, &self.paths, o) {
            return None;
        }
        pad_to_32(&mut out);
        let ghost b10 = out@;
        proof {
            assert(b10 == cb10(m, o));
        }
        if (out.len() as u64) > (u32::MAX as u64) {
            return None;
        }
        tops.push(out.len() as u32);
        push_zeros(&mut out, 32);
        proof {
assert(tops@ =~= spec_tops(m, o));
        }
        Eff::finish_header(&mut out, &tops, o);
        proof {
            assert(spec_compile(m, o) == Some(out@));
        }
        Some(out)
    }
}

} // verus!
