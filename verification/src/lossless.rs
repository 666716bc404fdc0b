//! Losslessness of the binary codec: loading what the compiler produced
//! yields the original container back. The proof climbs the format: a
//! window holding a record's wire bytes decodes to the record, a window
//! holding a run of records decodes record by record, a window holding a
//! whole section parses to the section's collection, and finally the whole
//! compiled stream loads to the whole container.

use vstd::prelude::*;

use crate::ByteOrder;
use crate::EffError;
use crate::compile::{
    cb1, cb10, cb2, cb3, cb4, cb5, cb6, cb7, cb8, cb9, curves_body, groups_body,
    lemma_chain_monotone, meta_body, pad32, sec_ear_links, sec_effects, sec_id_table, sec_meta,
    sec_paths, spec_compile, spec_tops,
};
use crate::container::EffView;
use crate::container::{lemma_align, spec_align};
use crate::curve::{curve_wire, lemma_curve_wire_len, lemma_points_wire_len, points_wire, CurvePoint};
use crate::effect::Effect;
use crate::group::{
    effects_wire, lemma_effects_wire_len, EffectGroupView, GroupHeader,
};
use crate::load::{
    all_curves_fit, all_groups_fit, all_meta_fit, curve_at, curve_fits, group_at, group_fits,
    parse_ear_links, parse_effects_section, parse_id_table, parse_meta_section,
    parse_paths_section, parse_top_offsets, spec_load, sub_table_offsets,
};
use crate::records::{
    ear_entries_wire, id_entries_wire, lemma_ear_entries_wire_len, lemma_id_entries_wire_len,
    EarLink, TableEntry, TextureMetadata,
};
use crate::scalar::{
    lemma_concat_split, lemma_subrange_of_subrange, lemma_u16_at_of_bytes, lemma_u32_at_of_bytes,
    lemma_u32_words_len, u16_bytes, u32_bytes, u32_words, zero_bytes,
};

verus! {

/// A window holding a run of id-table entries decodes entry by entry.
pub proof fn lemma_id_entries_decoded(data: Seq<u8>, base: int, es: Seq<TableEntry>, o: ByteOrder)
    requires
        0 <= base,
        base + 8 * es.len() <= data.len(),
        data.subrange(base, base + 8 * es.len()) == id_entries_wire(es, o),
    ensures
        forall|k: int|
            0 <= k < es.len() ==> TableEntry::decoded_at(data, base + 8 * k, o) == es[k],
    decreases es.len(),
{
    if es.len() > 0 {
        let n = es.len() as int;
        lemma_id_entries_wire_len(es.drop_last(), o);
        assert(es.last().wire(o).len() == 8);
        lemma_concat_split(id_entries_wire(es.drop_last(), o), es.last().wire(o));
        lemma_subrange_of_subrange(data, base, base + 8 * n, 0, 8 * (n - 1));
        lemma_subrange_of_subrange(data, base, base + 8 * n, 8 * (n - 1), 8 * n);
        assert(data.subrange(base, base + 8 * (n - 1)) == id_entries_wire(es.drop_last(), o));
        assert(data.subrange(base + 8 * (n - 1), base + 8 * n) == es.last().wire(o));
        lemma_id_entries_decoded(data, base, es.drop_last(), o);
        TableEntry::lemma_decoded_of_wire(data, base + 8 * (n - 1), es.last(), o);
        assert forall|k: int| 0 <= k < n implies TableEntry::decoded_at(data, base + 8 * k, o) == es[k] by {
            if k < n - 1 {
                assert(es.drop_last()[k] == es[k]);
            } else {
                assert(es.last() == es[k]);
            }
        }
    }
}

/// A window holding a run of ear-link records decodes record by record.
pub proof fn lemma_ear_entries_decoded(data: Seq<u8>, base: int, es: Seq<EarLink>, o: ByteOrder)
    requires
        0 <= base,
        base + 8 * es.len() <= data.len(),
        data.subrange(base, base + 8 * es.len()) == ear_entries_wire(es, o),
    ensures
        forall|k: int| 0 <= k < es.len() ==> EarLink::decoded_at(data, base + 8 * k, o) == es[k],
    decreases es.len(),
{
    if es.len() > 0 {
        let n = es.len() as int;
        lemma_ear_entries_wire_len(es.drop_last(), o);
        assert(es.last().wire(o).len() == 8);
        lemma_concat_split(ear_entries_wire(es.drop_last(), o), es.last().wire(o));
        lemma_subrange_of_subrange(data, base, base + 8 * n, 0, 8 * (n - 1));
        lemma_subrange_of_subrange(data, base, base + 8 * n, 8 * (n - 1), 8 * n);
        assert(data.subrange(base, base + 8 * (n - 1)) == ear_entries_wire(es.drop_last(), o));
        assert(data.subrange(base + 8 * (n - 1), base + 8 * n) == es.last().wire(o));
        lemma_ear_entries_decoded(data, base, es.drop_last(), o);
        EarLink::lemma_decoded_of_wire(data, base + 8 * (n - 1), es.last(), o);
        assert forall|k: int| 0 <= k < n implies EarLink::decoded_at(data, base + 8 * k, o) == es[k] by {
            if k < n - 1 {
                assert(es.drop_last()[k] == es[k]);
            } else {
                assert(es.last() == es[k]);
            }
        }
    }
}

/// A window holding a run of curve points decodes point by point.
#[verifier::rlimit(60)]
pub proof fn lemma_points_decoded(data: Seq<u8>, base: int, ps: Seq<CurvePoint>, o: ByteOrder)
    requires
        0 <= base,
        base + 40 * ps.len() <= data.len(),
        data.subrange(base, base + 40 * ps.len()) == points_wire(ps, o),
    ensures
        forall|k: int|
            0 <= k < ps.len() ==> CurvePoint::decoded_at(data, base + 40 * k, o) == ps[k],
    decreases ps.len(),
{
    if ps.len() > 0 {
        let n = ps.len() as int;
        lemma_points_wire_len(ps.drop_last(), o);
        assert(ps.last().wire(o).len() == 40);
        lemma_concat_split(points_wire(ps.drop_last(), o), ps.last().wire(o));
        lemma_subrange_of_subrange(data, base, base + 40 * n, 0, 40 * (n - 1));
        lemma_subrange_of_subrange(data, base, base + 40 * n, 40 * (n - 1), 40 * n);
        assert(data.subrange(base, base + 40 * (n - 1)) == points_wire(ps.drop_last(), o));
        assert(data.subrange(base + 40 * (n - 1), base + 40 * n) == ps.last().wire(o));
        lemma_points_decoded(data, base, ps.drop_last(), o);
        CurvePoint::lemma_decoded_of_wire(data, base + 40 * (n - 1), ps.last(), o);
        assert forall|k: int| 0 <= k < n implies CurvePoint::decoded_at(data, base + 40 * k, o) == ps[k] by {
            if k < n - 1 {
                assert(ps.drop_last()[k] == ps[k]);
            } else {
                assert(ps.last() == ps[k]);
            }
        }
    }
}

/// A window holding a run of effect records decodes record by record.
#[verifier::rlimit(60)]
pub proof fn lemma_effects_decoded(data: Seq<u8>, base: int, es: Seq<Effect>, o: ByteOrder)
    requires
        0 <= base,
        base + 300 * es.len() <= data.len(),
        data.subrange(base, base + 300 * es.len()) == effects_wire(es, o),
    ensures
        forall|k: int| 0 <= k < es.len() ==> Effect::decoded_at(data, base + 300 * k, o) == es[k],
    decreases es.len(),
{
    if es.len() > 0 {
        let n = es.len() as int;
        lemma_effects_wire_len(es.drop_last(), o);
        es.last().lemma_wire_len(o);
        lemma_concat_split(effects_wire(es.drop_last(), o), es.last().wire(o));
        lemma_subrange_of_subrange(data, base, base + 300 * n, 0, 300 * (n - 1));
        lemma_subrange_of_subrange(data, base, base + 300 * n, 300 * (n - 1), 300 * n);
        assert(data.subrange(base, base + 300 * (n - 1)) == effects_wire(es.drop_last(), o));
        assert(data.subrange(base + 300 * (n - 1), base + 300 * n) == es.last().wire(o));
        lemma_effects_decoded(data, base, es.drop_last(), o);
        Effect::lemma_decoded_of_wire(data, base + 300 * (n - 1), es.last(), o);
        assert forall|k: int| 0 <= k < n implies Effect::decoded_at(data, base + 300 * k, o) == es[k] by {
            if k < n - 1 {
                assert(es.drop_last()[k] == es[k]);
            } else {
                assert(es.last() == es[k]);
            }
        }
    }
}

/// A window holding a run of offset words reads back word by word.
pub proof fn lemma_u32_words_decoded(data: Seq<u8>, base: int, vals: Seq<u32>, o: ByteOrder)
    requires
        0 <= base,
        base + 4 * vals.len() <= data.len(),
        data.subrange(base, base + 4 * vals.len()) == u32_words(vals, o),
    ensures
        forall|k: int|
            0 <= k < vals.len() ==> crate::scalar::u32_at(data, base + 4 * k, o) == vals[k],
    decreases vals.len(),
{
    if vals.len() > 0 {
        let n = vals.len() as int;
        lemma_u32_words_len(vals.drop_last(), o);
        assert(u32_bytes(vals.last(), o).len() == 4);
        lemma_concat_split(u32_words(vals.drop_last(), o), u32_bytes(vals.last(), o));
        lemma_subrange_of_subrange(data, base, base + 4 * n, 0, 4 * (n - 1));
        lemma_subrange_of_subrange(data, base, base + 4 * n, 4 * (n - 1), 4 * n);
        assert(data.subrange(base, base + 4 * (n - 1)) == u32_words(vals.drop_last(), o));
        assert(data.subrange(base + 4 * (n - 1), base + 4 * n) == u32_bytes(vals.last(), o));
        lemma_u32_words_decoded(data, base, vals.drop_last(), o);
        lemma_u32_at_of_bytes(data, base + 4 * (n - 1), vals.last(), o);
        assert forall|k: int| 0 <= k < n implies crate::scalar::u32_at(data, base + 4 * k, o) == vals[k] by {
            if k < n - 1 {
                assert(vals.drop_last()[k] == vals[k]);
            } else {
                assert(vals.last() == vals[k]);
            }
        }
    }
}

/// A window holding an id-table section's bytes parses to its entries.
pub proof fn lemma_id_section_parses(data: Seq<u8>, off: int, es: Seq<TableEntry>, o: ByteOrder)
    requires
        1 <= off,
        es.len() <= u32::MAX,
        off + 4 + 8 * es.len() <= data.len(),
        data.subrange(off, off + 4 + 8 * es.len()) == u32_bytes(es.len() as u32, o)
            + id_entries_wire(es, o),
    ensures
        parse_id_table(data, off, o) == Ok::<Seq<TableEntry>, crate::EffError>(es),
{
    let n = es.len() as int;
    lemma_id_entries_wire_len(es, o);
    assert(u32_bytes(es.len() as u32, o).len() == 4);
    lemma_concat_split(u32_bytes(es.len() as u32, o), id_entries_wire(es, o));
    lemma_subrange_of_subrange(data, off, off + 4 + 8 * n, 0, 4);
    lemma_subrange_of_subrange(data, off, off + 4 + 8 * n, 4, 4 + 8 * n);
    assert(data.subrange(off, off + 4) == u32_bytes(es.len() as u32, o));
    assert(data.subrange(off + 4, off + 4 + 8 * n) == id_entries_wire(es, o));
    lemma_u32_at_of_bytes(data, off, es.len() as u32, o);
    lemma_id_entries_decoded(data, off + 4, es, o);
    assert(Seq::new(n as nat, |k: int| TableEntry::decoded_at(data, off + 4 + 8 * k, o)) =~= es);
}

/// A window holding the ear-link section's bytes parses to its records.
pub proof fn lemma_ear_section_parses(data: Seq<u8>, off: int, es: Seq<EarLink>, o: ByteOrder)
    requires
        1 <= off,
        es.len() <= u32::MAX,
        off + 4 + 8 * es.len() <= data.len(),
        data.subrange(off, off + 4 + 8 * es.len()) == u32_bytes(es.len() as u32, o)
            + ear_entries_wire(es, o),
    ensures
        parse_ear_links(data, off, o) == Ok::<Seq<EarLink>, crate::EffError>(es),
{
    let n = es.len() as int;
    lemma_ear_entries_wire_len(es, o);
    assert(u32_bytes(es.len() as u32, o).len() == 4);
    lemma_concat_split(u32_bytes(es.len() as u32, o), ear_entries_wire(es, o));
    lemma_subrange_of_subrange(data, off, off + 4 + 8 * n, 0, 4);
    lemma_subrange_of_subrange(data, off, off + 4 + 8 * n, 4, 4 + 8 * n);
    assert(data.subrange(off, off + 4) == u32_bytes(es.len() as u32, o));
    assert(data.subrange(off + 4, off + 4 + 8 * n) == ear_entries_wire(es, o));
    lemma_u32_at_of_bytes(data, off, es.len() as u32, o);
    lemma_ear_entries_decoded(data, off + 4, es, o);
    assert(Seq::new(n as nat, |k: int| EarLink::decoded_at(data, off + 4 + 8 * k, o)) =~= es);
}

/// A window holding a whole effect group's wire bytes reads back as that
/// group: the count, the header and every effect.
#[verifier::rlimit(100)]
pub proof fn lemma_group_of_wire(data: Seq<u8>, t: int, g: EffectGroupView, o: ByteOrder)
    requires
        g.effects.len() <= u16::MAX,
        0 <= t,
        t + 48 + 300 * g.effects.len() <= data.len(),
        data.subrange(t, t + 48 + 300 * g.effects.len()) == g.wire(o),
    ensures
        crate::scalar::u16_at(data, t, o) == g.effects.len() as u16,
        group_fits(data, t, o),
        group_at(data, t, o) == g,
{
    let n = g.effects.len() as int;
    let cnt = u16_bytes(g.effects.len() as u16, o);
    let hdr = g.header.wire(o);
    let gap = zero_bytes(11);
    let efs = effects_wire(g.effects, o);
    assert(cnt.len() == 2);
    assert(hdr.len() == 35);
    assert(gap.len() == 11);
    lemma_effects_wire_len(g.effects, o);
    assert(g.wire(o).subrange(0, 48 + 300 * n) =~= g.wire(o));
    lemma_concat_split(cnt + hdr + gap, efs);
    assert(g.wire(o).subrange(0, 48) == cnt + hdr + gap);
    assert(g.wire(o).subrange(48, 48 + 300 * n) == efs);
    lemma_concat_split(cnt + hdr, gap);
    lemma_subrange_of_subrange(g.wire(o), 0, 48, 0, 37);
    assert(g.wire(o).subrange(0, 37) == cnt + hdr);
    lemma_concat_split(cnt, hdr);
    lemma_subrange_of_subrange(g.wire(o), 0, 37, 0, 2);
    lemma_subrange_of_subrange(g.wire(o), 0, 37, 2, 37);
    assert(g.wire(o).subrange(0, 2) == cnt);
    assert(g.wire(o).subrange(2, 37) == hdr);
    lemma_subrange_of_subrange(data, t, t + 48 + 300 * n, 0, 2);
    lemma_subrange_of_subrange(data, t, t + 48 + 300 * n, 2, 37);
    lemma_subrange_of_subrange(data, t, t + 48 + 300 * n, 48, 48 + 300 * n);
    assert(data.subrange(t, t + 2) == cnt);
    assert(data.subrange(t + 2, t + 37) == hdr);
    assert(data.subrange(t + 48, t + 48 + 300 * n) == efs);
    lemma_u16_at_of_bytes(data, t, g.effects.len() as u16, o);
    GroupHeader::lemma_decoded_of_wire(data, t + 2, g.header, o);
    lemma_effects_decoded(data, t + 48, g.effects, o);
    assert(group_at(data, t, o).effects =~= g.effects);
    assert(group_at(data, t, o) =~= g);
}

/// A window holding a whole curve's wire bytes reads back as that curve.
#[verifier::rlimit(60)]
pub proof fn lemma_curve_of_wire(data: Seq<u8>, t: int, ps: Seq<CurvePoint>, o: ByteOrder)
    requires
        ps.len() <= u32::MAX,
        0 <= t,
        t + 4 + 40 * ps.len() <= data.len(),
        data.subrange(t, t + 4 + 40 * ps.len()) == curve_wire(ps, o),
    ensures
        crate::scalar::u32_at(data, t, o) == ps.len() as u32,
        curve_fits(data, t, o),
        curve_at(data, t, o) == ps,
{
    let n = ps.len() as int;
    let cnt = u32_bytes(ps.len() as u32, o);
    assert(cnt.len() == 4);
    lemma_points_wire_len(ps, o);
    lemma_concat_split(cnt, points_wire(ps, o));
    lemma_subrange_of_subrange(data, t, t + 4 + 40 * n, 0, 4);
    lemma_subrange_of_subrange(data, t, t + 4 + 40 * n, 4, 4 + 40 * n);
    assert(data.subrange(t, t + 4) == cnt);
    assert(data.subrange(t + 4, t + 4 + 40 * n) == points_wire(ps, o));
    lemma_u32_at_of_bytes(data, t, ps.len() as u32, o);
    lemma_points_decoded(data, t + 4, ps, o);
    assert(curve_at(data, t, o) =~= ps);
}

/// A prefix-stable window: a window of a prefix is the same window of any
/// extension of it.
pub proof fn lemma_prefix_window(x: Seq<u8>, y: Seq<u8>, a: int, b: int)
    requires
        0 <= a <= b <= x.len(),
        x.len() <= y.len(),
        y.subrange(0, x.len() as int) == x,
    ensures
        y.subrange(a, b) == x.subrange(a, b),
{
    lemma_subrange_of_subrange(y, 0, x.len() as int, a, b);
}

/// The texture-metadata record area announces one offset per record, and
/// the window at each announced offset holds that record's wire bytes.
#[verifier::rlimit(100)]
#[verifier::spinoff_prover]
pub proof fn lemma_meta_body_layout(
    data: Seq<u8>,
    base: int,
    ms: Seq<TextureMetadata>,
    rel: int,
    o: ByteOrder,
)
    requires
        meta_body(ms, rel, o) is Some,
        0 <= base,
        0 <= rel,
        base + meta_body(ms, rel, o)->Some_0.0.len() <= data.len(),
        data.subrange(base, base + meta_body(ms, rel, o)->Some_0.0.len()) == meta_body(
            ms,
            rel,
            o,
        )->Some_0.0,
    ensures
        meta_body(ms, rel, o)->Some_0.1.len() == ms.len(),
        forall|k: int|
            0 <= k < ms.len() ==> {
                let ok = #[trigger] meta_body(ms, rel, o)->Some_0.1[k] as int;
                &&& rel <= ok
                &&& base + (ok - rel) + 12 <= base + meta_body(ms, rel, o)->Some_0.0.len()
                &&& data.subrange(base + (ok - rel), base + (ok - rel) + 12) == ms[k].wire(o)
            },
    decreases ms.len(),
{
    if ms.len() > 0 {
        let body = meta_body(ms, rel, o)->Some_0.0;
        let offs = meta_body(ms, rel, o)->Some_0.1;
        let end = rel + 12;
        let nxt = spec_align(end);
        lemma_align(end);
        let rest = meta_body(ms.drop_first(), nxt, o)->Some_0;
        let w = ms[0].wire(o);
        assert(w.len() == 12);
        assert(body == w + zero_bytes(nxt - end) + rest.0);
        lemma_concat_split(w + zero_bytes(nxt - end), rest.0);
        lemma_concat_split(w, zero_bytes(nxt - end));
        lemma_subrange_of_subrange(body, 0, nxt - rel, 0, 12);
        assert(body.subrange(0, 12) == w);
        assert(body.subrange(nxt - rel, body.len() as int) == rest.0);
        lemma_subrange_of_subrange(data, base, base + body.len() as int, 0, 12);
        assert(data.subrange(base, base + 12) == w);
        lemma_subrange_of_subrange(
            data,
            base,
            base + body.len() as int,
            nxt - rel,
            body.len() as int,
        );
        assert(data.subrange(base + (nxt - rel), base + body.len() as int) == rest.0);
        lemma_meta_body_layout(data, base + (nxt - rel), ms.drop_first(), nxt, o);
        assert forall|k: int| 0 <= k < ms.len() implies {
            let ok = #[trigger] meta_body(ms, rel, o)->Some_0.1[k] as int;
            &&& rel <= ok
            &&& base + (ok - rel) + 12 <= base + meta_body(ms, rel, o)->Some_0.0.len()
            &&& data.subrange(base + (ok - rel), base + (ok - rel) + 12) == ms[k].wire(o)
        } by {
            if k == 0 {
                assert(offs[0] == rel as u32);
            } else {
                assert(offs[k] == rest.1[k - 1]);
                assert(ms.drop_first()[k - 1] == ms[k]);
            }
        }
    }
}

/// The effect-group record area announces one offset per group, the window
/// at each announced offset holds that group's wire bytes, and every group
/// count fits its field.
#[verifier::rlimit(100)]
#[verifier::spinoff_prover]
pub proof fn lemma_groups_body_layout(
    data: Seq<u8>,
    base: int,
    gs: Seq<EffectGroupView>,
    rel: int,
    o: ByteOrder,
)
    requires
        groups_body(gs, rel, o) is Some,
        0 <= base,
        0 <= rel,
        base + groups_body(gs, rel, o)->Some_0.0.len() <= data.len(),
        data.subrange(base, base + groups_body(gs, rel, o)->Some_0.0.len()) == groups_body(
            gs,
            rel,
            o,
        )->Some_0.0,
    ensures
        groups_body(gs, rel, o)->Some_0.1.len() == gs.len(),
        forall|k: int|
            0 <= k < gs.len() ==> {
                let ok = #[trigger] groups_body(gs, rel, o)->Some_0.1[k] as int;
                &&& rel <= ok
                &&& gs[k].effects.len() <= u16::MAX
                &&& base + (ok - rel) + 48 + 300 * gs[k].effects.len() <= base + groups_body(
                    gs,
                    rel,
                    o,
                )->Some_0.0.len()
                &&& data.subrange(
                    base + (ok - rel),
                    base + (ok - rel) + 48 + 300 * gs[k].effects.len(),
                ) == gs[k].wire(o)
            },
    decreases gs.len(),
{
    if gs.len() > 0 {
        let body = groups_body(gs, rel, o)->Some_0.0;
        let offs = groups_body(gs, rel, o)->Some_0.1;
        let end = rel + 48 + 300 * gs[0].effects.len();
        let nxt = spec_align(end);
        lemma_align(end);
        let rest = groups_body(gs.drop_first(), nxt, o)->Some_0;
        let w = gs[0].wire(o);
        gs[0].lemma_wire_len(o);
        assert(body == w + zero_bytes(nxt - end) + rest.0);
        lemma_concat_split(w + zero_bytes(nxt - end), rest.0);
        lemma_concat_split(w, zero_bytes(nxt - end));
        lemma_subrange_of_subrange(body, 0, nxt - rel, 0, w.len() as int);
        assert(body.subrange(0, w.len() as int) == w);
        assert(body.subrange(nxt - rel, body.len() as int) == rest.0);
        lemma_subrange_of_subrange(data, base, base + body.len() as int, 0, w.len() as int);
        assert(data.subrange(base, base + w.len() as int) == w);
        lemma_subrange_of_subrange(
            data,
            base,
            base + body.len() as int,
            nxt - rel,
            body.len() as int,
        );
        assert(data.subrange(base + (nxt - rel), base + body.len() as int) == rest.0);
        lemma_groups_body_layout(data, base + (nxt - rel), gs.drop_first(), nxt, o);
        assert forall|k: int| 0 <= k < gs.len() implies {
            let ok = #[trigger] groups_body(gs, rel, o)->Some_0.1[k] as int;
            &&& rel <= ok
            &&& gs[k].effects.len() <= u16::MAX
            &&& base + (ok - rel) + 48 + 300 * gs[k].effects.len() <= base + groups_body(
                gs,
                rel,
                o,
            )->Some_0.0.len()
            &&& data.subrange(
                base + (ok - rel),
                base + (ok - rel) + 48 + 300 * gs[k].effects.len(),
            ) == gs[k].wire(o)
        } by {
            if k == 0 {
                assert(offs[0] == rel as u32);
            } else {
                assert(offs[k] == rest.1[k - 1]);
                assert(gs.drop_first()[k - 1] == gs[k]);
            }
        }
    }
}

/// The curve record area announces one offset per curve, the window at
/// each announced offset holds that curve's wire bytes, and every point
/// count fits its field.
#[verifier::rlimit(100)]
#[verifier::spinoff_prover]
pub proof fn lemma_curves_body_layout(
    data: Seq<u8>,
    base: int,
    cs: Seq<Seq<CurvePoint>>,
    rel: int,
    o: ByteOrder,
)
    requires
        curves_body(cs, rel, o) is Some,
        0 <= base,
        0 <= rel,
        base + curves_body(cs, rel, o)->Some_0.0.len() <= data.len(),
        data.subrange(base, base + curves_body(cs, rel, o)->Some_0.0.len()) == curves_body(
            cs,
            rel,
            o,
        )->Some_0.0,
    ensures
        curves_body(cs, rel, o)->Some_0.1.len() == cs.len(),
        forall|k: int|
            0 <= k < cs.len() ==> {
                let ok = #[trigger] curves_body(cs, rel, o)->Some_0.1[k] as int;
                &&& rel <= ok
                &&& cs[k].len() <= u32::MAX
                &&& base + (ok - rel) + 4 + 40 * cs[k].len() <= base + curves_body(
                    cs,
                    rel,
                    o,
                )->Some_0.0.len()
                &&& data.subrange(base + (ok - rel), base + (ok - rel) + 4 + 40 * cs[k].len())
                    == curve_wire(cs[k], o)
            },
    decreases cs.len(),
{
    if cs.len() > 0 {
        let body = curves_body(cs, rel, o)->Some_0.0;
        let offs = curves_body(cs, rel, o)->Some_0.1;
        let end = rel + 4 + 40 * cs[0].len();
        let nxt = spec_align(end);
        lemma_align(end);
        let rest = curves_body(cs.drop_first(), nxt, o)->Some_0;
        let w = curve_wire(cs[0], o);
        lemma_curve_wire_len(cs[0], o);
        assert(body == w + zero_bytes(nxt - end) + rest.0);
        lemma_concat_split(w + zero_bytes(nxt - end), rest.0);
        lemma_concat_split(w, zero_bytes(nxt - end));
        lemma_subrange_of_subrange(body, 0, nxt - rel, 0, w.len() as int);
        assert(body.subrange(0, w.len() as int) == w);
        assert(body.subrange(nxt - rel, body.len() as int) == rest.0);
        lemma_subrange_of_subrange(data, base, base + body.len() as int, 0, w.len() as int);
        assert(data.subrange(base, base + w.len() as int) == w);
        lemma_subrange_of_subrange(
            data,
            base,
            base + body.len() as int,
            nxt - rel,
            body.len() as int,
        );
        assert(data.subrange(base + (nxt - rel), base + body.len() as int) == rest.0);
        lemma_curves_body_layout(data, base + (nxt - rel), cs.drop_first(), nxt, o);
        assert forall|k: int| 0 <= k < cs.len() implies {
            let ok = #[trigger] curves_body(cs, rel, o)->Some_0.1[k] as int;
            &&& rel <= ok
            &&& cs[k].len() <= u32::MAX
            &&& base + (ok - rel) + 4 + 40 * cs[k].len() <= base + curves_body(
                cs,
                rel,
                o,
            )->Some_0.0.len()
            &&& data.subrange(base + (ok - rel), base + (ok - rel) + 4 + 40 * cs[k].len())
                == curve_wire(cs[k], o)
        } by {
            if k == 0 {
                assert(offs[0] == rel as u32);
            } else {
                assert(offs[k] == rest.1[k - 1]);
                assert(cs.drop_first()[k - 1] == cs[k]);
            }
        }
    }
}

/// The record area announces exactly one offset per record.
pub proof fn lemma_meta_body_offs_len(ms: Seq<TextureMetadata>, rel: int, o: ByteOrder)
    requires
        meta_body(ms, rel, o) is Some,
    ensures
        meta_body(ms, rel, o)->Some_0.1.len() == ms.len(),
    decreases ms.len(),
{
    if ms.len() > 0 {
        lemma_meta_body_offs_len(ms.drop_first(), spec_align(rel + 12), o);
    }
}

/// The record area announces exactly one offset per group.
pub proof fn lemma_groups_body_offs_len(gs: Seq<EffectGroupView>, rel: int, o: ByteOrder)
    requires
        groups_body(gs, rel, o) is Some,
    ensures
        groups_body(gs, rel, o)->Some_0.1.len() == gs.len(),
    decreases gs.len(),
{
    if gs.len() > 0 {
        lemma_groups_body_offs_len(
            gs.drop_first(),
            spec_align(rel + 48 + 300 * gs[0].effects.len()),
            o,
        );
    }
}

/// The record area announces exactly one offset per curve.
pub proof fn lemma_curves_body_offs_len(cs: Seq<Seq<CurvePoint>>, rel: int, o: ByteOrder)
    requires
        curves_body(cs, rel, o) is Some,
    ensures
        curves_body(cs, rel, o)->Some_0.1.len() == cs.len(),
    decreases cs.len(),
{
    if cs.len() > 0 {
        lemma_curves_body_offs_len(cs.drop_first(), spec_align(rel + 4 + 40 * cs[0].len()), o);
    }
}

/// A window holding the whole texture-metadata section parses to its
/// records.
#[verifier::rlimit(100)]
pub proof fn lemma_meta_section_parses(
    data: Seq<u8>,
    off: int,
    ms: Seq<TextureMetadata>,
    o: ByteOrder,
)
    requires
        1 <= off,
        sec_meta(ms, o) is Some,
        off + sec_meta(ms, o)->Some_0.len() + 4 <= data.len(),
        data.subrange(off, off + sec_meta(ms, o)->Some_0.len()) == sec_meta(ms, o)->Some_0,
    ensures
        parse_meta_section(data, off, o) == Ok::<Seq<TextureMetadata>, EffError>(ms),
{
    let n = ms.len() as int;
    let tl = 4 * n + 4;
    let r0 = spec_align(tl);
    lemma_align(tl);
    lemma_meta_body_offs_len(ms, r0, o);
    let body = meta_body(ms, r0, o)->Some_0.0;
    let offs = meta_body(ms, r0, o)->Some_0.1;
    let sec = sec_meta(ms, o)->Some_0;
    let cnt = u32_bytes(ms.len() as u32, o);
    let words = u32_words(offs, o);
    let gap = zero_bytes(r0 - tl);
    assert(sec == cnt + words + gap + body);
    assert(cnt.len() == 4);
    lemma_u32_words_len(offs, o);
    assert(sec.len() == r0 + body.len());
    lemma_concat_split(cnt + words + gap, body);
    lemma_concat_split(cnt + words, gap);
    lemma_concat_split(cnt, words);
    lemma_subrange_of_subrange(sec, 0, r0, 0, tl);
    lemma_subrange_of_subrange(sec, 0, tl, 0, 4);
    lemma_subrange_of_subrange(sec, 0, tl, 4, tl);
    assert(sec.subrange(0, 4) == cnt);
    assert(sec.subrange(4, tl) == words);
    assert(sec.subrange(r0, sec.len() as int) == body);
    lemma_subrange_of_subrange(data, off, off + sec.len() as int, 0, 4);
    lemma_subrange_of_subrange(data, off, off + sec.len() as int, 4, tl);
    lemma_subrange_of_subrange(data, off, off + sec.len() as int, r0, sec.len() as int);
    assert(data.subrange(off, off + 4) == cnt);
    assert(data.subrange(off + 4, off + tl) == words);
    assert(data.subrange(off + r0, off + sec.len() as int) == body);
    lemma_u32_at_of_bytes(data, off, ms.len() as u32, o);
    lemma_u32_words_decoded(data, off + 4, offs, o);
    assert(sub_table_offsets(data, off, o) =~= offs);
    lemma_meta_body_layout(data, off + r0, ms, r0, o);
    assert forall|k: int| 0 <= k < n implies off + #[trigger] offs[k] + 12 <= data.len()
        && TextureMetadata::decoded_at(data, off + offs[k], o) == ms[k] by {
        let ok = offs[k] as int;
        assert(data.subrange(off + r0 + (ok - r0), off + r0 + (ok - r0) + 12) == ms[k].wire(o));
        assert(data.subrange(off + ok, off + ok + 12) == ms[k].wire(o));
        TextureMetadata::lemma_decoded_of_wire(data, off + ok, ms[k], o);
    }
    assert(all_meta_fit(data, off, sub_table_offsets(data, off, o)));
    assert(Seq::new(
        n as nat,
        |k: int| TextureMetadata::decoded_at(data, off + sub_table_offsets(data, off, o)[k], o),
    ) =~= ms);
}

/// A window holding a whole effect-group section parses to its groups.
#[verifier::rlimit(100)]
pub proof fn lemma_effects_section_parses(
    data: Seq<u8>,
    off: int,
    gs: Seq<EffectGroupView>,
    o: ByteOrder,
)
    requires
        1 <= off,
        sec_effects(gs, o) is Some,
        off + sec_effects(gs, o)->Some_0.len() <= data.len(),
        data.subrange(off, off + sec_effects(gs, o)->Some_0.len()) == sec_effects(gs, o)->Some_0,
    ensures
        parse_effects_section(data, off, o) == Ok::<Seq<EffectGroupView>, EffError>(gs),
{
    let n = gs.len() as int;
    let tl = 4 * n + 4;
    let r0 = spec_align(tl);
    lemma_align(tl);
    lemma_groups_body_offs_len(gs, r0, o);
    let body = groups_body(gs, r0, o)->Some_0.0;
    let offs = groups_body(gs, r0, o)->Some_0.1;
    let sec = sec_effects(gs, o)->Some_0;
    let cnt = u32_bytes(gs.len() as u32, o);
    let words = u32_words(offs, o);
    let gap = zero_bytes(r0 - tl);
    assert(sec == cnt + words + gap + body);
    assert(cnt.len() == 4);
    lemma_u32_words_len(offs, o);
    assert(sec.len() == r0 + body.len());
    lemma_concat_split(cnt + words + gap, body);
    lemma_concat_split(cnt + words, gap);
    lemma_concat_split(cnt, words);
    lemma_subrange_of_subrange(sec, 0, r0, 0, tl);
    lemma_subrange_of_subrange(sec, 0, tl, 0, 4);
    lemma_subrange_of_subrange(sec, 0, tl, 4, tl);
    assert(sec.subrange(0, 4) == cnt);
    assert(sec.subrange(4, tl) == words);
    assert(sec.subrange(r0, sec.len() as int) == body);
    lemma_subrange_of_subrange(data, off, off + sec.len() as int, 0, 4);
    lemma_subrange_of_subrange(data, off, off + sec.len() as int, 4, tl);
    lemma_subrange_of_subrange(data, off, off + sec.len() as int, r0, sec.len() as int);
    assert(data.subrange(off, off + 4) == cnt);
    assert(data.subrange(off + 4, off + tl) == words);
    assert(data.subrange(off + r0, off + sec.len() as int) == body);
    lemma_u32_at_of_bytes(data, off, gs.len() as u32, o);
    lemma_u32_words_decoded(data, off + 4, offs, o);
    assert(sub_table_offsets(data, off, o) =~= offs);
    lemma_groups_body_layout(data, off + r0, gs, r0, o);
    assert forall|k: int| 0 <= k < n implies group_fits(data, off + #[trigger] offs[k], o)
        && group_at(data, off + offs[k], o) == gs[k] by {
        let ok = offs[k] as int;
        assert(data.subrange(
            off + r0 + (ok - r0),
            off + r0 + (ok - r0) + 48 + 300 * gs[k].effects.len(),
        ) == gs[k].wire(o));
        assert(data.subrange(off + ok, off + ok + 48 + 300 * gs[k].effects.len())
            == gs[k].wire(o));
        lemma_group_of_wire(data, off + ok, gs[k], o);
    }
    assert(all_groups_fit(data, off, sub_table_offsets(data, off, o), o));
    assert(Seq::new(
        n as nat,
        |k: int| group_at(data, off + sub_table_offsets(data, off, o)[k], o),
    ) =~= gs);
}

/// A window holding the whole curve-path section parses to its curves.
#[verifier::rlimit(100)]
pub proof fn lemma_paths_section_parses(
    data: Seq<u8>,
    off: int,
    cs: Seq<Seq<CurvePoint>>,
    o: ByteOrder,
)
    requires
        1 <= off,
        sec_paths(cs, o) is Some,
        off + sec_paths(cs, o)->Some_0.len() + 4 <= data.len(),
        data.subrange(off, off + sec_paths(cs, o)->Some_0.len()) == sec_paths(cs, o)->Some_0,
    ensures
        parse_paths_section(data, off, o) == Ok::<Seq<Seq<CurvePoint>>, EffError>(cs),
{
    let n = cs.len() as int;
    let tl = 4 * n + 4;
    let r0 = spec_align(tl);
    lemma_align(tl);
    lemma_curves_body_offs_len(cs, r0, o);
    let body = curves_body(cs, r0, o)->Some_0.0;
    let offs = curves_body(cs, r0, o)->Some_0.1;
    let sec = sec_paths(cs, o)->Some_0;
    let cnt = u32_bytes(cs.len() as u32, o);
    let words = u32_words(offs, o);
    let gap = zero_bytes(r0 - tl);
    assert(sec == cnt + words + gap + body);
    assert(cnt.len() == 4);
    lemma_u32_words_len(offs, o);
    assert(sec.len() == r0 + body.len());
    lemma_concat_split(cnt + words + gap, body);
    lemma_concat_split(cnt + words, gap);
    lemma_concat_split(cnt, words);
    lemma_subrange_of_subrange(sec, 0, r0, 0, tl);
    lemma_subrange_of_subrange(sec, 0, tl, 0, 4);
    lemma_subrange_of_subrange(sec, 0, tl, 4, tl);
    assert(sec.subrange(0, 4) == cnt);
    assert(sec.subrange(4, tl) == words);
    assert(sec.subrange(r0, sec.len() as int) == body);
    lemma_subrange_of_subrange(data, off, off + sec.len() as int, 0, 4);
    lemma_subrange_of_subrange(data, off, off + sec.len() as int, 4, tl);
    lemma_subrange_of_subrange(data, off, off + sec.len() as int, r0, sec.len() as int);
    assert(data.subrange(off, off + 4) == cnt);
    assert(data.subrange(off + 4, off + tl) == words);
    assert(data.subrange(off + r0, off + sec.len() as int) == body);
    lemma_u32_at_of_bytes(data, off, cs.len() as u32, o);
    lemma_u32_words_decoded(data, off + 4, offs, o);
    assert(sub_table_offsets(data, off, o) =~= offs);
    lemma_curves_body_layout(data, off + r0, cs, r0, o);
    assert forall|k: int| 0 <= k < n implies curve_fits(data, off + #[trigger] offs[k], o)
        && curve_at(data, off + offs[k], o) == cs[k] by {
        let ok = offs[k] as int;
        assert(data.subrange(off + r0 + (ok - r0), off + r0 + (ok - r0) + 4 + 40 * cs[k].len())
            == curve_wire(cs[k], o));
        assert(data.subrange(off + ok, off + ok + 4 + 40 * cs[k].len()) == curve_wire(cs[k], o));
        lemma_curve_of_wire(data, off + ok, cs[k], o);
    }
    assert(all_curves_fit(data, off, sub_table_offsets(data, off, o), o));
    assert(Seq::new(
        n as nat,
        |k: int| curve_at(data, off + sub_table_offsets(data, off, o)[k], o),
    ) =~= cs);
}

/// One growth step of the compiled stream keeps its old contents: the
/// previous stage is a prefix of the padded extension, and the appended
/// section sits right after it.
pub proof fn lemma_pad32_extend(x: Seq<u8>, s: Seq<u8>)
    ensures
        pad32(x + s).len() == spec_align(x.len() + s.len() as int),
        pad32(x + s).subrange(0, x.len() as int) == x,
        pad32(x + s).subrange(x.len() as int, x.len() + s.len() as int) == s,
{
    let y = x + s;
    lemma_align(y.len() as int);
    lemma_concat_split(y, zero_bytes(spec_align(y.len() as int) - y.len()));
    lemma_concat_split(x, s);
    lemma_subrange_of_subrange(pad32(y), 0, y.len() as int, 0, x.len() as int);
    lemma_subrange_of_subrange(pad32(y), 0, y.len() as int, x.len() as int, y.len() as int);
}

/// The head of the compiled stream: its top-level table parses back to
/// the collected offsets, and past the header its bytes are those of the
/// section chain.
#[verifier::rlimit(100)]
#[verifier::spinoff_prover]
pub proof fn lemma_compiled_header(m: EffView, o: ByteOrder)
    requires
        spec_compile(m, o) is Some,
    ensures
        parse_top_offsets(spec_compile(m, o)->Some_0, o) == Ok::<Seq<u32>, EffError>(
            spec_tops(m, o),
        ),
        spec_compile(m, o)->Some_0.len() == cb10(m, o).len() + 32,
        spec_compile(m, o)->Some_0.subrange(48, spec_compile(m, o)->Some_0.len() as int) == (cb10(
            m,
            o,
        ) + zero_bytes(32)).subrange(48, cb10(m, o).len() + 32int),
        64 <= cb1(m, o).len() <= cb2(m, o).len() <= cb3(m, o).len() <= cb4(m, o).len() <= cb5(
            m,
            o,
        ).len() <= cb6(m, o).len() <= cb7(m, o).len() <= cb8(m, o).len() <= cb9(m, o).len()
            <= cb10(m, o).len() <= u32::MAX,
{
    let data = spec_compile(m, o)->Some_0;
    let tops = spec_tops(m, o);
    let hdr = u32_bytes(11u32, o);
    let words = u32_words(tops, o);
    let full = cb10(m, o) + zero_bytes(32);
    lemma_chain_monotone(m, o);
    lemma_u32_words_len(tops, o);
    assert(tops.len() == 11) by {
        reveal(spec_tops);
    }
    assert(hdr.len() == 4);
    assert(words.len() == 44);
    assert(zero_bytes(0x40).len() == 64);
    assert(data == hdr + words + full.skip(48));
    assert(full.skip(48) =~= full.subrange(48, full.len() as int));
    assert(data.len() == cb10(m, o).len() + 32);
    lemma_concat_split(hdr + words, full.subrange(48, full.len() as int));
    lemma_concat_split(hdr, words);
    lemma_subrange_of_subrange(data, 0, 48, 0, 4);
    lemma_subrange_of_subrange(data, 0, 48, 4, 48);
    assert(data.subrange(0, 4) == hdr);
    assert(data.subrange(4, 48) == words);
    lemma_u32_at_of_bytes(data, 0, 11u32, o);
    lemma_u32_words_decoded(data, 4, tops, o);
    assert(data.subrange(48, data.len() as int) == full.subrange(48, full.len() as int));
    let topseq = Seq::new(11nat, |k: int| crate::scalar::u32_at(data, 4 + 4 * k, o));
    assert(topseq =~= tops) by {
        reveal(spec_tops);
    }
    assert(parse_top_offsets(data, o) == Ok::<Seq<u32>, EffError>(tops));
}

/// Each section's bytes sit at its recorded offset within the section
/// chain: the chain grows only by appending, so earlier windows persist.
#[verifier::rlimit(100)]
#[verifier::spinoff_prover]
pub proof fn lemma_chain_windows(m: EffView, o: ByteOrder)
    requires
        spec_compile(m, o) is Some,
    ensures
        (cb10(m, o) + zero_bytes(32)).subrange(0x40, 0x40 + sec_id_table(m.texture_ids, o)->Some_0.len() as int) == sec_id_table(m.texture_ids, o)->Some_0,
        0x40 + sec_id_table(m.texture_ids, o)->Some_0.len() as int <= cb1(m, o).len(),
        (cb10(m, o) + zero_bytes(32)).subrange(cb1(m, o).len() as int, cb1(m, o).len() as int + sec_id_table(m.core_ids, o)->Some_0.len()) == sec_id_table(m.core_ids, o)->Some_0,
        cb1(m, o).len() as int + sec_id_table(m.core_ids, o)->Some_0.len() <= cb2(m, o).len(),
        (cb10(m, o) + zero_bytes(32)).subrange(cb2(m, o).len() as int, cb2(m, o).len() as int + sec_ear_links(m.ear_links, o)->Some_0.len()) == sec_ear_links(m.ear_links, o)->Some_0,
        cb2(m, o).len() as int + sec_ear_links(m.ear_links, o)->Some_0.len() <= cb3(m, o).len(),
        (cb10(m, o) + zero_bytes(32)).subrange(cb3(m, o).len() as int, cb3(m, o).len() as int + sec_id_table(m.unknown_table, o)->Some_0.len()) == sec_id_table(m.unknown_table, o)->Some_0,
        cb3(m, o).len() as int + sec_id_table(m.unknown_table, o)->Some_0.len() <= cb4(m, o).len(),
        (cb10(m, o) + zero_bytes(32)).subrange(cb4(m, o).len() as int, cb4(m, o).len() as int + sec_id_table(m.model_ids, o)->Some_0.len()) == sec_id_table(m.model_ids, o)->Some_0,
        cb4(m, o).len() as int + sec_id_table(m.model_ids, o)->Some_0.len() <= cb5(m, o).len(),
        (cb10(m, o) + zero_bytes(32)).subrange(cb6(m, o).len() as int, cb6(m, o).len() as int + sec_meta(m.tpls_metadata, o)->Some_0.len()) == sec_meta(m.tpls_metadata, o)->Some_0,
        cb6(m, o).len() as int + sec_meta(m.tpls_metadata, o)->Some_0.len() <= cb7(m, o).len(),
        (cb10(m, o) + zero_bytes(32)).subrange(cb7(m, o).len() as int, cb7(m, o).len() as int + sec_effects(m.effects_0, o)->Some_0.len()) == sec_effects(m.effects_0, o)->Some_0,
        cb7(m, o).len() as int + sec_effects(m.effects_0, o)->Some_0.len() <= cb8(m, o).len(),
        (cb10(m, o) + zero_bytes(32)).subrange(cb8(m, o).len() as int, cb8(m, o).len() as int + sec_effects(m.effects_1, o)->Some_0.len()) == sec_effects(m.effects_1, o)->Some_0,
        cb8(m, o).len() as int + sec_effects(m.effects_1, o)->Some_0.len() <= cb9(m, o).len(),
        (cb10(m, o) + zero_bytes(32)).subrange(cb9(m, o).len() as int, cb9(m, o).len() as int + sec_paths(m.paths, o)->Some_0.len()) == sec_paths(m.paths, o)->Some_0,
        cb9(m, o).len() as int + sec_paths(m.paths, o)->Some_0.len() <= cb10(m, o).len(),
{
    reveal(cb1);
    reveal(cb2);
    reveal(cb3);
    reveal(cb4);
    reveal(cb5);
    reveal(cb6);
    reveal(cb7);
    reveal(cb8);
    reveal(cb9);
    reveal(cb10);
    let full = cb10(m, o) + zero_bytes(32);
    lemma_chain_monotone(m, o);
    assert(zero_bytes(0x40).len() == 64);
    lemma_pad32_extend(zero_bytes(0x40), sec_id_table(m.texture_ids, o)->Some_0);
    lemma_pad32_extend(cb1(m, o), sec_id_table(m.core_ids, o)->Some_0);
    lemma_pad32_extend(cb2(m, o), sec_ear_links(m.ear_links, o)->Some_0);
    lemma_pad32_extend(cb3(m, o), sec_id_table(m.unknown_table, o)->Some_0);
    lemma_pad32_extend(cb4(m, o), sec_id_table(m.model_ids, o)->Some_0);
    lemma_pad32_extend(cb5(m, o), zero_bytes(32));
    lemma_pad32_extend(cb6(m, o), sec_meta(m.tpls_metadata, o)->Some_0);
    lemma_pad32_extend(cb7(m, o), sec_effects(m.effects_0, o)->Some_0);
    lemma_pad32_extend(cb8(m, o), sec_effects(m.effects_1, o)->Some_0);
    lemma_pad32_extend(cb9(m, o), sec_paths(m.paths, o)->Some_0);
    lemma_concat_split(cb10(m, o), zero_bytes(32));
    assert(full.subrange(0, cb10(m, o).len() as int) == cb10(m, o));
    lemma_prefix_window(cb10(m, o), full, 0, cb9(m, o).len() as int);
    assert(full.subrange(0, cb9(m, o).len() as int) == cb9(m, o));
    lemma_prefix_window(cb9(m, o), full, 0, cb8(m, o).len() as int);
    assert(full.subrange(0, cb8(m, o).len() as int) == cb8(m, o));
    lemma_prefix_window(cb8(m, o), full, 0, cb7(m, o).len() as int);
    assert(full.subrange(0, cb7(m, o).len() as int) == cb7(m, o));
    lemma_prefix_window(cb7(m, o), full, 0, cb6(m, o).len() as int);
    assert(full.subrange(0, cb6(m, o).len() as int) == cb6(m, o));
    lemma_prefix_window(cb6(m, o), full, 0, cb5(m, o).len() as int);
    assert(full.subrange(0, cb5(m, o).len() as int) == cb5(m, o));
    lemma_prefix_window(cb5(m, o), full, 0, cb4(m, o).len() as int);
    assert(full.subrange(0, cb4(m, o).len() as int) == cb4(m, o));
    lemma_prefix_window(cb4(m, o), full, 0, cb3(m, o).len() as int);
    assert(full.subrange(0, cb3(m, o).len() as int) == cb3(m, o));
    lemma_prefix_window(cb3(m, o), full, 0, cb2(m, o).len() as int);
    assert(full.subrange(0, cb2(m, o).len() as int) == cb2(m, o));
    lemma_prefix_window(cb2(m, o), full, 0, cb1(m, o).len() as int);
    assert(full.subrange(0, cb1(m, o).len() as int) == cb1(m, o));
    lemma_prefix_window(cb1(m, o), full, 0x40, 0x40 + sec_id_table(m.texture_ids, o)->Some_0.len() as int);
    assert(full.subrange(0x40, 0x40 + sec_id_table(m.texture_ids, o)->Some_0.len() as int) == sec_id_table(m.texture_ids, o)->Some_0);
    lemma_prefix_window(cb2(m, o), full, cb1(m, o).len() as int, cb1(m, o).len() as int + sec_id_table(m.core_ids, o)->Some_0.len());
    assert(full.subrange(cb1(m, o).len() as int, cb1(m, o).len() as int + sec_id_table(m.core_ids, o)->Some_0.len()) == sec_id_table(m.core_ids, o)->Some_0);
    lemma_prefix_window(cb3(m, o), full, cb2(m, o).len() as int, cb2(m, o).len() as int + sec_ear_links(m.ear_links, o)->Some_0.len());
    assert(full.subrange(cb2(m, o).len() as int, cb2(m, o).len() as int + sec_ear_links(m.ear_links, o)->Some_0.len()) == sec_ear_links(m.ear_links, o)->Some_0);
    lemma_prefix_window(cb4(m, o), full, cb3(m, o).len() as int, cb3(m, o).len() as int + sec_id_table(m.unknown_table, o)->Some_0.len());
    assert(full.subrange(cb3(m, o).len() as int, cb3(m, o).len() as int + sec_id_table(m.unknown_table, o)->Some_0.len()) == sec_id_table(m.unknown_table, o)->Some_0);
    lemma_prefix_window(cb5(m, o), full, cb4(m, o).len() as int, cb4(m, o).len() as int + sec_id_table(m.model_ids, o)->Some_0.len());
    assert(full.subrange(cb4(m, o).len() as int, cb4(m, o).len() as int + sec_id_table(m.model_ids, o)->Some_0.len()) == sec_id_table(m.model_ids, o)->Some_0);
    lemma_prefix_window(cb7(m, o), full, cb6(m, o).len() as int, cb6(m, o).len() as int + sec_meta(m.tpls_metadata, o)->Some_0.len());
    assert(full.subrange(cb6(m, o).len() as int, cb6(m, o).len() as int + sec_meta(m.tpls_metadata, o)->Some_0.len()) == sec_meta(m.tpls_metadata, o)->Some_0);
    lemma_prefix_window(cb8(m, o), full, cb7(m, o).len() as int, cb7(m, o).len() as int + sec_effects(m.effects_0, o)->Some_0.len());
    assert(full.subrange(cb7(m, o).len() as int, cb7(m, o).len() as int + sec_effects(m.effects_0, o)->Some_0.len()) == sec_effects(m.effects_0, o)->Some_0);
    lemma_prefix_window(cb9(m, o), full, cb8(m, o).len() as int, cb8(m, o).len() as int + sec_effects(m.effects_1, o)->Some_0.len());
    assert(full.subrange(cb8(m, o).len() as int, cb8(m, o).len() as int + sec_effects(m.effects_1, o)->Some_0.len()) == sec_effects(m.effects_1, o)->Some_0);
    lemma_prefix_window(cb10(m, o), full, cb9(m, o).len() as int, cb9(m, o).len() as int + sec_paths(m.paths, o)->Some_0.len());
    assert(full.subrange(cb9(m, o).len() as int, cb9(m, o).len() as int + sec_paths(m.paths, o)->Some_0.len()) == sec_paths(m.paths, o)->Some_0);
}

/// A compiled stream exists only when every section could be encoded.
pub proof fn lemma_sections_some(m: EffView, o: ByteOrder)
    requires
        spec_compile(m, o) is Some,
    ensures
        sec_id_table(m.texture_ids, o) is Some,
        sec_id_table(m.core_ids, o) is Some,
        sec_ear_links(m.ear_links, o) is Some,
        sec_id_table(m.unknown_table, o) is Some,
        sec_id_table(m.model_ids, o) is Some,
        sec_meta(m.tpls_metadata, o) is Some,
        sec_effects(m.effects_0, o) is Some,
        sec_effects(m.effects_1, o) is Some,
        sec_paths(m.paths, o) is Some,
        m.texture_ids.len() <= u32::MAX,
        m.core_ids.len() <= u32::MAX,
        m.ear_links.len() <= u32::MAX,
        m.unknown_table.len() <= u32::MAX,
        m.model_ids.len() <= u32::MAX,
{
}

/// Two streams that agree past the header agree on any window past it.
pub proof fn lemma_tail_window(x: Seq<u8>, y: Seq<u8>, a: int, b: int)
    requires
        x.len() == y.len(),
        48 <= a <= b <= x.len(),
        x.subrange(48, x.len() as int) == y.subrange(48, y.len() as int),
    ensures
        x.subrange(a, b) == y.subrange(a, b),
{
    lemma_subrange_of_subrange(x, 48, x.len() as int, a - 48, b - 48);
    lemma_subrange_of_subrange(y, 48, y.len() as int, a - 48, b - 48);
}

/// The compiled stream decomposed: its top-level table parses back to the
/// collected offsets, and the window at each recorded offset holds exactly
/// that slot's section bytes.
#[verifier::rlimit(100)]
#[verifier::spinoff_prover]
pub proof fn lemma_compiled_windows(m: EffView, o: ByteOrder)
    requires
        spec_compile(m, o) is Some,
    ensures
        parse_top_offsets(spec_compile(m, o)->Some_0, o) == Ok::<Seq<u32>, EffError>(
            spec_tops(m, o),
        ),
        spec_compile(m, o)->Some_0.len() == cb10(m, o).len() + 32,
        64 <= cb1(m, o).len() <= cb2(m, o).len() <= cb3(m, o).len() <= cb4(m, o).len() <= cb5(
            m,
            o,
        ).len() <= cb6(m, o).len() <= cb7(m, o).len() <= cb8(m, o).len() <= cb9(m, o).len()
            <= cb10(m, o).len() <= u32::MAX,
        spec_compile(m, o)->Some_0.subrange(0x40, 0x40 + sec_id_table(m.texture_ids, o)->Some_0.len() as int) == sec_id_table(m.texture_ids, o)->Some_0,
        0x40 + sec_id_table(m.texture_ids, o)->Some_0.len() as int <= cb1(m, o).len(),
        spec_compile(m, o)->Some_0.subrange(cb1(m, o).len() as int, cb1(m, o).len() as int + sec_id_table(m.core_ids, o)->Some_0.len()) == sec_id_table(m.core_ids, o)->Some_0,
        cb1(m, o).len() as int + sec_id_table(m.core_ids, o)->Some_0.len() <= cb2(m, o).len(),
        spec_compile(m, o)->Some_0.subrange(cb2(m, o).len() as int, cb2(m, o).len() as int + sec_ear_links(m.ear_links, o)->Some_0.len()) == sec_ear_links(m.ear_links, o)->Some_0,
        cb2(m, o).len() as int + sec_ear_links(m.ear_links, o)->Some_0.len() <= cb3(m, o).len(),
        spec_compile(m, o)->Some_0.subrange(cb3(m, o).len() as int, cb3(m, o).len() as int + sec_id_table(m.unknown_table, o)->Some_0.len()) == sec_id_table(m.unknown_table, o)->Some_0,
        cb3(m, o).len() as int + sec_id_table(m.unknown_table, o)->Some_0.len() <= cb4(m, o).len(),
        spec_compile(m, o)->Some_0.subrange(cb4(m, o).len() as int, cb4(m, o).len() as int + sec_id_table(m.model_ids, o)->Some_0.len()) == sec_id_table(m.model_ids, o)->Some_0,
        cb4(m, o).len() as int + sec_id_table(m.model_ids, o)->Some_0.len() <= cb5(m, o).len(),
        spec_compile(m, o)->Some_0.subrange(cb6(m, o).len() as int, cb6(m, o).len() as int + sec_meta(m.tpls_metadata, o)->Some_0.len()) == sec_meta(m.tpls_metadata, o)->Some_0,
        cb6(m, o).len() as int + sec_meta(m.tpls_metadata, o)->Some_0.len() <= cb7(m, o).len(),
        spec_compile(m, o)->Some_0.subrange(cb7(m, o).len() as int, cb7(m, o).len() as int + sec_effects(m.effects_0, o)->Some_0.len()) == sec_effects(m.effects_0, o)->Some_0,
        cb7(m, o).len() as int + sec_effects(m.effects_0, o)->Some_0.len() <= cb8(m, o).len(),
        spec_compile(m, o)->Some_0.subrange(cb8(m, o).len() as int, cb8(m, o).len() as int + sec_effects(m.effects_1, o)->Some_0.len()) == sec_effects(m.effects_1, o)->Some_0,
        cb8(m, o).len() as int + sec_effects(m.effects_1, o)->Some_0.len() <= cb9(m, o).len(),
        spec_compile(m, o)->Some_0.subrange(cb9(m, o).len() as int, cb9(m, o).len() as int + sec_paths(m.paths, o)->Some_0.len()) == sec_paths(m.paths, o)->Some_0,
        cb9(m, o).len() as int + sec_paths(m.paths, o)->Some_0.len() <= cb10(m, o).len(),
{
    let data = spec_compile(m, o)->Some_0;
    let full = cb10(m, o) + zero_bytes(32);
    lemma_compiled_header(m, o);
    lemma_chain_windows(m, o);
    lemma_tail_window(data, full, 0x40, 0x40 + sec_id_table(m.texture_ids, o)->Some_0.len() as int);
    lemma_tail_window(data, full, cb1(m, o).len() as int, cb1(m, o).len() as int + sec_id_table(m.core_ids, o)->Some_0.len());
    lemma_tail_window(data, full, cb2(m, o).len() as int, cb2(m, o).len() as int + sec_ear_links(m.ear_links, o)->Some_0.len());
    lemma_tail_window(data, full, cb3(m, o).len() as int, cb3(m, o).len() as int + sec_id_table(m.unknown_table, o)->Some_0.len());
    lemma_tail_window(data, full, cb4(m, o).len() as int, cb4(m, o).len() as int + sec_id_table(m.model_ids, o)->Some_0.len());
    lemma_tail_window(data, full, cb6(m, o).len() as int, cb6(m, o).len() as int + sec_meta(m.tpls_metadata, o)->Some_0.len());
    lemma_tail_window(data, full, cb7(m, o).len() as int, cb7(m, o).len() as int + sec_effects(m.effects_0, o)->Some_0.len());
    lemma_tail_window(data, full, cb8(m, o).len() as int, cb8(m, o).len() as int + sec_effects(m.effects_1, o)->Some_0.len());
    lemma_tail_window(data, full, cb9(m, o).len() as int, cb9(m, o).len() as int + sec_paths(m.paths, o)->Some_0.len());
}

/// In a compiled stream, the texture-id slot parses back to its collection.
#[verifier::rlimit(100)]
#[verifier::spinoff_prover]
pub proof fn lemma_slot_texture_ids_parses(m: EffView, o: ByteOrder)
    requires
        spec_compile(m, o) is Some,
    ensures
        parse_id_table(spec_compile(m, o)->Some_0, 0x40, o) == Ok::<Seq<TableEntry>, EffError>(m.texture_ids),
{
    let data = spec_compile(m, o)->Some_0;
    lemma_sections_some(m, o);
    lemma_compiled_windows(m, o);
    lemma_id_entries_wire_len(m.texture_ids, o);
    assert(sec_id_table(m.texture_ids, o)->Some_0.len() == 4 + 8 * m.texture_ids.len());
    assert(data.subrange(0x40, 0x44 + 8 * m.texture_ids.len() as int) == u32_bytes(
        m.texture_ids.len() as u32,
        o,
    ) + id_entries_wire(m.texture_ids, o) && 0x44 + 8 * m.texture_ids.len() <= data.len());
    lemma_id_section_parses(data, 0x40, m.texture_ids, o);
}

/// In a compiled stream, the core-id slot parses back to its collection.
#[verifier::rlimit(100)]
#[verifier::spinoff_prover]
pub proof fn lemma_slot_core_ids_parses(m: EffView, o: ByteOrder)
    requires
        spec_compile(m, o) is Some,
    ensures
        parse_id_table(spec_compile(m, o)->Some_0, cb1(m, o).len() as int, o) == Ok::<Seq<TableEntry>, EffError>(m.core_ids),
{
    let data = spec_compile(m, o)->Some_0;
    lemma_sections_some(m, o);
    lemma_compiled_windows(m, o);
    lemma_id_entries_wire_len(m.core_ids, o);
    assert(data.subrange(cb1(m, o).len() as int, cb1(m, o).len() as int + 4 + 8 * m.core_ids.len()) == u32_bytes(m.core_ids.len() as u32, o)
        + id_entries_wire(m.core_ids, o) && cb1(m, o).len() as int + 4 + 8 * m.core_ids.len() <= data.len());
    lemma_id_section_parses(data, cb1(m, o).len() as int, m.core_ids, o);
}

/// In a compiled stream, the ear-link slot parses back to its collection.
#[verifier::rlimit(100)]
#[verifier::spinoff_prover]
pub proof fn lemma_slot_ear_links_parses(m: EffView, o: ByteOrder)
    requires
        spec_compile(m, o) is Some,
    ensures
        parse_ear_links(spec_compile(m, o)->Some_0, cb2(m, o).len() as int, o) == Ok::<Seq<EarLink>, EffError>(m.ear_links),
{
    let data = spec_compile(m, o)->Some_0;
    lemma_sections_some(m, o);
    lemma_compiled_windows(m, o);
    lemma_ear_entries_wire_len(m.ear_links, o);
    assert(data.subrange(cb2(m, o).len() as int, cb2(m, o).len() as int + 4 + 8 * m.ear_links.len()) == u32_bytes(m.ear_links.len() as u32, o)
        + ear_entries_wire(m.ear_links, o) && cb2(m, o).len() as int + 4 + 8 * m.ear_links.len() <= data.len());
    lemma_ear_section_parses(data, cb2(m, o).len() as int, m.ear_links, o);
}

/// In a compiled stream, the reserved id-table slot parses back to its collection.
#[verifier::rlimit(100)]
#[verifier::spinoff_prover]
pub proof fn lemma_slot_unknown_table_parses(m: EffView, o: ByteOrder)
    requires
        spec_compile(m, o) is Some,
    ensures
        parse_id_table(spec_compile(m, o)->Some_0, cb3(m, o).len() as int, o) == Ok::<Seq<TableEntry>, EffError>(m.unknown_table),
{
    let data = spec_compile(m, o)->Some_0;
    lemma_sections_some(m, o);
    lemma_compiled_windows(m, o);
    lemma_id_entries_wire_len(m.unknown_table, o);
    assert(data.subrange(cb3(m, o).len() as int, cb3(m, o).len() as int + 4 + 8 * m.unknown_table.len()) == u32_bytes(m.unknown_table.len() as u32, o)
        + id_entries_wire(m.unknown_table, o) && cb3(m, o).len() as int + 4 + 8 * m.unknown_table.len() <= data.len());
    lemma_id_section_parses(data, cb3(m, o).len() as int, m.unknown_table, o);
}

/// In a compiled stream, the model-id slot parses back to its collection.
#[verifier::rlimit(100)]
#[verifier::spinoff_prover]
pub proof fn lemma_slot_model_ids_parses(m: EffView, o: ByteOrder)
    requires
        spec_compile(m, o) is Some,
    ensures
        parse_id_table(spec_compile(m, o)->Some_0, cb4(m, o).len() as int, o) == Ok::<Seq<TableEntry>, EffError>(m.model_ids),
{
    let data = spec_compile(m, o)->Some_0;
    lemma_sections_some(m, o);
    lemma_compiled_windows(m, o);
    lemma_id_entries_wire_len(m.model_ids, o);
    assert(data.subrange(cb4(m, o).len() as int, cb4(m, o).len() as int + 4 + 8 * m.model_ids.len()) == u32_bytes(m.model_ids.len() as u32, o)
        + id_entries_wire(m.model_ids, o) && cb4(m, o).len() as int + 4 + 8 * m.model_ids.len() <= data.len());
    lemma_id_section_parses(data, cb4(m, o).len() as int, m.model_ids, o);
}

/// The four offset-tabled slots of a compiled stream parse back to their
/// collections.
#[verifier::rlimit(100)]
#[verifier::spinoff_prover]
pub proof fn lemma_nested_sections_parse(m: EffView, o: ByteOrder)
    requires
        spec_compile(m, o) is Some,
    ensures
        parse_meta_section(spec_compile(m, o)->Some_0, cb6(m, o).len() as int, o) == Ok::<
            Seq<TextureMetadata>,
            EffError,
        >(m.tpls_metadata),
        parse_effects_section(spec_compile(m, o)->Some_0, cb7(m, o).len() as int, o) == Ok::<
            Seq<EffectGroupView>,
            EffError,
        >(m.effects_0),
        parse_effects_section(spec_compile(m, o)->Some_0, cb8(m, o).len() as int, o) == Ok::<
            Seq<EffectGroupView>,
            EffError,
        >(m.effects_1),
        parse_paths_section(spec_compile(m, o)->Some_0, cb9(m, o).len() as int, o) == Ok::<
            Seq<Seq<CurvePoint>>,
            EffError,
        >(m.paths),
{
    let data = spec_compile(m, o)->Some_0;
    lemma_sections_some(m, o);
    lemma_compiled_windows(m, o);
    lemma_meta_section_parses(data, cb6(m, o).len() as int, m.tpls_metadata, o);
    lemma_effects_section_parses(data, cb7(m, o).len() as int, m.effects_0, o);
    lemma_effects_section_parses(data, cb8(m, o).len() as int, m.effects_1, o);
    lemma_paths_section_parses(data, cb9(m, o).len() as int, m.paths, o);
}

/// The loaded top-level table of a compiled stream: the fixed first slot
/// and the start of each following stage, each offset fitting its word.
#[verifier::rlimit(100)]
#[verifier::spinoff_prover]
pub proof fn lemma_top_offsets_values(m: EffView, o: ByteOrder)
    requires
        spec_compile(m, o) is Some,
    ensures
        parse_top_offsets(spec_compile(m, o)->Some_0, o) == Ok::<Seq<u32>, EffError>(
            spec_tops(m, o),
        ),
        spec_tops(m, o).len() == 11,
        spec_tops(m, o)[0] == 0x40u32,
        spec_tops(m, o)[1] as int == cb1(m, o).len(),
        spec_tops(m, o)[2] as int == cb2(m, o).len(),
        spec_tops(m, o)[3] as int == cb3(m, o).len(),
        spec_tops(m, o)[4] as int == cb4(m, o).len(),
        spec_tops(m, o)[6] as int == cb6(m, o).len(),
        spec_tops(m, o)[7] as int == cb7(m, o).len(),
        spec_tops(m, o)[8] as int == cb8(m, o).len(),
        spec_tops(m, o)[9] as int == cb9(m, o).len(),
{
    reveal(spec_tops);
    lemma_chain_monotone(m, o);
    lemma_compiled_header(m, o);
    assert(zero_bytes(0x40).len() == 64);
}

/// Loading what the compiler produced yields the original container back:
/// for every container the compiler accepts, in either byte order, the
/// binary codec is lossless end to end.
#[verifier::rlimit(100)]
#[verifier::spinoff_prover]
pub proof fn lemma_compile_load_inverse(m: EffView, o: ByteOrder)
    requires
        spec_compile(m, o) is Some,
    ensures
        spec_load(spec_compile(m, o)->Some_0, o) == Ok::<EffView, EffError>(m),
{
    let data = spec_compile(m, o)->Some_0;
    lemma_top_offsets_values(m, o);
    lemma_slot_texture_ids_parses(m, o);
    lemma_slot_core_ids_parses(m, o);
    lemma_slot_ear_links_parses(m, o);
    lemma_slot_unknown_table_parses(m, o);
    lemma_slot_model_ids_parses(m, o);
    lemma_nested_sections_parse(m, o);
    assert(spec_load(data, o)->Ok_0 =~= m);
}

} // verus!
