//! The container itself: nine ordered collections reached through a fixed
//! eleven-slot top-level offset table, every section boundary aligned to 32
//! bytes. Two of the eleven slots are reserved padding blocks that carry no
//! data and exist only to preserve the table shape.

use vstd::prelude::*;

use vstd::arithmetic::div_mod::lemma_fundamental_div_mod;
use vstd::arithmetic::div_mod::lemma_fundamental_div_mod_converse;
use vstd::arithmetic::div_mod::lemma_mod_multiples_basic;

use crate::curve::{Curve, CurvePoint};
use crate::group::{EffectGroup, EffectGroupView};
use crate::records::{EarLink, TableEntry, TextureMetadata};

verus! {

/// Round a byte offset up to the next multiple of 32; an offset that is
/// already a multiple of 32 is returned unchanged.
pub open spec fn spec_align(x: int) -> int {
    if x % 32 == 0 {
        x
    } else {
        (x / 32 + 1) * 32
    }
}

/// The alignment law: aligning is idempotent, the result is a multiple of
/// 32, and it moves an offset forward by less than one alignment unit.
pub proof fn lemma_align(x: int)
    requires
        x >= 0,
    ensures
        spec_align(spec_align(x)) == spec_align(x),
        spec_align(x) % 32 == 0,
        x <= spec_align(x) < x + 32,
{
    if x % 32 != 0 {
        lemma_fundamental_div_mod(x, 32);
        lemma_mod_multiples_basic(x / 32 + 1, 32);
    }
}

/// Aligning commutes with shifting by a multiple of 32: a section that
/// starts at an aligned position may lay out its records relative to its
/// own start.
pub proof fn lemma_align_shift(a: int, x: int)
    requires
        a >= 0,
        x >= 0,
        a % 32 == 0,
    ensures
        spec_align(a + x) == a + spec_align(x),
{
    lemma_fundamental_div_mod(a, 32);
    lemma_fundamental_div_mod(x, 32);
    let q = a / 32 + x / 32;
    let r = x % 32;
    assert(a + x == q * 32 + r) by {
        assert(a == 32 * (a / 32));
        assert(x == 32 * (x / 32) + r);
    }
    lemma_fundamental_div_mod_converse(a + x, 32, q, r);
}

/// The top-level container: nine ordered collections, decoded from one byte
/// stream and compiled back to one.
#[derive(Clone, PartialEq, Eq, Debug)]
pub struct Eff {
    pub texture_ids: Vec<TableEntry>,
    pub core_ids: Vec<TableEntry>,
    pub ear_links: Vec<EarLink>,
    pub unknown_table: Vec<TableEntry>,
    pub model_ids: Vec<TableEntry>,
    pub tpls_metadata: Vec<TextureMetadata>,
    pub effects_0: Vec<EffectGroup>,
    pub effects_1: Vec<EffectGroup>,
    pub paths: Vec<Curve>,
}

/// The mathematical value of a container: the nine collections as
/// sequences, with each curve reduced to its point sequence.
#[verifier::ext_equal]
pub struct EffView {
    pub texture_ids: Seq<TableEntry>,
    pub core_ids: Seq<TableEntry>,
    pub ear_links: Seq<EarLink>,
    pub unknown_table: Seq<TableEntry>,
    pub model_ids: Seq<TableEntry>,
    pub tpls_metadata: Seq<TextureMetadata>,
    pub effects_0: Seq<EffectGroupView>,
    pub effects_1: Seq<EffectGroupView>,
    pub paths: Seq<Seq<CurvePoint>>,
}

impl View for Eff {
    type V = EffView;

    open spec fn view(&self) -> EffView {
        EffView {
            texture_ids: self.texture_ids@,
            core_ids: self.core_ids@,
            ear_links: self.ear_links@,
            unknown_table: self.unknown_table@,
            model_ids: self.model_ids@,
            tpls_metadata: self.tpls_metadata@,
            effects_0: self.effects_0@.map_values(|g: EffectGroup| g@),
            effects_1: self.effects_1@.map_values(|g: EffectGroup| g@),
            paths: self.paths@.map_values(|c: Curve| c.points@),
        }
    }
}

impl Eff {
    /// Round a byte offset up to the next multiple of 32; `None` exactly
    /// when the aligned offset does not fit a `u64`.
    pub fn byte_align(offset: u64) -> (r: Option<u64>)
        ensures
            match r {
                Some(a) => a == spec_align(offset as int),
                None => spec_align(offset as int) > u64::MAX,
            },
    {
        let rem: u64 = offset % 32;
        proof {
            lemma_align(offset as int);
            lemma_fundamental_div_mod(offset as int, 32);
        }
        if rem == 0 {
            Some(offset)
        } else if offset <= u64::MAX - (32 - rem) {
            Some(offset + (32 - rem))
        } else {
            None
        }
    }
}

} // verus!
