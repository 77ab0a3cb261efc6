//! The on-disk device asset cache: which depot serves a connected device.
//!
//! Reading the cache root, the registry file and the depot files happens
//! outside; this module decides which registry depot a device resolves to.

use vstd::prelude::*;
use crate::index::{model_id_matches, DeviceEntry, Index};
use crate::text::{hex_digit_char, lemma_hex_digit_table, push_char, HEX_LOWER};

verus! {

/// Model information a device reports over HID++ (DeviceInformation).
#[derive(Clone, Debug)]
pub struct DeviceModelInfo {
    pub extended_model_id: u8,
    pub model_ids: Vec<u16>,
}

/// The cache root and the registry loaded from it, if there was one.
pub struct AssetCache {
    root: String,
    index: Option<Index>,
}

/// Lower-case hex of `v` without leading zeros (`"0"` for zero).
pub open spec fn hex_unpadded(v: nat) -> Seq<char>
    decreases v,
{
    if v < 16 {
        seq![HEX_LOWER@[v as int]]
    } else {
        hex_unpadded(v / 16) + seq![HEX_LOWER@[(v % 16) as int]]
    }
}

/// Lower-case hex of `v` in exactly four digits.
pub open spec fn hex4(v: u16) -> Seq<char> {
    seq![
        HEX_LOWER@[(v / 4096) as int],
        HEX_LOWER@[((v / 256) % 16) as int],
        HEX_LOWER@[((v / 16) % 16) as int],
        HEX_LOWER@[(v % 16) as int],
    ]
}

/// The registry-style model id of `id` under extended model id `ext`, e.g.
/// `0x06` and `0xb023` give `"6b023"`.
pub open spec fn model_id_string(ext: u8, id: u16) -> Seq<char> {
    hex_unpadded(ext as nat) + hex4(id)
}

/// The registry-style strings of the non-zero model ids, in order.
pub open spec fn candidates_of(ext: u8, ids: Seq<u16>) -> Seq<Seq<char>>
    decreases ids.len(),
{
    if ids.len() == 0 {
        seq![]
    } else {
        let rest = candidates_of(ext, ids.drop_last());
        if ids.last() != 0 {
            rest.push(model_id_string(ext, ids.last()))
        } else {
            rest
        }
    }
}

/// A model id is written as the extended model id in lower-case hex without
/// leading zeros (one digit below 16, two from 16), followed by the model id
/// in exactly four lower-case hex digits, most significant first.
pub proof fn lemma_model_id_string_digits(ext: u8, id: u16)
    ensures
        ext < 16 ==> model_id_string(ext, id) == seq![
            hex_digit_char(ext as int),
            hex_digit_char((id / 4096) as int),
            hex_digit_char(((id / 256) % 16) as int),
            hex_digit_char(((id / 16) % 16) as int),
            hex_digit_char((id % 16) as int),
        ],
        ext >= 16 ==> model_id_string(ext, id) == seq![
            hex_digit_char((ext / 16) as int),
            hex_digit_char((ext % 16) as int),
            hex_digit_char((id / 4096) as int),
            hex_digit_char(((id / 256) % 16) as int),
            hex_digit_char(((id / 16) % 16) as int),
            hex_digit_char((id % 16) as int),
        ],
{
    lemma_hex_digit_table();
    assert(id / 4096 < 16);
    if ext >= 16 {
        assert(hex_unpadded((ext / 16) as nat) =~= seq![HEX_LOWER@[(ext / 16) as int]]);
    }
    assert(model_id_string(ext, id) =~= (if ext < 16 {
        seq![
            hex_digit_char(ext as int),
            hex_digit_char((id / 4096) as int),
            hex_digit_char(((id / 256) % 16) as int),
            hex_digit_char(((id / 16) % 16) as int),
            hex_digit_char((id % 16) as int),
        ]
    } else {
        seq![
            hex_digit_char((ext / 16) as int),
            hex_digit_char((ext % 16) as int),
            hex_digit_char((id / 4096) as int),
            hex_digit_char(((id / 256) % 16) as int),
            hex_digit_char(((id / 16) % 16) as int),
            hex_digit_char((id % 16) as int),
        ]
    }));
}

/// The candidates are the model ids in order with zeros skipped: one more
/// id adds its string at the end when it is non-zero, and nothing when it
/// is zero.
pub proof fn lemma_candidates_append(ext: u8, ids: Seq<u16>, id: u16)
    ensures
        candidates_of(ext, Seq::empty()) == Seq::<Seq<char>>::empty(),
        id != 0 ==> candidates_of(ext, ids.push(id)) == candidates_of(ext, ids).push(
            model_id_string(ext, id),
        ),
        id == 0 ==> candidates_of(ext, ids.push(id)) == candidates_of(ext, ids),
{
    assert(ids.push(id).drop_last() =~= ids);
}

/// Formats one model id as the registry writes it.
pub fn format_model_id(ext: u8, id: u16) -> (r: String)
    ensures
        r@ == model_id_string(ext, id),
{
    let mut r = String::new();
    if ext >= 16 {
        push_char(&mut r, HEX_LOWER[(ext / 16) as usize]);
        push_char(&mut r, HEX_LOWER[(ext % 16) as usize]);
        proof {
            assert(hex_unpadded((ext / 16) as nat) =~= seq![HEX_LOWER@[(ext / 16) as int]]);
        }
    } else {
        push_char(&mut r, HEX_LOWER[ext as usize]);
    }
    push_char(&mut r, HEX_LOWER[(id / 4096) as usize]);
    push_char(&mut r, HEX_LOWER[((id / 256) % 16) as usize]);
    push_char(&mut r, HEX_LOWER[((id / 16) % 16) as usize]);
    push_char(&mut r, HEX_LOWER[(id % 16) as usize]);
    proof {
        assert(r@ =~= model_id_string(ext, id));
    }
    r
}

/// Every non-zero model id as a registry-style string, in array order (the
/// first that resolves wins).
pub fn format_candidates(model: &DeviceModelInfo) -> (r: Vec<String>)
    ensures
        r@.len() == candidates_of(model.extended_model_id, model.model_ids@).len(),
        forall|i: int|
            0 <= i < r@.len() ==> #[trigger] r@[i]@ == candidates_of(
                model.extended_model_id,
                model.model_ids@,
            )[i],
{
    let mut out: Vec<String> = Vec::new();
    let n = model.model_ids.len();
    let mut i: usize = 0;
    while i < n
        invariant
            n == model.model_ids@.len(),
            i <= n,
            out@.len() == candidates_of(model.extended_model_id, model.model_ids@.take(i as int)).len(),
            forall|k: int|
                0 <= k < out@.len() ==> #[trigger] out@[k]@ == candidates_of(
                    model.extended_model_id,
                    model.model_ids@.take(i as int),
                )[k],
        decreases n - i,
    {
        let id = model.model_ids[i];
        proof {
            assert(model.model_ids@.take(i + 1).drop_last() =~= model.model_ids@.take(i as int));
        }
        if id != 0 {
            let s = format_model_id(model.extended_model_id, id);
            out.push(s);
        }
        i += 1;
    }
    proof {
        assert(model.model_ids@.take(n as int) =~= model.model_ids@);
    }
    out
}

/// Some registry entry matches candidate `c`.
pub open spec fn candidate_resolves(index: Index, c: Seq<char>) -> bool {
    exists|i: int| 0 <= i < index.devices.len() && model_id_matches(#[trigger] index.devices[i].1, c)
}

/// Some depot of the registry is named `name`.
pub open spec fn has_depot(index: Index, name: Seq<char>) -> bool {
    exists|i: int| 0 <= i < index.devices.len() && #[trigger] index.devices[i].0@ == name
}

impl AssetCache {
    /// A cache rooted at `root` with the registry found there, if any.
    pub fn new(root: String, index: Option<Index>) -> (r: Self)
        ensures
            r.root_spec() == root@,
            r.index_spec() == index,
    {
        AssetCache { root, index }
    }

    /// The cache root.
    pub closed spec fn root_spec(&self) -> Seq<char> {
        self.root@
    }

    /// The registry.
    pub closed spec fn index_spec(&self) -> Option<Index> {
        self.index
    }

    /// Where on disk the per-device files live.
    pub fn cache_root(&self) -> (r: &str)
        ensures
            r@ == self.root_spec(),
    {
        self.root.as_str()
    }

    /// The depot serving a device: the depot named by `forced` when the
    /// registry has it (a development override), otherwise the depot of the
    /// first model-id candidate that the registry resolves. `None` without a
    /// registry or when nothing resolves.
    pub fn resolve_depot(&self, forced: Option<&str>, model: &DeviceModelInfo) -> (r: Option<(&str, &DeviceEntry)>)
        ensures
            self.index_spec() is None ==> r is None,
            self.index_spec() matches Some(index) ==> {
                let cands = candidates_of(model.extended_model_id, model.model_ids@);
                let forced_hit = forced matches Some(f) && has_depot(index, f@);
                &&& forced_hit ==> (r matches Some((d, e)) && d@ == forced->0@ && index.holds(d@, *e))
                &&& !forced_hit ==> (r is None <==> forall|c: int|
                    0 <= c < cands.len() ==> !candidate_resolves(index, #[trigger] cands[c]))
                &&& !forced_hit ==> (r matches Some((d, e)) ==> index.holds(d@, *e) && exists|c: int|
                    0 <= c < cands.len() && model_id_matches(*e, #[trigger] cands[c]) && forall|b: int|
                        0 <= b < c ==> !candidate_resolves(index, #[trigger] cands[b]))
            },
    {
        let index = match &self.index {
            Some(i) => i,
            None => return None,
        };
        if let Some(f) = forced {
            if let Some((d, entry)) = index.get(f) {
                return Some((d, entry));
            }
            proof {
                if has_depot(*index, f@) {
                    let i = choose|i: int| 0 <= i < index.devices.len() && #[trigger] index.devices[i].0@ == f@;
                    assert(index.devices[i].0@ != f@);
                }
            }
        }
        let cands = format_candidates(model);
        let ghost cs = candidates_of(model.extended_model_id, model.model_ids@);
        let n = cands.len();
        let mut c: usize = 0;
        while c < n
            invariant
                n == cands@.len(),
                n == cs.len(),
                self.index == Some(*index),
                cs == candidates_of(model.extended_model_id, model.model_ids@),
                !(forced matches Some(f) && has_depot(*index, f@)),
                forall|k: int| 0 <= k < n ==> #[trigger] cands@[k]@ == cs[k],
                c <= n,
                forall|b: int| 0 <= b < c ==> !candidate_resolves(*index, #[trigger] cs[b]),
            decreases n - c,
        {
            let hit = index.find_by_model_id(cands[c].as_str());
            if let Some((d, e)) = hit {
                proof {
                    assert(model_id_matches(*e, cs[c as int]));
                }
                return Some((d, e));
            }
            proof {
                assert(!candidate_resolves(*index, cs[c as int]));
            }
            c += 1;
        }
        None
    }
}

} // verus!
