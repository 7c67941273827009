//! The enumeration probe.
//!
//! On the target platform native device enumeration is unavailable, so
//! discovery is approximated: a fixed list of candidate device-node paths is
//! checked for existence, and every path that is present is reported with one
//! fixed synthetic vendor/product identity so that downstream filters accept
//! it. The filesystem check itself is the host's job; this module turns the
//! per-candidate presence flags into the reported descriptor mapping.

use vstd::prelude::*;

verus! {

/// The synthetic vendor identifier assigned to every discovered path.
pub const SYNTHETIC_VENDOR_ID: u16 = 1155;

/// The synthetic product identifier assigned to every discovered path.
pub const SYNTHETIC_PRODUCT_ID: u16 = 22336;

/// The descriptor reported for a discovered device path. The identifiers are
/// fabricated placeholders, never genuine hardware identity.
#[derive(Debug, PartialEq, Eq)]
pub struct DeviceInfo {
    pub vendor_id: u16,
    pub product_id: u16,
    pub serial_number: Option<String>,
}

/// The fixed candidate device-node paths that the probe checks, in the order
/// they are probed.
pub open spec fn spec_candidates() -> Seq<Seq<char>> {
    seq!["/dev/ttyACM0"@, "/dev/ttyUSB0"@]
}

/// Whether a descriptor carries the one synthetic identity the probe assigns.
pub open spec fn is_synthetic(d: DeviceInfo) -> bool {
    &&& d.vendor_id == SYNTHETIC_VENDOR_ID
    &&& d.product_id == SYNTHETIC_PRODUCT_ID
    &&& d.serial_number is None
}

/// The fixed candidate device-node paths, as strings the host can probe.
pub fn candidate_paths() -> (r: Vec<String>)
    ensures
        r@.len() == spec_candidates().len(),
        forall|i: int| 0 <= i < r@.len() ==> r@[i]@ == spec_candidates()[i],
{
    let mut v: Vec<String> = Vec::new();
    v.push("/dev/ttyACM0".to_owned());
    v.push("/dev/ttyUSB0".to_owned());
    v
}

/// The probe's report: given, for each candidate path, whether it exists on
/// the filesystem at call time, return the discovered paths (in candidate
/// order) paired with the fixed synthetic descriptor. A path is included if
/// and only if it is present; an absent path is omitted, never reported as
/// present-but-unopenable.
pub fn available_ports(present: &Vec<bool>) -> (r: Vec<(String, DeviceInfo)>)
    requires
        present@.len() == spec_candidates().len(),
    ensures
        r@.map_values(|e: (String, DeviceInfo)| e.0@) == probed_paths(spec_candidates(), present@),
        forall|j: int| 0 <= j < r@.len() ==> is_synthetic(#[trigger] r@[j].1),
{
    let mut r: Vec<(String, DeviceInfo)> = Vec::new();
    let candidates = candidate_paths();
    let ghost all = spec_candidates();
    let mut i: usize = 0;
    while i < candidates.len()
        invariant
            candidates@.len() == all.len(),
            present@.len() == all.len(),
            forall|k: int| 0 <= k < all.len() ==> candidates@[k]@ == all[k],
            i <= all.len(),
            r@.map_values(|e: (String, DeviceInfo)| e.0@) == probed_paths(
                all.subrange(0, i as int),
                present@.subrange(0, i as int),
            ),
            forall|j: int| 0 <= j < r@.len() ==> is_synthetic(#[trigger] r@[j].1),
        decreases candidates@.len() - i,
    {
        if present[i] {
            let info = DeviceInfo {
                vendor_id: SYNTHETIC_VENDOR_ID,
                product_id: SYNTHETIC_PRODUCT_ID,
                serial_number: None,
            };
            let path = candidates[i].clone();
            r.push((path, info));
        }
        i = i + 1;
        proof {
            lemma_probed_paths_step(all, present@, i as int);
            assert(r@.map_values(|e: (String, DeviceInfo)| e.0@) == probed_paths(
                all.subrange(0, i as int),
                present@.subrange(0, i as int),
            ));
        }
    }
    proof {
        assert(all.subrange(0, all.len() as int) =~= all);
        assert(present@.subrange(0, all.len() as int) =~= present@);
    }
    r
}

/// The paths that a probe over `cands` with presence flags `present` reports:
/// the candidates whose flag is set, in candidate order.
pub open spec fn probed_paths(cands: Seq<Seq<char>>, present: Seq<bool>) -> Seq<Seq<char>>
    decreases cands.len(),
{
    if cands.len() == 0 {
        Seq::empty()
    } else {
        let rest = probed_paths(cands.drop_last(), present.drop_last());
        if present[cands.len() - 1] {
            rest.push(cands.last())
        } else {
            rest
        }
    }
}

/// Extending the probed prefix by one candidate appends that candidate's path
/// exactly when its presence flag is set.
proof fn lemma_probed_paths_step(cands: Seq<Seq<char>>, present: Seq<bool>, i: int)
    requires
        0 < i <= cands.len(),
        present.len() == cands.len(),
    ensures
        probed_paths(cands.subrange(0, i), present.subrange(0, i)) == if present[i - 1] {
            probed_paths(cands.subrange(0, i - 1), present.subrange(0, i - 1)).push(cands[i - 1])
        } else {
            probed_paths(cands.subrange(0, i - 1), present.subrange(0, i - 1))
        },
{
    let c = cands.subrange(0, i);
    let p = present.subrange(0, i);
    assert(c.drop_last() =~= cands.subrange(0, i - 1));
    assert(p.drop_last() =~= present.subrange(0, i - 1));
}

/// A path is reported by the probe if and only if it is a present candidate;
/// this is the discovery half of the probe's contract, stated over the spec
/// model that `available_ports` ensures.
pub proof fn lemma_probe_includes_iff(cands: Seq<Seq<char>>, present: Seq<bool>)
    requires
        present.len() == cands.len(),
    ensures
        forall|p: Seq<char>|
            #[trigger] probed_paths(cands, present).contains(p) <==> exists|i: int|
                0 <= i < cands.len() && cands[i] == p && present[i],
    decreases cands.len(),
{
    if cands.len() > 0 {
        lemma_probe_includes_iff(cands.drop_last(), present.drop_last());
        let r = probed_paths(cands, present);
        let rest = probed_paths(cands.drop_last(), present.drop_last());
        assert forall|p: Seq<char>| #[trigger] r.contains(p) implies exists|i: int|
            0 <= i < cands.len() && cands[i] == p && present[i] by {
            if present[cands.len() - 1] && p == cands.last() {
                assert(cands[cands.len() - 1] == p);
            } else {
                assert(rest.contains(p));
                let i = choose|i: int|
                    0 <= i < cands.drop_last().len() && cands.drop_last()[i] == p
                        && present.drop_last()[i];
                assert(cands[i] == p && present[i]);
            }
        }
        assert forall|p: Seq<char>|
            (exists|i: int| 0 <= i < cands.len() && cands[i] == p && present[i]) implies #[trigger] r.contains(
            p,
        ) by {
            let i = choose|i: int| 0 <= i < cands.len() && cands[i] == p && present[i];
            if i == cands.len() - 1 {
                assert(r[r.len() - 1] == p);
            } else {
                assert(cands.drop_last()[i] == p && present.drop_last()[i]);
                assert(rest.contains(p));
                let j = choose|j: int| 0 <= j < rest.len() && rest[j] == p;
                assert(r[j] == p);
            }
        }
    }
}

} // verus!
