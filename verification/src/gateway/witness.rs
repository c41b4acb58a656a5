//! The owner witness: an explicitly provisioned record of every request
//! identity the owner may replay. It is never evidence of completion.
use vstd::prelude::*;

use crate::gateway::GatewayError;
use crate::ident::{parse_uuid, parsed_uuid, uuid_string, uuid_text};
use crate::text::same_text;

verus! {

/// The witness metadata names exactly this generation, in version 1.
pub open spec fn metadata_ok(rows: Seq<(i64, String)>, generation: u128) -> bool {
    rows.len() == 1 && rows[0].0 == 1 && rows[0].1@ == uuid_text(generation)
}

/// Check the witness metadata (see `metadata_ok`).
pub fn check_metadata(rows: &Vec<(i64, String)>, generation: u128) -> (res: Result<(), GatewayError>)
    ensures
        res is Ok <==> metadata_ok(rows@, generation),
        res is Err ==> res == Err::<(), GatewayError>(GatewayError::WitnessMismatch),
{
    if rows.len() != 1 || rows[0].0 != 1 {
        return Err(GatewayError::WitnessMismatch);
    }
    let expected = uuid_string(generation);
    if !same_text(rows[0].1.as_str(), expected.as_str()) {
        return Err(GatewayError::WitnessMismatch);
    }
    Ok(())
}

/// One stored identity is valid: its text is the canonical form of a UUID
/// and its flag is 0 or 1.
pub open spec fn identity_row_ok(row: (String, i64)) -> bool {
    &&& parsed_uuid(row.0@) is Some
    &&& row.0@ == uuid_text(parsed_uuid(row.0@)->0)
    &&& (row.1 == 0 || row.1 == 1)
}

/// The stored identities, each valid and each UUID once, read as UUIDs and
/// whether the gateway must have them.
pub open spec fn identities_of(rows: Seq<(String, i64)>, ids: Seq<(u128, bool)>) -> bool {
    &&& ids.len() == rows.len()
    &&& forall|i: int| 0 <= i < rows.len() ==> identity_row_ok(#[trigger] rows[i])
    &&& forall|i: int|
        0 <= i < rows.len() ==> (#[trigger] ids[i]).0 == parsed_uuid(rows[i].0@)->0 && ids[i].1 == (rows[i].1
            == 1)
    &&& forall|i: int, j: int| 0 <= i < j < ids.len() ==> (#[trigger] ids[i]).0 != (#[trigger] ids[j]).0
}

/// Read the stored identities (see `identities_of`); any invalid or
/// repeated identity refuses the witness.
#[verifier::loop_isolation(false)]
pub fn witness_identities(rows: &Vec<(String, i64)>) -> (res: Result<Vec<(u128, bool)>, GatewayError>)
    ensures
        match res {
            Ok(ids) => identities_of(rows@, ids@),
            Err(e) => e == GatewayError::WitnessCoverage && !(exists|ids: Seq<(u128, bool)>|
                identities_of(rows@, ids)),
        },
{
    let mut ids: Vec<(u128, bool)> = Vec::new();
    let mut i: usize = 0;
    while i < rows.len()
        invariant
            i <= rows@.len(),
            identities_of(rows@.subrange(0, i as int), ids@),
        decreases rows@.len() - i,
    {
        let (raw, required) = (&rows[i].0, rows[i].1);
        let id = match parse_uuid(raw.as_str()) {
            None => {
                proof {
                    lemma_no_identities_past_bad_row(rows@, i as int);
                }
                return Err(GatewayError::WitnessCoverage);
            },
            Some(id) => id,
        };
        let canonical = uuid_string(id);
        if !same_text(raw.as_str(), canonical.as_str()) || !(required == 0 || required == 1) {
            proof {
                lemma_no_identities_past_bad_row(rows@, i as int);
            }
            return Err(GatewayError::WitnessCoverage);
        }
        let mut k: usize = 0;
        while k < ids.len()
            invariant
                k <= ids@.len(),
                forall|m: int| 0 <= m < k ==> ids@[m].0 != id,
            decreases ids@.len() - k,
        {
            if ids[k].0 == id {
                proof {
                    lemma_no_identities_with_repeat(rows@, ids@, i as int, k as int);
                }
                return Err(GatewayError::WitnessCoverage);
            }
            k = k + 1;
        }
        ids.push((id, required == 1));
        proof {
            assert(rows@.subrange(0, i + 1).drop_last() =~= rows@.subrange(0, i as int));
            let r = rows@.subrange(0, i + 1);
            assert forall|a: int| 0 <= a < r.len() implies identity_row_ok(#[trigger] r[a]) by {
                if a < i {
                    assert(r[a] == rows@.subrange(0, i as int)[a]);
                }
            }
            assert forall|a: int| 0 <= a < r.len() implies (#[trigger] ids@[a]).0 == parsed_uuid(r[a].0@)->0
                && ids@[a].1 == (r[a].1 == 1) by {
                if a < i {
                    assert(r[a] == rows@.subrange(0, i as int)[a]);
                }
            }
        }
        i = i + 1;
    }
    proof {
        assert(rows@.subrange(0, rows@.len() as int) =~= rows@);
    }
    Ok(ids)
}

proof fn lemma_no_identities_past_bad_row(rows: Seq<(String, i64)>, i: int)
    requires
        0 <= i < rows.len(),
        !identity_row_ok(rows[i]),
    ensures
        !(exists|ids: Seq<(u128, bool)>| identities_of(rows, ids)),
{
    assert forall|ids: Seq<(u128, bool)>| !identities_of(rows, ids) by {
        if identities_of(rows, ids) {
            assert(identity_row_ok(rows[i]));
        }
    }
}

proof fn lemma_no_identities_with_repeat(rows: Seq<(String, i64)>, prefix: Seq<(u128, bool)>, i: int, k: int)
    requires
        0 <= k < i < rows.len(),
        identities_of(rows.subrange(0, i), prefix),
        identity_row_ok(rows[i]),
        prefix[k].0 == parsed_uuid(rows[i].0@)->0,
    ensures
        !(exists|ids: Seq<(u128, bool)>| identities_of(rows, ids)),
{
    assert forall|ids: Seq<(u128, bool)>| !identities_of(rows, ids) by {
        if identities_of(rows, ids) {
            assert(rows.subrange(0, i)[k] == rows[k]);
            assert(ids[k].0 == parsed_uuid(rows[k].0@)->0);
            assert(ids[i].0 == parsed_uuid(rows[i].0@)->0);
            assert(ids[k].0 != ids[i].0);
        }
    }
}

/// The identities the gateway must have.
pub open spec fn required_ids(ids: Seq<(u128, bool)>) -> Set<u128> {
    Set::new(|x: u128| exists|i: int| 0 <= i < ids.len() && #[trigger] ids[i] == (x, true))
}

/// The witness covers the gateway exactly: the identities it requires are
/// the gateway's requests, no more and no fewer.
#[verifier::loop_isolation(false)]
pub fn coverage_matches(ids: &Vec<(u128, bool)>, gateway: &Vec<u128>) -> (ok: bool)
    ensures
        ok == (required_ids(ids@) == gateway@.to_set()),
{
    let mut i: usize = 0;
    while i < ids.len()
        invariant
            i <= ids@.len(),
            forall|a: int| 0 <= a < i && (#[trigger] ids@[a]).1 ==> gateway@.contains(ids@[a].0),
        decreases ids@.len() - i,
    {
        if ids[i].1 {
            let mut found = false;
            let mut k: usize = 0;
            while k < gateway.len()
                invariant
                    k <= gateway@.len(),
                    found ==> gateway@.contains(ids@[i as int].0),
                    !found ==> forall|m: int| 0 <= m < k ==> gateway@[m] != ids@[i as int].0,
                decreases gateway@.len() - k,
            {
                if gateway[k] == ids[i].0 {
                    found = true;
                }
                k = k + 1;
            }
            if !found {
                proof {
                    assert(required_ids(ids@).contains(ids@[i as int].0)) by {
                        assert(ids@[i as int] == (ids@[i as int].0, true));
                    }
                    assert(!gateway@.to_set().contains(ids@[i as int].0)) by {
                        if gateway@.contains(ids@[i as int].0) {
                            let w = choose|w: int| 0 <= w < gateway@.len() && gateway@[w] == ids@[i as int].0;
                            assert(gateway@[w] != ids@[i as int].0);
                        }
                    }
                }
                return false;
            }
        }
        i = i + 1;
    }
    let mut g: usize = 0;
    while g < gateway.len()
        invariant
            g <= gateway@.len(),
            forall|a: int| 0 <= a < ids@.len() && (#[trigger] ids@[a]).1 ==> gateway@.contains(ids@[a].0),
            forall|b: int| 0 <= b < g ==> required_ids(ids@).contains(#[trigger] gateway@[b]),
        decreases gateway@.len() - g,
    {
        let mut found = false;
        let mut k: usize = 0;
        while k < ids.len()
            invariant
                k <= ids@.len(),
                found ==> required_ids(ids@).contains(gateway@[g as int]),
                !found ==> forall|m: int| 0 <= m < k ==> ids@[m] != (gateway@[g as int], true),
            decreases ids@.len() - k,
        {
            if ids[k].1 && ids[k].0 == gateway[g] {
                proof {
                    assert(ids@[k as int] == (gateway@[g as int], true));
                }
                found = true;
            }
            k = k + 1;
        }
        if !found {
            proof {
                assert(gateway@.to_set().contains(gateway@[g as int]));
                assert(!required_ids(ids@).contains(gateway@[g as int])) by {
                    if required_ids(ids@).contains(gateway@[g as int]) {
                        let w = choose|w: int| 0 <= w < ids@.len() && #[trigger] ids@[w] == (gateway@[g as int], true);
                        assert(ids@[w] != (gateway@[g as int], true));
                    }
                }
            }
            return false;
        }
        g = g + 1;
    }
    proof {
        assert(required_ids(ids@) =~= gateway@.to_set()) by {
            assert forall|x: u128| required_ids(ids@).contains(x) implies gateway@.to_set().contains(x) by {
                let w = choose|w: int| 0 <= w < ids@.len() && #[trigger] ids@[w] == (x, true);
                assert(ids@[w].1);
            }
            assert forall|x: u128| gateway@.to_set().contains(x) implies required_ids(ids@).contains(x) by {
                let w = choose|w: int| 0 <= w < gateway@.len() && gateway@[w] == x;
                assert(required_ids(ids@).contains(gateway@[w]));
            }
        }
    }
    true
}

/// Whether the witness holds an identity, required by the gateway or not.
pub fn witness_contains(ids: &Vec<(u128, bool)>, id: u128) -> (found: bool)
    ensures
        found == exists|i: int| 0 <= i < ids@.len() && (#[trigger] ids@[i]).0 == id,
{
    let mut i: usize = 0;
    while i < ids.len()
        invariant
            i <= ids@.len(),
            forall|a: int| 0 <= a < i ==> (#[trigger] ids@[a]).0 != id,
        decreases ids@.len() - i,
    {
        if ids[i].0 == id {
            return true;
        }
        i = i + 1;
    }
    false
}

} // verus!
