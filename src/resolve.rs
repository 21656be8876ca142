//! Resolution of a hostname's provider-side identifiers: the zone of its apex
//! domain, and its record in that zone, each found by exact name.

use vstd::prelude::*;

verus! {

/// A zone as the provider lists it.
pub struct ZoneInfo {
    pub id: String,
    pub name: String,
}

/// A DNS record as the provider lists it within a zone.
pub struct DnsRecordInfo {
    pub id: String,
    pub name: String,
}

/// Why an identifier could not be resolved; each carries the name looked for.
pub enum ResolveError {
    ZoneNotFound(String),
    RecordNotFound(String),
}

/// The names and identifiers of a list of zones, in order.
pub open spec fn zone_entries(zones: Seq<ZoneInfo>) -> Seq<(Seq<char>, Seq<char>)> {
    zones.map_values(|z: ZoneInfo| (z.name@, z.id@))
}

/// The names and identifiers of a list of records, in order.
pub open spec fn record_entries(records: Seq<DnsRecordInfo>) -> Seq<(Seq<char>, Seq<char>)> {
    records.map_values(|r: DnsRecordInfo| (r.name@, r.id@))
}

/// The identifier of the first entry whose name is exactly `name`, if any.
pub open spec fn first_match(entries: Seq<(Seq<char>, Seq<char>)>, name: Seq<char>) -> Option<
    Seq<char>,
>
    decreases entries.len(),
{
    if entries.len() == 0 {
        None
    } else if entries[0].0 == name {
        Some(entries[0].1)
    } else {
        first_match(entries.drop_first(), name)
    }
}

/// The identifier of the first zone named exactly `domain`; a failure naming
/// `domain` where no zone has that name.
pub fn find_zone_id(zones: &Vec<ZoneInfo>, domain: &str) -> (r: Result<String, ResolveError>)
    ensures
        match r {
            Ok(id) => first_match(zone_entries(zones@), domain@) == Some(id@),
            Err(e) => {
                &&& first_match(zone_entries(zones@), domain@) is None
                &&& (e matches ResolveError::ZoneNotFound(d) && d@ == domain@)
            },
        },
{
    let mut i: usize = 0;
    let key = String::from_str(domain);
    proof {
        assert(zone_entries(zones@).subrange(0, zones@.len() as int) =~= zone_entries(zones@));
    }
    while i < zones.len()
        invariant
            0 <= i <= zones@.len(),
            key@ == domain@,
            first_match(zone_entries(zones@), domain@) == first_match(
                zone_entries(zones@).subrange(i as int, zones@.len() as int),
                domain@,
            ),
        decreases zones@.len() - i,
    {
        proof {
            let all = zone_entries(zones@);
            assert(all.subrange(i as int, all.len() as int).drop_first() =~= all.subrange(
                i + 1,
                all.len() as int,
            ));
        }
        if zones[i].name == key {
            return Ok(zones[i].id.clone());
        }
        i = i + 1;
    }
    Err(ResolveError::ZoneNotFound(key))
}

/// The identifier of the first record of a zone named exactly `hostname`; a failure naming
/// `hostname` where no record has that name.
pub fn find_record_id(records: &Vec<DnsRecordInfo>, hostname: &str) -> (r: Result<String, ResolveError>)
    ensures
        match r {
            Ok(id) => first_match(record_entries(records@), hostname@) == Some(id@),
            Err(e) => {
                &&& first_match(record_entries(records@), hostname@) is None
                &&& (e matches ResolveError::RecordNotFound(d) && d@ == hostname@)
            },
        },
{
    let mut i: usize = 0;
    let key = String::from_str(hostname);
    proof {
        assert(record_entries(records@).subrange(0, records@.len() as int) =~= record_entries(records@));
    }
    while i < records.len()
        invariant
            0 <= i <= records@.len(),
            key@ == hostname@,
            first_match(record_entries(records@), hostname@) == first_match(
                record_entries(records@).subrange(i as int, records@.len() as int),
                hostname@,
            ),
        decreases records@.len() - i,
    {
        proof {
            let all = record_entries(records@);
            assert(all.subrange(i as int, all.len() as int).drop_first() =~= all.subrange(
                i + 1,
                all.len() as int,
            ));
        }
        if records[i].name == key {
            return Ok(records[i].id.clone());
        }
        i = i + 1;
    }
    Err(ResolveError::RecordNotFound(key))
}

} // verus!
