//! Registry metadata of one package, normalised for the rules.

use vstd::prelude::*;

verus! {

/// A calendar date, as its day number in the proleptic Gregorian calendar,
/// with January 1 of year 1 as day 1.
#[derive(Clone, Copy, Debug, PartialEq, Eq, Structural)]
pub struct Date {
    pub day: i32,
}

/// Normalised registry metadata of one package. Every field but the name may be absent.
#[derive(Clone, Debug)]
pub struct PackageMeta {
    pub name: String,
    pub deprecated: Option<String>,
    pub unpacked_size: Option<u64>,
    pub last_updated: Option<Date>,
    pub maintainer_count: usize,
}

/// The mathematical value of a `PackageMeta`.
pub ghost struct PackageMetaView {
    pub name: Seq<char>,
    pub deprecated: Option<Seq<char>>,
    pub unpacked_size: Option<nat>,
    pub last_updated: Option<int>,
    pub maintainer_count: nat,
}

impl View for PackageMeta {
    type V = PackageMetaView;

    open spec fn view(&self) -> PackageMetaView {
        PackageMetaView {
            name: self.name@,
            deprecated: match self.deprecated {
                Some(s) => Some(s@),
                None => None,
            },
            unpacked_size: match self.unpacked_size {
                Some(v) => Some(v as nat),
                None => None,
            },
            last_updated: match self.last_updated {
                Some(d) => Some(d.day as int),
                None => None,
            },
            maintainer_count: self.maintainer_count as nat,
        }
    }
}

/// Why the metadata of one package could not be had.
#[derive(Clone, Copy, Debug, PartialEq, Eq, Structural)]
pub enum FetchError {
    /// The request failed in transport (connection, DNS, timeout).
    Network,
    /// The registry answered with a status outside 200..=299.
    HttpStatus(u16),
    /// The body was not the JSON document expected.
    InvalidPayload,
    /// The "latest" tag names a version that the version map lacks.
    UnknownVersion,
}

/// One entry of the registry's version map.
#[derive(Clone, Debug)]
pub struct RegistryVersion {
    pub version: String,
    pub deprecated: Option<String>,
    pub unpacked_size: Option<u64>,
}

/// The part of a registry document that the rules read.
#[derive(Clone, Debug)]
pub struct RegistryRecord {
    /// The version that the "latest" distribution tag names.
    pub latest: String,
    pub versions: Vec<RegistryVersion>,
    /// The time record: event name and timestamp text.
    pub time: Vec<(String, String)>,
    /// The length of the maintainer list, if the registry gave one.
    pub maintainers: Option<usize>,
}

/// The day number that `chrono::NaiveDate::parse_from_str(s, fmt)` yields, or `None` where it fails.
pub uninterp spec fn parsed_day(s: Seq<char>, fmt: Seq<char>) -> Option<int>;

/// Relies on `chrono::NaiveDate::parse_from_str` and `Datelike::num_days_from_ce`.
#[verifier::external_body]
fn parse_date(s: &str, fmt: &str) -> (r: Option<Date>)
    ensures
        match r {
            Some(d) => parsed_day(s@, fmt@) == Some(d.day as int),
            None => parsed_day(s@, fmt@) is None,
        },
{
    match chrono::NaiveDate::parse_from_str(s, fmt) {
        Ok(d) => Some(Date { day: chrono::Datelike::num_days_from_ce(&d) }),
        Err(_) => None,
    }
}

/// Relies on `chrono::Utc::now` and `Datelike::num_days_from_ce`: the current UTC date.
#[verifier::external_body]
pub(crate) fn today() -> (r: Date) {
    Date { day: chrono::Datelike::num_days_from_ce(&chrono::Utc::now().date_naive()) }
}

/// The format of the registry's modification timestamp.
pub open spec fn timestamp_format() -> Seq<char> {
    "%Y-%m-%dT%H:%M:%S%.fZ"@
}

/// `i` is the first position at which `keys` holds `key`.
pub open spec fn first_match(keys: Seq<Seq<char>>, key: Seq<char>, i: int) -> bool {
    0 <= i < keys.len() && keys[i] == key && forall|j: int| 0 <= j < i ==> keys[j] != key
}

pub open spec fn version_keys(vs: Seq<RegistryVersion>) -> Seq<Seq<char>> {
    vs.map_values(|v: RegistryVersion| v.version@)
}

pub open spec fn time_keys(t: Seq<(String, String)>) -> Seq<Seq<char>> {
    t.map_values(|e: (String, String)| e.0@)
}

/// The date of the first "modified" entry of a time record, where it parses.
pub open spec fn modified_day(t: Seq<(String, String)>) -> Option<int> {
    if exists|i: int| first_match(time_keys(t), "modified"@, i) {
        let i = choose|i: int| first_match(time_keys(t), "modified"@, i);
        parsed_day(t[i].1@, timestamp_format())
    } else {
        None
    }
}

/// The metadata that a record gives for package `name`, reading version entry `i`.
pub open spec fn meta_of(name: Seq<char>, rec: RegistryRecord, i: int) -> PackageMetaView {
    let v = rec.versions@[i];
    PackageMetaView {
        name: name,
        deprecated: match v.deprecated {
            Some(s) => Some(s@),
            None => None,
        },
        unpacked_size: match v.unpacked_size {
            Some(n) => Some(n as nat),
            None => None,
        },
        last_updated: modified_day(rec.time@),
        maintainer_count: match rec.maintainers {
            Some(n) => n as nat,
            None => 0,
        },
    }
}

/// `r` is what reading package `name` out of record `rec` gives: the metadata of the
/// first entry of the version that "latest" names, or `UnknownVersion` where there is none.
pub open spec fn resolves(name: Seq<char>, rec: RegistryRecord, r: Result<PackageMeta, FetchError>) -> bool {
    match r {
        Ok(m) => exists|i: int| first_match(version_keys(rec.versions@), rec.latest@, i) && m@ == meta_of(name, rec, i),
        Err(e) => e == FetchError::UnknownVersion && forall|i: int|
            0 <= i < rec.versions@.len() ==> rec.versions@[i].version@ != rec.latest@,
    }
}

proof fn lemma_first_match_unique(keys: Seq<Seq<char>>, key: Seq<char>, i: int, j: int)
    requires
        first_match(keys, key, i),
        first_match(keys, key, j),
    ensures
        i == j,
{
}

/// Whether a response status counts as success; any other is reported as `HttpStatus`.
pub fn check_status(status: u16) -> (r: Result<(), FetchError>)
    ensures
        r == (if 200 <= status <= 299 {
            Ok::<(), FetchError>(())
        } else {
            Err(FetchError::HttpStatus(status))
        }),
{
    if 200 <= status && status <= 299 {
        Ok(())
    } else {
        Err(FetchError::HttpStatus(status))
    }
}

fn find_version(vs: &Vec<RegistryVersion>, key: &String) -> (r: Option<usize>)
    ensures
        match r {
            Some(i) => first_match(version_keys(vs@), key@, i as int),
            None => forall|i: int| 0 <= i < vs@.len() ==> vs@[i].version@ != key@,
        },
{
    let mut i: usize = 0;
    while i < vs.len()
        invariant
            i <= vs@.len(),
            forall|j: int| 0 <= j < i ==> vs@[j].version@ != key@,
        decreases vs@.len() - i,
    {
        if vs[i].version == *key {
            return Some(i);
        }
        i = i + 1;
    }
    None
}

fn find_event(t: &Vec<(String, String)>, key: &String) -> (r: Option<usize>)
    ensures
        match r {
            Some(i) => first_match(time_keys(t@), key@, i as int),
            None => forall|i: int| 0 <= i < t@.len() ==> t@[i].0@ != key@,
        },
{
    let mut i: usize = 0;
    while i < t.len()
        invariant
            i <= t@.len(),
            forall|j: int| 0 <= j < i ==> t@[j].0@ != key@,
        decreases t@.len() - i,
    {
        if t[i].0 == *key {
            return Some(i);
        }
        i = i + 1;
    }
    None
}

/// The date of the record's modification timestamp, where there is one and it parses.
fn modified_date(t: &Vec<(String, String)>) -> (r: Option<Date>)
    ensures
        match r {
            Some(d) => modified_day(t@) == Some(d.day as int),
            None => modified_day(t@) is None,
        },
{
    let key = String::from_str("modified");
    assert(key@ == "modified"@);
    match find_event(t, &key) {
        Some(i) => {
            let r = parse_date(t[i].1.as_str(), "%Y-%m-%dT%H:%M:%S%.fZ");
            proof {
                let k = choose|k: int| first_match(time_keys(t@), "modified"@, k);
                lemma_first_match_unique(time_keys(t@), "modified"@, i as int, k);
            }
            r
        },
        None => {
            assert(!exists|i: int| first_match(time_keys(t@), "modified"@, i));
            None
        },
    }
}

/// Reads the metadata of package `name` out of its registry record: the entry of the
/// version that "latest" names, the "modified" date, and the maintainer count.
pub fn metadata_from_record(name: &str, rec: &RegistryRecord) -> (r: Result<PackageMeta, FetchError>)
    ensures
        resolves(name@, *rec, r),
{
    match find_version(&rec.versions, &rec.latest) {
        None => Err(FetchError::UnknownVersion),
        Some(i) => {
            let v = &rec.versions[i];
            let maintainer_count: usize = match rec.maintainers {
                Some(n) => n,
                None => 0,
            };
            let m = PackageMeta {
                name: name.to_owned(),
                deprecated: v.deprecated.clone(),
                unpacked_size: v.unpacked_size,
                last_updated: modified_date(&rec.time),
                maintainer_count,
            };
            assert(m@ == meta_of(name@, *rec, i as int));
            Ok(m)
        },
    }
}

/// The outcome of one registry request for package `name`: a status outside 200..=299
/// gives `HttpStatus`, a body that did not decode (`record` absent) gives
/// `InvalidPayload`, and a decoded record is read as `metadata_from_record` reads it.
pub fn resolve_response(name: &str, status: u16, record: Option<RegistryRecord>) -> (r: Result<PackageMeta, FetchError>)
    ensures
        !(200 <= status <= 299) ==> r == Err::<PackageMeta, FetchError>(FetchError::HttpStatus(status)),
        200 <= status <= 299 && record is None ==> r == Err::<PackageMeta, FetchError>(FetchError::InvalidPayload),
        200 <= status <= 299 && record is Some ==> resolves(name@, record->Some_0, r),
{
    match check_status(status) {
        Err(e) => Err(e),
        Ok(()) => match record {
            None => Err(FetchError::InvalidPayload),
            Some(rec) => metadata_from_record(name, &rec),
        },
    }
}

} // verus!
