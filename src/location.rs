//! Geocoding: the query sent to the geocoding service, and how its results
//! become ranked locations.

use vstd::prelude::*;

use crate::failure::{decimal, decimal_text, ErrorKind, Failure};
use crate::query::Query;

verus! {

/// One result of the geocoding service, as decoded from its JSON reply.
///
/// Coordinates are IEEE-754 double-precision bit patterns: the library carries
/// them unchanged and never computes with them.
pub struct PlaceRecord {
    pub name: String,
    pub latitude: u64,
    pub longitude: u64,
    pub population: Option<u32>,
    /// The most general administrative region; always present.
    pub admin1: String,
    pub admin2: Option<String>,
    pub admin3: Option<String>,
    /// The most specific administrative region.
    pub admin4: Option<String>,
}

/// A candidate location for the place that was asked for.
///
/// Coordinates are IEEE-754 double-precision bit patterns, as in `PlaceRecord`.
#[derive(Debug)]
pub struct Location {
    pub name: String,
    pub qualified_name: String,
    pub population: Option<u32>,
    pub latitude: u64,
    pub longitude: u64,
}

/// An administrative region's name followed by the separator, or nothing when
/// the region is absent.
pub open spec fn segment(region: Option<String>) -> Seq<char> {
    match region {
        Some(s) => s@ + ", "@,
        None => Seq::empty(),
    }
}

/// The administrative regions of a record, most specific first, separated by
/// ", ", with no separator after the last and no segment for an absent region.
pub open spec fn qualified_name_of(r: PlaceRecord) -> Seq<char> {
    segment(r.admin4) + segment(r.admin3) + segment(r.admin2) + r.admin1@
}

/// The location that a geocoding record stands for.
pub open spec fn location_of(r: PlaceRecord, l: Location) -> bool {
    &&& l.name@ == r.name@
    &&& l.qualified_name@ == qualified_name_of(r)
    &&& l.population == r.population
    &&& l.latitude == r.latitude
    &&& l.longitude == r.longitude
}

/// The ranking key of a population: known populations rank by their value,
/// and an unknown one ranks below all of them.
pub open spec fn rank(population: Option<u32>) -> int {
    match population {
        Some(p) => p as int,
        None => -1,
    }
}

/// Whether the locations are in ranking order: population descending, unknown
/// populations last.
pub open spec fn ranked(s: Seq<Location>) -> bool {
    forall|i: int, j: int| 0 <= i < j < s.len() ==> rank(#[trigger] s[i].population) >= rank(
        #[trigger] s[j].population,
    )
}

/// The locations of `s` whose ranking key is `k`, in their order in `s`.
pub open spec fn with_rank(s: Seq<Location>, k: int) -> Seq<Location> {
    s.filter(|l: Location| rank(l.population) == k)
}

/// `r` is `s` sorted into ranking order, keeping the relative order of
/// locations with equal keys.
pub open spec fn stably_ranked(s: Seq<Location>, r: Seq<Location>) -> bool {
    &&& ranked(r)
    &&& forall|k: int| #[trigger] with_rank(r, k) == with_rank(s, k)
}

/// Appends `region` and the separator to `out`, when the region is present.
fn push_segment(out: &mut String, region: &Option<String>)
    ensures
        final(out)@ == old(out)@ + segment(*region),
{
    if let Some(name) = region {
        out.append(name.as_str());
        out.append(", ");
        assert(final(out)@ =~= old(out)@ + segment(*region));
    } else {
        assert(final(out)@ =~= old(out)@ + segment(*region));
    }
}

impl PlaceRecord {
    /// The record's administrative regions, most specific first, as one name.
    pub fn qualified_name(&self) -> (r: String)
        ensures
            r@ == qualified_name_of(*self),
    {
        let mut n = String::new();
        push_segment(&mut n, &self.admin4);
        push_segment(&mut n, &self.admin3);
        push_segment(&mut n, &self.admin2);
        n.append(self.admin1.as_str());
        assert(n@ =~= qualified_name_of(*self));
        n
    }

    /// The location that this record stands for.
    pub fn into_location(self) -> (l: Location)
        ensures
            location_of(self, l),
    {
        let qualified_name = self.qualified_name();
        Location {
            name: self.name,
            qualified_name,
            population: self.population,
            latitude: self.latitude,
            longitude: self.longitude,
        }
    }
}

/// Whether a population ranks strictly below another.
fn ranks_below(a: Option<u32>, b: Option<u32>) -> (r: bool)
    ensures
        r == (rank(a) < rank(b)),
{
    match (a, b) {
        (Some(x), Some(y)) => x < y,
        (None, Some(_)) => true,
        (_, None) => false,
    }
}

proof fn lemma_insert_ranked(out: Seq<Location>, pos: int, x: Location)
    requires
        ranked(out),
        0 <= pos <= out.len(),
        forall|j: int| 0 <= j < pos ==> rank(#[trigger] out[j].population) >= rank(x.population),
        forall|j: int|
            pos <= j < out.len() ==> rank(#[trigger] out[j].population) < rank(x.population),
    ensures
        ranked(out.insert(pos, x)),
        forall|k: int|
            #[trigger] with_rank(out.insert(pos, x), k) == if rank(x.population) == k {
                with_rank(out, k).push(x)
            } else {
                with_rank(out, k)
            },
{
    let r = out.insert(pos, x);
    let front = out.subrange(0, pos);
    let back = out.subrange(pos, out.len() as int);
    assert(r =~= front + seq![x] + back);
    assert(out =~= front + back);
    assert forall|k: int|
        #[trigger] with_rank(r, k) == if rank(x.population) == k {
            with_rank(out, k).push(x)
        } else {
            with_rank(out, k)
        } by {
        let p = |l: Location| rank(l.population) == k;
        Seq::filter_distributes_over_add(front + seq![x], back, p);
        Seq::filter_distributes_over_add(front, seq![x], p);
        Seq::filter_distributes_over_add(front, back, p);
        Seq::<Location>::empty().lemma_filter_push(x, p);
        assert(seq![x] =~= Seq::<Location>::empty().push(x));
        reveal(Seq::filter);
        assert(Seq::<Location>::empty().filter(p) =~= Seq::<Location>::empty());
        if rank(x.population) == k {
            assert forall|j: int| 0 <= j < back.len() implies !p(#[trigger] back[j]) by {
                assert(back[j] == out[pos + j]);
            }
            back.lemma_all_neg_filter_empty(p);
            assert(back.filter(p) =~= Seq::<Location>::empty());
            assert(front.filter(p) + seq![x] + back.filter(p) =~= (front.filter(p)
                + back.filter(p)).push(x));
        } else {
            assert(front.filter(p) + Seq::<Location>::empty() =~= front.filter(p));
        }
    }
}

/// Sorts locations into ranking order: population descending, unknown
/// populations after all known ones, and locations with equal keys in the
/// order they came in.
pub fn rank_locations(v: Vec<Location>) -> (r: Vec<Location>)
    ensures
        stably_ranked(v@, r@),
{
    let ghost orig = v@;
    let mut rest = v;
    let mut out: Vec<Location> = Vec::new();
    proof {
        assert(orig.subrange(0, 0) =~= out@);
    }
    while rest.len() > 0
        invariant
            rest.len() <= orig.len(),
            rest@ == orig.subrange(orig.len() - rest.len(), orig.len() as int),
            stably_ranked(orig.subrange(0, orig.len() - rest.len()), out@),
        decreases rest.len(),
    {
        let ghost m = orig.len() - rest.len();
        let x = rest.remove(0);
        let mut pos: usize = 0;
        while pos < out.len() && !ranks_below(out[pos].population, x.population)
            invariant
                pos <= out.len(),
                forall|j: int|
                    0 <= j < pos ==> rank(#[trigger] out@[j].population) >= rank(x.population),
            decreases out.len() - pos,
        {
            pos = pos + 1;
        }
        proof {
            assert forall|j: int| pos <= j < out.len() implies rank(
                #[trigger] out@[j].population,
            ) < rank(x.population) by {
                assert(rank(out@[pos as int].population) >= rank(out@[j].population));
            }
            lemma_insert_ranked(out@, pos as int, x);
            assert(x == orig[m]);
            assert(orig.subrange(0, m + 1) =~= orig.subrange(0, m).push(x));
            assert forall|k: int| #[trigger]
                with_rank(orig.subrange(0, m + 1), k) == if rank(x.population) == k {
                    with_rank(orig.subrange(0, m), k).push(x)
                } else {
                    with_rank(orig.subrange(0, m), k)
                } by {
                orig.subrange(0, m).lemma_filter_push(x, |l: Location| rank(l.population) == k);
            }
        }
        out.insert(pos, x);
        proof {
            assert(rest@ =~= orig.subrange(orig.len() - rest.len(), orig.len() as int));
        }
    }
    proof {
        assert(orig.subrange(0, orig.len() as int) =~= orig);
    }
    out
}

/// The parameters of the request to the geocoding service, in the order they
/// are sent.
#[derive(Debug)]
pub struct GeoQuery {
    pub name: String,
    pub count: u32,
    pub language: String,
    pub format: String,
}

/// The context under which a failure of the geocoding stage is reported.
pub open spec fn search_context() -> Seq<char> {
    "searching for location"@
}

/// The message for a geocoding reply whose status is not success.
pub open spec fn search_status_message(status: u16) -> Seq<char> {
    "geocoding-api returned status "@ + decimal(status as nat)
}

/// The context under which an unreadable geocoding reply is reported.
pub open spec fn search_parse_context() -> Seq<char> {
    "parsing geocoding-api response"@
}

/// `ls` holds one location for each record, each the location that its record
/// stands for, in ranking order and stable among equal keys.
pub open spec fn ranked_locations_of(records: Seq<PlaceRecord>, ls: Seq<Location>) -> bool {
    exists|m: Seq<Location>|
        {
            &&& m.len() == records.len()
            &&& forall|i: int| 0 <= i < m.len() ==> location_of(#[trigger] records[i], m[i])
            &&& stably_ranked(m, ls)
        }
}

/// The geocoding request for a query: the place name and count asked for, in
/// English, as JSON.
pub fn geocoding_query(q: &Query) -> (r: GeoQuery)
    ensures
        r.name@ == q.city@,
        r.count == q.count,
        r.language@ == "en"@,
        r.format@ == "json"@,
{
    GeoQuery {
        name: q.city.clone(),
        count: q.count,
        language: String::from_str("en"),
        format: String::from_str("json"),
    }
}

/// The failure for a geocoding request that could not be made, or got no
/// reply; `cause` says why.
pub fn search_unreachable(cause: String) -> (f: Failure)
    ensures
        f.kind == ErrorKind::Upstream,
        f.lines() == seq![search_context(), cause@],
{
    let ghost c = cause@;
    let f = Failure::new(ErrorKind::Upstream, cause).context(
        String::from_str("searching for location"),
    );
    assert(f.lines() =~= seq![search_context(), c]);
    f
}

/// Checks the status of the geocoding reply: only success lets the reply's
/// body be read.
pub fn search_status(status: u16) -> (r: Result<(), Failure>)
    ensures
        r is Ok <==> status == 200,
        status != 200 ==> (r matches Err(f) && f.kind == ErrorKind::Upstream && f.lines() == seq![
            search_context(),
            search_status_message(status),
        ]),
{
    if status == 200 {
        Ok(())
    } else {
        let message = String::from_str("geocoding-api returned status ");
        let message = message.concat(decimal_text(status as u32).as_str());
        let f = Failure::new(ErrorKind::Upstream, message).context(
            String::from_str("searching for location"),
        );
        assert(f.lines() =~= seq![search_context(), search_status_message(status)]);
        Err(f)
    }
}

/// Turns the decoded body of a successful geocoding reply into ranked
/// locations. A body that did not decode is a failure carrying the decoder's
/// message; no records is no failure.
pub fn search_results(body: Result<Vec<PlaceRecord>, String>) -> (r: Result<
    Vec<Location>,
    Failure,
>)
    ensures
        body matches Err(m) ==> (r matches Err(f) && f.kind == ErrorKind::Upstream && f.lines()
            == seq![search_context(), search_parse_context(), m@]),
        body matches Ok(records) ==> (r matches Ok(ls) && ranked_locations_of(records@, ls@)),
{
    match body {
        Err(m) => {
            let ghost c = m@;
            let f = Failure::new(ErrorKind::Upstream, m);
            let f = f.context(String::from_str("parsing geocoding-api response"));
            let f = f.context(String::from_str("searching for location"));
            assert(f.lines() =~= seq![search_context(), search_parse_context(), c]);
            Err(f)
        },
        Ok(records) => {
            let ghost orig = records@;
            let mut rest = records;
            let mut mapped: Vec<Location> = Vec::new();
            while rest.len() > 0
                invariant
                    rest.len() <= orig.len(),
                    mapped.len() + rest.len() == orig.len(),
                    rest@ == orig.subrange(mapped.len() as int, orig.len() as int),
                    forall|i: int|
                        0 <= i < mapped.len() ==> location_of(#[trigger] orig[i], mapped@[i]),
                decreases rest.len(),
            {
                let record = rest.remove(0);
                mapped.push(record.into_location());
                proof {
                    assert(rest@ =~= orig.subrange(mapped.len() as int, orig.len() as int));
                }
            }
            let ghost m = mapped@;
            let ls = rank_locations(mapped);
            assert(m.len() == orig.len());
            assert(forall|i: int| 0 <= i < m.len() ==> location_of(#[trigger] orig[i], m[i]));
            Ok(ls)
        },
    }
}

/// The locations that a geocoding reply yields are ordered by population: of
/// two with known populations the earlier has the larger or an equal one, and
/// every location with an unknown population comes after all those with a
/// known one.
pub proof fn lemma_search_results_by_population(records: Seq<PlaceRecord>, s: Seq<Location>)
    requires
        ranked_locations_of(records, s),
    ensures
        forall|i: int, j: int|
            0 <= i < j < s.len() && #[trigger] s[i].population is Some
                && #[trigger] s[j].population is Some ==> s[i].population->Some_0
                >= s[j].population->Some_0,
        forall|i: int, j: int|
            0 <= i < j < s.len() && #[trigger] s[i].population is None ==> #[trigger] s[j].population is None,
{
    let m = choose|m: Seq<Location>|
        {
            &&& m.len() == records.len()
            &&& forall|i: int| 0 <= i < m.len() ==> location_of(#[trigger] records[i], m[i])
            &&& stably_ranked(m, s)
        };
    assert(ranked(s));
    assert forall|i: int, j: int|
        0 <= i < j < s.len() && #[trigger] s[i].population is None implies #[trigger] s[j].population is None by {
        assert(rank(s[i].population) >= rank(s[j].population));
    }
    assert forall|i: int, j: int|
        0 <= i < j < s.len() && #[trigger] s[i].population is Some
            && #[trigger] s[j].population is Some implies s[i].population->Some_0
            >= s[j].population->Some_0 by {
        assert(rank(s[i].population) >= rank(s[j].population));
    }
}

} // verus!
