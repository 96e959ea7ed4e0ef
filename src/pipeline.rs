//! The two-phase filter and join: stops inside a bounding box, then the stop-times
//! that refer to one of them.
//!
//! Coordinates are order keys: integers ordered as the degree values they stand for.
//! Records are read and written by the caller; this module decides which of them go
//! to the outputs, and when the stop-times output is flushed.
use vstd::prelude::*;

verus! {

/// The stop-times output is flushed after every this many processed records.
pub const FLUSH_EVERY: u64 = 100;

/// Why a pipeline could not be built.
#[derive(Debug, Clone, Copy, PartialEq, Eq, Structural)]
pub enum PipelineError {
    /// A minimum above its maximum, on either axis.
    InvalidBoundingBox,
}

/// A latitude and longitude rectangle, inclusive on both ends.
#[derive(Debug, Clone, Copy, PartialEq, Eq, Structural)]
pub struct BoundingBox {
    pub min_latitude: i64,
    pub max_latitude: i64,
    pub min_longitude: i64,
    pub max_longitude: i64,
}

impl BoundingBox {
    pub open spec fn valid(&self) -> bool {
        self.min_latitude <= self.max_latitude && self.min_longitude <= self.max_longitude
    }

    /// Whether a stop with these coordinates lies in the box; one without both does not.
    pub open spec fn holds(&self, lat: Option<i64>, lon: Option<i64>) -> bool {
        match (lat, lon) {
            (Some(a), Some(o)) => self.min_latitude <= a <= self.max_latitude
                && self.min_longitude <= o <= self.max_longitude,
            _ => false,
        }
    }

    /// A box from its four bounds, refused when a minimum exceeds its maximum.
    pub fn new(min_latitude: i64, max_latitude: i64, min_longitude: i64, max_longitude: i64) -> (r:
        Result<BoundingBox, PipelineError>)
        ensures
            min_latitude <= max_latitude && min_longitude <= max_longitude ==> r == Ok::<
                BoundingBox,
                PipelineError,
            >(
                (BoundingBox { min_latitude, max_latitude, min_longitude, max_longitude }),
            ),
            !(min_latitude <= max_latitude && min_longitude <= max_longitude) ==> r == Err::<
                BoundingBox,
                PipelineError,
            >(PipelineError::InvalidBoundingBox),
    {
        if min_latitude <= max_latitude && min_longitude <= max_longitude {
            Ok(BoundingBox { min_latitude, max_latitude, min_longitude, max_longitude })
        } else {
            Err(PipelineError::InvalidBoundingBox)
        }
    }

    pub fn contains(&self, lat: Option<i64>, lon: Option<i64>) -> (r: bool)
        ensures
            r == self.holds(lat, lon),
    {
        match (lat, lon) {
            (Some(a), Some(o)) => self.min_latitude <= a && a <= self.max_latitude
                && self.min_longitude <= o && o <= self.max_longitude,
            _ => false,
        }
    }
}

/// A stop as the filter sees it: its id and its coordinates.
pub type StopSeen = (Seq<char>, Option<i64>, Option<i64>);

/// The ids of the stops in `stops` that lie in `b`.
pub open spec fn matched_set(b: BoundingBox, stops: Seq<StopSeen>) -> Set<Seq<char>>
    decreases stops.len(),
{
    if stops.len() == 0 {
        Set::empty()
    } else {
        let prev = matched_set(b, stops.drop_last());
        let x = stops.last();
        if b.holds(x.1, x.2) {
            prev.insert(x.0)
        } else {
            prev
        }
    }
}

/// Whether a stop-time with this stop id goes to the output, given the matched ids.
pub open spec fn keeps_stop_time(matched: Set<Seq<char>>, stop_id: Option<Seq<char>>) -> bool {
    match stop_id {
        Some(id) => matched.contains(id),
        None => false,
    }
}

/// Which stops go to the stops output, record by record.
pub open spec fn stop_decisions(b: BoundingBox, stops: Seq<StopSeen>) -> Seq<bool> {
    stops.map_values(|x: StopSeen| b.holds(x.1, x.2))
}

/// Which stop-times go to the stop-times output, record by record, after phase one
/// has read `stops`.
pub open spec fn stop_time_decisions(
    b: BoundingBox,
    stops: Seq<StopSeen>,
    stop_ids: Seq<Option<Seq<char>>>,
) -> Seq<bool> {
    stop_ids.map_values(|x: Option<Seq<char>>| keeps_stop_time(matched_set(b, stops), x))
}

/// The bounds are inclusive: a stop on any edge or corner of a valid box is inside it,
/// and a stop missing either coordinate is outside every box.
pub proof fn lemma_box_inclusive(b: BoundingBox, lat: i64, lon: i64)
    requires
        b.valid(),
        b.min_latitude <= lat <= b.max_latitude,
        b.min_longitude <= lon <= b.max_longitude,
    ensures
        b.holds(Some(lat), Some(lon)),
        b.holds(Some(b.min_latitude), Some(lon)),
        b.holds(Some(b.max_latitude), Some(lon)),
        b.holds(Some(lat), Some(b.min_longitude)),
        b.holds(Some(lat), Some(b.max_longitude)),
        b.holds(Some(b.min_latitude), Some(b.min_longitude)),
        b.holds(Some(b.max_latitude), Some(b.max_longitude)),
        !b.holds(None, Some(lon)),
        !b.holds(Some(lat), None),
        !b.holds(None, None),
{
}

proof fn lemma_matched_set_members(b: BoundingBox, stops: Seq<StopSeen>, id: Seq<char>)
    ensures
        matched_set(b, stops).contains(id) <==> exists|i: int|
            0 <= i < stops.len() && (#[trigger] stops[i]).0 == id && b.holds(stops[i].1, stops[i].2),
    decreases stops.len(),
{
    if stops.len() > 0 {
        let prev = stops.drop_last();
        lemma_matched_set_members(b, prev, id);
        if matched_set(b, stops).contains(id) {
            if !matched_set(b, prev).contains(id) {
                let i = stops.len() - 1;
                assert(stops[i].0 == id && b.holds(stops[i].1, stops[i].2));
            } else {
                let i = choose|i: int|
                    0 <= i < prev.len() && (#[trigger] prev[i]).0 == id && b.holds(
                        prev[i].1,
                        prev[i].2,
                    );
                assert(stops[i] == prev[i]);
            }
        }
        if exists|i: int|
            0 <= i < stops.len() && (#[trigger] stops[i]).0 == id && b.holds(
                stops[i].1,
                stops[i].2,
            ) {
            let i = choose|i: int|
                0 <= i < stops.len() && (#[trigger] stops[i]).0 == id && b.holds(
                    stops[i].1,
                    stops[i].2,
                );
            if i < prev.len() {
                assert(prev[i] == stops[i]);
            }
        }
    }
}

/// A stop-time with a stop id is kept exactly when some stop read in phase one has
/// that id and lies in the box; one without a stop id is never kept.
pub proof fn lemma_join_correct(b: BoundingBox, stops: Seq<StopSeen>, stop_id: Option<Seq<char>>)
    ensures
        stop_id matches Some(id) ==> (keeps_stop_time(matched_set(b, stops), stop_id)
            <==> exists|i: int|
            0 <= i < stops.len() && (#[trigger] stops[i]).0 == id && b.holds(
                stops[i].1,
                stops[i].2,
            )),
        stop_id is None ==> !keeps_stop_time(matched_set(b, stops), stop_id),
{
    if let Some(id) = stop_id {
        lemma_matched_set_members(b, stops, id);
    }
}

/// Two runs over the same box and the same records make the same decisions for
/// every record of both tables, so they write the same outputs.
pub proof fn lemma_runs_agree(
    b1: BoundingBox,
    stops1: Seq<StopSeen>,
    ids1: Seq<Option<Seq<char>>>,
    b2: BoundingBox,
    stops2: Seq<StopSeen>,
    ids2: Seq<Option<Seq<char>>>,
)
    requires
        b1 == b2,
        stops1 == stops2,
        ids1 == ids2,
    ensures
        stop_decisions(b1, stops1) == stop_decisions(b2, stops2),
        stop_time_decisions(b1, stops1, ids1) == stop_time_decisions(b2, stops2, ids2),
{
}

/// The texts of the strings in `v`.
pub open spec fn ids_of(v: Seq<String>) -> Set<Seq<char>> {
    Set::new(|x: Seq<char>| exists|i: int| 0 <= i < v.len() && (#[trigger] v[i])@ == x)
}

proof fn lemma_ids_of_push(v: Seq<String>, s: String)
    ensures
        ids_of(v.push(s)) == ids_of(v).insert(s@),
{
    let w = v.push(s);
    assert forall|x: Seq<char>| ids_of(w).contains(x) <==> ids_of(v).insert(s@).contains(x) by {
        if ids_of(v).contains(x) {
            let i = choose|i: int| 0 <= i < v.len() && (#[trigger] v[i])@ == x;
            assert(w[i] == v[i]);
        }
        if x == s@ {
            assert(w[v.len() as int] == s);
        }
        if ids_of(w).contains(x) {
            let i = choose|i: int| 0 <= i < w.len() && (#[trigger] w[i])@ == x;
            if i < v.len() {
                assert(w[i] == v[i]);
            }
        }
    }
    assert(ids_of(w) =~= ids_of(v).insert(s@));
}

/// Whether one of `v` has the text of `key`.
fn find_id(v: &Vec<String>, key: &String) -> (r: bool)
    ensures
        r == ids_of(v@).contains(key@),
{
    let mut i: usize = 0;
    while i < v.len()
        invariant
            i <= v.len(),
            forall|j: int| 0 <= j < i ==> (#[trigger] v@[j])@ != key@,
        decreases v.len() - i,
    {
        if v[i] == *key {
            return true;
        }
        i = i + 1;
    }
    assert(!ids_of(v@).contains(key@));
    false
}

/// Phase one: reads stops and keeps the ids of those in the box.
pub struct StopFilter {
    bbox: BoundingBox,
    matched: Vec<String>,
    seen: Ghost<Seq<StopSeen>>,
}

impl StopFilter {
    pub closed spec fn wf(&self) -> bool {
        &&& self.bbox.valid()
        &&& ids_of(self.matched@) == matched_set(self.bbox, self.seen@)
    }

    pub closed spec fn bounding_box(&self) -> BoundingBox {
        self.bbox
    }

    /// The stops offered so far, in order.
    pub closed spec fn seen(&self) -> Seq<StopSeen> {
        self.seen@
    }

    /// The ids of the stops offered so far that lie in the box.
    pub open spec fn matched(&self) -> Set<Seq<char>> {
        matched_set(self.bounding_box(), self.seen())
    }

    /// A filter for `bbox`, refused when the box is not valid.
    pub fn new(bbox: BoundingBox) -> (r: Result<StopFilter, PipelineError>)
        ensures
            bbox.valid() <==> r is Ok,
            r matches Ok(f) ==> f.wf() && f.bounding_box() == bbox && f.seen() == Seq::<
                StopSeen,
            >::empty() && f.matched() == Set::<Seq<char>>::empty(),
            r matches Err(e) ==> e == PipelineError::InvalidBoundingBox,
    {
        if bbox.min_latitude <= bbox.max_latitude && bbox.min_longitude <= bbox.max_longitude {
            let matched: Vec<String> = Vec::new();
            proof {
                assert(ids_of(matched@) =~= Set::<Seq<char>>::empty());
            }
            Ok(StopFilter { bbox, matched, seen: Ghost(Seq::empty()) })
        } else {
            Err(PipelineError::InvalidBoundingBox)
        }
    }

    /// Offers the next stop; returns whether it lies in the box, and so goes to the
    /// stops output and into the matched ids.
    pub fn offer_stop(&mut self, stop_id: &str, lat: Option<i64>, lon: Option<i64>) -> (r: bool)
        requires
            old(self).wf(),
        ensures
            final(self).wf(),
            final(self).bounding_box() == old(self).bounding_box(),
            final(self).seen() == old(self).seen().push((stop_id@, lat, lon)),
            r == old(self).bounding_box().holds(lat, lon),
            final(self).matched() == if r {
                old(self).matched().insert(stop_id@)
            } else {
                old(self).matched()
            },
    {
        let ghost x: StopSeen = (stop_id@, lat, lon);
        let ghost s2 = self.seen@.push(x);
        proof {
            assert(s2.drop_last() =~= self.seen@);
        }
        let inside = self.bbox.contains(lat, lon);
        if inside {
            let key = stop_id.to_owned();
            if !find_id(&self.matched, &key) {
                proof {
                    lemma_ids_of_push(self.matched@, key);
                }
                self.matched.push(key);
            } else {
                proof {
                    assert(ids_of(self.matched@).insert(key@) =~= ids_of(self.matched@));
                }
            }
        }
        self.seen = Ghost(s2);
        inside
    }

    /// Ends phase one: the join reads the ids matched so far.
    pub fn into_join(self) -> (r: StopTimeJoin)
        requires
            self.wf(),
        ensures
            r.matched_ids() == self.matched(),
            r.processed() == 0,
    {
        StopTimeJoin { matched: self.matched, processed: 0 }
    }
}

/// What to do with one stop-time record.
#[derive(Debug, Clone, Copy, PartialEq, Eq, Structural)]
pub struct StopTimeStep {
    /// Write the record to the stop-times output.
    pub emit: bool,
    /// Flush the stop-times output after this record.
    pub flush: bool,
}

/// Phase two: reads stop-times and keeps those whose stop was matched.
pub struct StopTimeJoin {
    matched: Vec<String>,
    processed: u64,
}

impl StopTimeJoin {
    pub closed spec fn matched_ids(&self) -> Set<Seq<char>> {
        ids_of(self.matched@)
    }

    pub closed spec fn processed(&self) -> nat {
        self.processed as nat
    }

    /// The number of records offered so far.
    pub fn processed_count(&self) -> (r: u64)
        ensures
            r == self.processed(),
    {
        self.processed
    }

    /// Whether a stop id is among the matched ones.
    pub fn is_matched(&self, stop_id: &str) -> (r: bool)
        ensures
            r == self.matched_ids().contains(stop_id@),
    {
        let key = stop_id.to_owned();
        find_id(&self.matched, &key)
    }

    /// Offers the next stop-time record by its stop id.
    pub fn offer_stop_time(&mut self, stop_id: Option<&str>) -> (r: StopTimeStep)
        requires
            old(self).processed() < u64::MAX,
        ensures
            final(self).matched_ids() == old(self).matched_ids(),
            final(self).processed() == old(self).processed() + 1,
            r.emit == keeps_stop_time(
                old(self).matched_ids(),
                match stop_id {
                    Some(s) => Some(s@),
                    None => None,
                },
            ),
            r.flush == (final(self).processed() % (FLUSH_EVERY as nat) == 0),
    {
        let emit = match stop_id {
            Some(s) => self.is_matched(s),
            None => false,
        };
        self.processed = self.processed + 1;
        StopTimeStep { emit, flush: self.processed % FLUSH_EVERY == 0 }
    }
}

} // verus!
