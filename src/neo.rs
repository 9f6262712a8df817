//! Near-earth-object records, the requests that name them, and the shape of
//! the remote feed's objects.

use vstd::prelude::*;
use crate::date::{date_of_text, parse_date, CalendarDate};
use crate::error::AppError;
use crate::reconcile::Query;
use crate::normalize::object_views;

verus! {

/// The identifier that the local store gives a record (0 before it is stored).
#[derive(Clone, Copy, Debug, PartialEq, Eq, Structural, Hash)]
pub struct NeoId(pub i32);

impl From<i32> for NeoId {
    fn from(value: i32) -> (r: NeoId) {
        NeoId(value)
    }
}

impl vstd::std_specs::convert::FromSpecImpl<i32> for NeoId {
    open spec fn obeys_from_spec() -> bool {
        true
    }

    open spec fn from_spec(v: i32) -> NeoId {
        NeoId(v)
    }
}

impl From<NeoId> for i32 {
    fn from(value: NeoId) -> (r: i32) {
        value.0
    }
}

impl vstd::std_specs::convert::FromSpecImpl<NeoId> for i32 {
    open spec fn obeys_from_spec() -> bool {
        true
    }

    open spec fn from_spec(v: NeoId) -> i32 {
        v.0
    }
}

/// Anything that names an object by its identifier.
pub trait IntoNeoId: Sized {
    spec fn id_value(&self) -> i32;

    fn into_neo_id(self) -> (r: NeoId)
        ensures
            r.0 == self.id_value(),
    ;
}

impl IntoNeoId for i32 {
    open spec fn id_value(&self) -> i32 {
        *self
    }

    fn into_neo_id(self) -> (r: NeoId) {
        NeoId::from(self)
    }
}

impl IntoNeoId for NeoId {
    open spec fn id_value(&self) -> i32 {
        self.0
    }

    fn into_neo_id(self) -> (r: NeoId) {
        self
    }
}

/// One close approach of one object. Sizes are in miles, the velocity in
/// miles per hour, and each measure is kept as the decimal text it came as.
#[derive(Debug)]
pub struct Neo {
    pub id: NeoId,
    pub api_id: i32,
    pub designation: String,
    pub diameter_min: String,
    pub diameter_max: String,
    pub hazardous_asteroid: bool,
    pub approach_date: CalendarDate,
    pub velocity: String,
    pub miss_distance: String,
    pub orbiting_body: String,
}

/// A record as plain values.
pub struct NeoView {
    pub id: i32,
    pub api_id: i32,
    pub designation: Seq<char>,
    pub diameter_min: Seq<char>,
    pub diameter_max: Seq<char>,
    pub hazardous_asteroid: bool,
    pub approach_date: CalendarDate,
    pub velocity: Seq<char>,
    pub miss_distance: Seq<char>,
    pub orbiting_body: Seq<char>,
}

impl NeoView {
    /// The same record under another local identifier.
    pub open spec fn with_id(self, id: i32) -> NeoView {
        NeoView { id, ..self }
    }

    /// Whether the approach falls on a day from `begin` to `end`, both included.
    pub open spec fn within(self, begin: CalendarDate, end: CalendarDate) -> bool {
        begin.no_later_than(self.approach_date) && self.approach_date.no_later_than(end)
    }
}

impl View for Neo {
    type V = NeoView;

    open spec fn view(&self) -> NeoView {
        NeoView {
            id: self.id.0,
            api_id: self.api_id,
            designation: self.designation@,
            diameter_min: self.diameter_min@,
            diameter_max: self.diameter_max@,
            hazardous_asteroid: self.hazardous_asteroid,
            approach_date: self.approach_date,
            velocity: self.velocity@,
            miss_distance: self.miss_distance@,
            orbiting_body: self.orbiting_body@,
        }
    }
}

impl Neo {
    pub fn new(
        id: NeoId,
        api_id: i32,
        designation: String,
        diameter_min: String,
        diameter_max: String,
        hazardous_asteroid: bool,
        approach_date: CalendarDate,
        velocity: String,
        miss_distance: String,
        orbiting_body: String,
    ) -> (r: Neo)
        ensures
            r@ == (NeoView {
                id: id.0,
                api_id,
                designation: designation@,
                diameter_min: diameter_min@,
                diameter_max: diameter_max@,
                hazardous_asteroid,
                approach_date,
                velocity: velocity@,
                miss_distance: miss_distance@,
                orbiting_body: orbiting_body@,
            }),
    {
        Neo {
            id,
            api_id,
            designation,
            diameter_min,
            diameter_max,
            hazardous_asteroid,
            approach_date,
            velocity,
            miss_distance,
            orbiting_body,
        }
    }

    /// A copy of this record.
    pub fn duplicate(&self) -> (r: Neo)
        ensures
            r@ == self@,
    {
        Neo {
            id: self.id,
            api_id: self.api_id,
            designation: self.designation.clone(),
            diameter_min: self.diameter_min.clone(),
            diameter_max: self.diameter_max.clone(),
            hazardous_asteroid: self.hazardous_asteroid,
            approach_date: self.approach_date,
            velocity: self.velocity.clone(),
            miss_distance: self.miss_distance.clone(),
            orbiting_body: self.orbiting_body.clone(),
        }
    }
}

/// Every record, for the listing page.
#[derive(Debug)]
pub struct PagePackageNeo {
    pub neos: Vec<Neo>,
}

/// A record as a client submits it, before the store gives it an identifier.
#[derive(Debug)]
pub struct CreateNeo {
    pub api_id: i32,
    pub designation: String,
    pub diameter_min: String,
    pub diameter_max: String,
    pub hazardous_asteroid: bool,
    pub approach_date: String,
    pub velocity: String,
    pub miss_distance: String,
    pub orbiting_body: String,
}

/// A request for the records of one object.
#[derive(Clone, Copy, Debug)]
pub struct GetNeoById {
    pub neo_id: i32,
}

/// A request for the approaches from one day to another, as `YYYY-MM-DD` texts.
#[derive(Debug)]
pub struct DateRange {
    pub begin_date: String,
    pub end_date: String,
}

/// The date range of a page request, as `YYYY-MM-DD` texts.
#[derive(Debug)]
pub struct CreateDateRange {
    pub begin_date: String,
    pub end_date: String,
}

/// The query for the days from `begin` to `end`, if both texts name a day.
pub open spec fn range_query(begin: Seq<char>, end: Seq<char>) -> Result<Query, AppError> {
    match (date_of_text(begin), date_of_text(end)) {
        (Some(b), Some(e)) => Ok(Query::DateRange { begin: b, end: e }),
        _ => Err(AppError::InvalidDate),
    }
}

fn read_range(begin: &str, end: &str) -> (r: Result<Query, AppError>)
    ensures
        r == range_query(begin@, end@),
        r matches Ok(q) ==> q.valid(),
{
    match (parse_date(begin), parse_date(end)) {
        (Some(b), Some(e)) => {
            proof {
                crate::date::lemma_date_text_round_trip(begin@, b);
                crate::date::lemma_date_text_round_trip(end@, e);
            }
            Ok(Query::DateRange { begin: b, end: e })
        },
        _ => Err(AppError::InvalidDate),
    }
}

impl DateRange {
    /// The query for this range; `InvalidDate` when a text names no day.
    pub fn query(&self) -> (r: Result<Query, AppError>)
        ensures
            r == range_query(self.begin_date@, self.end_date@),
            r matches Ok(q) ==> q.valid(),
    {
        read_range(self.begin_date.as_str(), self.end_date.as_str())
    }
}

impl CreateDateRange {
    /// The query for this range; `InvalidDate` when a text names no day.
    pub fn query(&self) -> (r: Result<Query, AppError>)
        ensures
            r == range_query(self.begin_date@, self.end_date@),
            r matches Ok(q) ==> q.valid(),
    {
        read_range(self.begin_date.as_str(), self.end_date.as_str())
    }
}

impl GetNeoById {
    /// The query for this object.
    pub fn query(&self) -> (r: Query)
        ensures
            r == (Query::ByExternalId { id: self.neo_id }),
    {
        Query::ByExternalId { id: self.neo_id }
    }
}

/// The speed of an approach, as the feed writes it.
#[derive(Debug)]
pub struct Velocity {
    pub miles_per_hour: String,
}

/// How far an approach passes, as the feed writes it.
#[derive(Debug)]
pub struct MissedDistance {
    pub miles: String,
}

/// One close approach of an object, as the feed writes it.
#[derive(Debug)]
pub struct ApproachData {
    pub close_approach_date: String,
    pub relative_velocity: Velocity,
    pub miss_distance: MissedDistance,
    pub orbiting_body: String,
}

/// The size bounds of an object in miles, as the feed writes them.
#[derive(Debug)]
pub struct MilesDiameter {
    pub estimated_diameter_min: String,
    pub estimated_diameter_max: String,
}

#[derive(Debug)]
pub struct Diameter {
    pub miles: MilesDiameter,
}

/// One object of the feed with its close approaches; every text is a scalar
/// of the feed with its quoting removed.
#[derive(Debug)]
pub struct NeoJson {
    pub id: String,
    pub designation: String,
    pub estimated_diameter: Diameter,
    pub is_potentially_hazardous_asteroid: bool,
    pub close_approach_data: Vec<ApproachData>,
}

/// An approach of the feed as plain values.
pub struct ApproachText {
    pub date: Seq<char>,
    pub velocity: Seq<char>,
    pub miss_distance: Seq<char>,
    pub orbiting_body: Seq<char>,
}

/// An object of the feed as plain values.
pub struct ObjectText {
    pub id: Seq<char>,
    pub designation: Seq<char>,
    pub diameter_min: Seq<char>,
    pub diameter_max: Seq<char>,
    pub hazardous: bool,
    pub approaches: Seq<ApproachText>,
}

impl View for ApproachData {
    type V = ApproachText;

    open spec fn view(&self) -> ApproachText {
        ApproachText {
            date: self.close_approach_date@,
            velocity: self.relative_velocity.miles_per_hour@,
            miss_distance: self.miss_distance.miles@,
            orbiting_body: self.orbiting_body@,
        }
    }
}

impl View for NeoJson {
    type V = ObjectText;

    open spec fn view(&self) -> ObjectText {
        ObjectText {
            id: self.id@,
            designation: self.designation@,
            diameter_min: self.estimated_diameter.miles.estimated_diameter_min@,
            diameter_max: self.estimated_diameter.miles.estimated_diameter_max@,
            hazardous: self.is_potentially_hazardous_asteroid,
            approaches: self.close_approach_data@.map_values(|a: ApproachData| a@),
        }
    }
}


/// The objects of one date of the feed.
#[derive(Debug)]
pub struct NeoDate {
    pub date: Vec<NeoJson>,
}

/// A feed answer: the objects of each date, date by date.
#[derive(Debug)]
pub struct NeoDateJson {
    pub near_earth_objects: Vec<NeoDate>,
}

impl View for NeoDate {
    type V = Seq<ObjectText>;

    open spec fn view(&self) -> Seq<ObjectText> {
        object_views(self.date@)
    }
}

impl View for NeoDateJson {
    type V = Seq<Seq<ObjectText>>;

    open spec fn view(&self) -> Seq<Seq<ObjectText>> {
        self.near_earth_objects@.map_values(|g: NeoDate| g@)
    }
}

/// The groups `gs` one after another.
pub open spec fn concat(gs: Seq<Seq<ObjectText>>) -> Seq<ObjectText>
    decreases gs.len(),
{
    if gs.len() == 0 {
        Seq::empty()
    } else {
        gs[0] + concat(gs.drop_first())
    }
}

pub proof fn lemma_concat_push(gs: Seq<Seq<ObjectText>>, g: Seq<ObjectText>)
    ensures
        concat(gs.push(g)) == concat(gs) + g,
    decreases gs.len(),
{
    if gs.len() == 0 {
        assert(gs.push(g).drop_first() =~= Seq::<Seq<ObjectText>>::empty());
        assert(concat(gs.push(g).drop_first()) == Seq::<ObjectText>::empty());
        assert(gs.push(g)[0] == g);
        assert(concat(gs.push(g)) =~= g);
    } else {
        assert(gs.push(g).drop_first() =~= gs.drop_first().push(g));
        lemma_concat_push(gs.drop_first(), g);
        assert(concat(gs.push(g)) =~= concat(gs) + g);
    }
}

impl NeoDateJson {
    /// Every object of every date, date by date; the dates are not read.
    pub fn into_objects(self) -> (r: Vec<NeoJson>)
        ensures
            object_views(r@) == concat(self@),
    {
        let ghost all = self@;
        let mut groups = self.near_earth_objects;
        let mut out: Vec<NeoJson> = Vec::new();
        assert(groups@.map_values(|g: NeoDate| g@) =~= all);
        assert(object_views(out@) + concat(all) =~= concat(all));
        while groups.len() > 0
            invariant
                object_views(out@) + concat(groups@.map_values(|g: NeoDate| g@))
                    == concat(all),
            decreases groups.len(),
        {
            let ghost before_out = object_views(out@);
            let ghost before_groups = groups@.map_values(|g: NeoDate| g@);
            let mut g = groups.remove(0);
            let ghost gv = g@;
            out.append(&mut g.date);
            assert(groups@.map_values(|g: NeoDate| g@) =~= before_groups.drop_first());
            assert(object_views(out@) =~= before_out + gv);
            assert(before_out + before_groups[0] + concat(before_groups.drop_first()) =~= before_out
                + concat(before_groups));
        }
        assert(object_views(out@) + concat(groups@.map_values(|g: NeoDate| g@))
            =~= object_views(out@));
        out
    }
}

} // verus!
