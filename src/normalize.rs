//! From a decoded feed document to one record per close approach.
//!
//! Reading happens in two steps. The document is first read against the
//! feed's schema into `NeoJson` values, so that a missing member or a member
//! of the wrong kind fails the whole document at one point. Each (object,
//! approach) pair is then normalized into a record.

use vstd::prelude::*;
use crate::date::{date_of_text, parse_date};
use crate::error::AppError;
use crate::json::{member, Json};
use crate::neo::{
    concat, lemma_concat_push, ApproachData, ApproachText, Diameter, MilesDiameter, MissedDistance,
    Neo, NeoDate, NeoDateJson, NeoId, NeoJson, NeoView, ObjectText, Velocity,
};
use crate::text::{check_decimal, int_of_text, is_decimal, parse_int, strip_quoting, stripped};

verus! {

/// The text of a scalar member: a string without its quoting, or a number as
/// it is written. Other values have none.
pub open spec fn scalar_text(j: Option<Json>) -> Option<Seq<char>> {
    match j {
        Some(Json::Str(s)) => Some(stripped(s@)),
        Some(Json::Number(t)) => Some(t@),
        _ => None,
    }
}

/// Member `k2` of member `k1` of `j`.
pub open spec fn member2(j: Json, k1: Seq<char>, k2: Seq<char>) -> Option<Json> {
    match member(j, k1) {
        Some(x) => member(x, k2),
        None => None,
    }
}

/// Member `key` of the miles section of an object's size estimate.
pub open spec fn size_member(j: Json, key: Seq<char>) -> Option<Json> {
    match member2(j, "estimated_diameter"@, "miles"@) {
        Some(x) => member(x, key),
        None => None,
    }
}

#[verifier::opaque]
pub open spec fn approach_text_of(j: Json) -> Option<ApproachText> {
    let date = scalar_text(member(j, "close_approach_date"@));
    let velocity = scalar_text(member2(j, "relative_velocity"@, "miles_per_hour"@));
    let miss = scalar_text(member2(j, "miss_distance"@, "miles"@));
    let body = scalar_text(member(j, "orbiting_body"@));
    if date is Some && velocity is Some && miss is Some && body is Some {
        Some(
            ApproachText {
                date: date->0,
                velocity: velocity->0,
                miss_distance: miss->0,
                orbiting_body: body->0,
            },
        )
    } else {
        None
    }
}

/// The approaches that the elements `items` stand for, if each is one.
pub open spec fn approach_texts(items: Seq<Json>) -> Option<Seq<ApproachText>>
    decreases items.len(),
{
    if items.len() == 0 {
        Some(Seq::empty())
    } else {
        match (approach_texts(items.drop_last()), approach_text_of(items.last())) {
            (Some(a), Some(b)) => Some(a.push(b)),
            _ => None,
        }
    }
}

/// The object that `j` stands for, its name read from member `name_key`.
#[verifier::opaque]
pub open spec fn object_text_of(j: Json, name_key: Seq<char>) -> Option<ObjectText> {
    let id = scalar_text(member(j, "id"@));
    let name = scalar_text(member(j, name_key));
    let dmin = scalar_text(size_member(j, "estimated_diameter_min"@));
    let dmax = scalar_text(size_member(j, "estimated_diameter_max"@));
    let hazardous = member(j, "is_potentially_hazardous_asteroid"@);
    let approaches = match member(j, "close_approach_data"@) {
        Some(Json::Array(items)) => approach_texts(items@),
        _ => None,
    };
    let is_flag = match hazardous {
        Some(Json::Bool(_)) => true,
        _ => false,
    };
    if id is Some && name is Some && dmin is Some && dmax is Some && is_flag && approaches is Some {
        Some(
            ObjectText {
                id: id->0,
                designation: name->0,
                diameter_min: dmin->0,
                diameter_max: dmax->0,
                hazardous: hazardous->0->Bool_0,
                approaches: approaches->0,
            },
        )
    } else {
        None
    }
}

/// The objects that the elements `items` stand for, names under `"name"`.
pub open spec fn object_texts(items: Seq<Json>) -> Option<Seq<ObjectText>>
    decreases items.len(),
{
    if items.len() == 0 {
        Some(Seq::empty())
    } else {
        match (object_texts(items.drop_last()), object_text_of(items.last(), "name"@)) {
            (Some(a), Some(b)) => Some(a.push(b)),
            _ => None,
        }
    }
}

/// The objects of the date groups `groups`, in order; the dates themselves
/// are not read.
pub open spec fn group_texts(groups: Seq<(String, Json)>) -> Option<Seq<ObjectText>>
    decreases groups.len(),
{
    if groups.len() == 0 {
        Some(Seq::empty())
    } else {
        let last = match groups.last().1 {
            Json::Array(items) => object_texts(items@),
            _ => None,
        };
        match (group_texts(groups.drop_last()), last) {
            (Some(a), Some(b)) => Some(a + b),
            _ => None,
        }
    }
}

/// The objects of a feed document: member `near_earth_objects` maps each
/// date to an array of objects.
pub open spec fn feed_texts(j: Json) -> Option<Seq<ObjectText>> {
    match member(j, "near_earth_objects"@) {
        Some(Json::Object(groups)) => group_texts(groups@),
        _ => None,
    }
}

/// The record for approach `a` of object `o`, not yet stored (identifier 0).
pub open spec fn record_of(o: ObjectText, a: ApproachText) -> Result<NeoView, AppError> {
    match int_of_text(o.id) {
        None => Err(AppError::SerdeFailedParse),
        Some(api_id) => if !is_decimal(o.diameter_min) || !is_decimal(o.diameter_max)
            || !is_decimal(a.velocity) || !is_decimal(a.miss_distance) {
            Err(AppError::SerdeFailedParse)
        } else {
            match date_of_text(a.date) {
                None => Err(AppError::InvalidDate),
                Some(d) => Ok(
                    NeoView {
                        id: 0,
                        api_id,
                        designation: o.designation,
                        diameter_min: o.diameter_min,
                        diameter_max: o.diameter_max,
                        hazardous_asteroid: o.hazardous,
                        approach_date: d,
                        velocity: a.velocity,
                        miss_distance: a.miss_distance,
                        orbiting_body: a.orbiting_body,
                    },
                ),
            }
        },
    }
}

/// The records of the first `n` approaches of `o`, or the first error.
pub open spec fn object_records(o: ObjectText, n: int) -> Result<Seq<NeoView>, AppError>
    decreases n,
{
    if n <= 0 {
        Ok(Seq::empty())
    } else {
        match object_records(o, n - 1) {
            Err(e) => Err(e),
            Ok(rs) => match record_of(o, o.approaches[n - 1]) {
                Err(e) => Err(e),
                Ok(r) => Ok(rs.push(r)),
            },
        }
    }
}

/// The records of every approach of every object of `os`, object by object,
/// or the first error.
pub open spec fn all_records(os: Seq<ObjectText>) -> Result<Seq<NeoView>, AppError>
    decreases os.len(),
{
    if os.len() == 0 {
        Ok(Seq::empty())
    } else {
        match all_records(os.drop_last()) {
            Err(e) => Err(e),
            Ok(rs) => match object_records(os.last(), os.last().approaches.len() as int) {
                Err(e) => Err(e),
                Ok(more) => Ok(rs + more),
            },
        }
    }
}

pub open spec fn views(v: Seq<Neo>) -> Seq<NeoView> {
    v.map_values(|n: Neo| n@)
}

/// Whether an outcome of exec code is the outcome `s` of the model.
pub open spec fn same_outcome(r: Result<Vec<Neo>, AppError>, s: Result<Seq<NeoView>, AppError>) -> bool {
    match r {
        Ok(v) => s == Ok::<Seq<NeoView>, AppError>(views(v@)),
        Err(e) => s == Err::<Seq<NeoView>, AppError>(e),
    }
}

pub open spec fn owned(j: Option<&Json>) -> Option<Json> {
    match j {
        Some(x) => Some(*x),
        None => None,
    }
}

/// The text of a scalar value (see `scalar_text`).
pub fn scalar(j: Option<&Json>) -> (r: Option<String>)
    ensures
        r matches Some(s) ==> scalar_text(owned(j)) == Some(s@),
        r is None ==> scalar_text(owned(j)) is None,
{
    match j {
        Some(Json::Str(s)) => Some(strip_quoting(s.as_str())),
        Some(Json::Number(t)) => Some(t.clone()),
        _ => None,
    }
}

fn member_of<'a>(j: Option<&'a Json>, key: &str) -> (r: Option<&'a Json>)
    ensures
        j matches Some(x) ==> (r matches Some(v) ==> member(*x, key@) == Some(*v)) && (r is None
            ==> member(*x, key@) is None),
        j is None ==> r is None,
{
    match j {
        Some(x) => x.get(key),
        None => None,
    }
}

/// Reads one close approach against the feed's schema.
pub fn approach_from_json(j: &Json) -> (r: Option<ApproachData>)
    ensures
        r matches Some(a) ==> approach_text_of(*j) == Some(a@),
        r is None ==> approach_text_of(*j) is None,
{
    reveal(approach_text_of);
    let date = scalar(j.get("close_approach_date"));
    let velocity = scalar(member_of(j.get("relative_velocity"), "miles_per_hour"));
    let miss = scalar(member_of(j.get("miss_distance"), "miles"));
    let body = scalar(j.get("orbiting_body"));
    match (date, velocity, miss, body) {
        (Some(date), Some(velocity), Some(miss), Some(body)) => Some(
            ApproachData {
                close_approach_date: date,
                relative_velocity: Velocity { miles_per_hour: velocity },
                miss_distance: MissedDistance { miles: miss },
                orbiting_body: body,
            },
        ),
        _ => None,
    }
}


pub open spec fn approach_views(v: Seq<ApproachData>) -> Seq<ApproachText> {
    v.map_values(|a: ApproachData| a@)
}

pub open spec fn object_views(v: Seq<NeoJson>) -> Seq<ObjectText> {
    v.map_values(|o: NeoJson| o@)
}

proof fn lemma_approach_texts_prefix(s: Seq<Json>, k: int)
    requires
        0 <= k <= s.len(),
        approach_texts(s.subrange(0, k)) is None,
    ensures
        approach_texts(s) is None,
    decreases s.len(),
{
    if s.len() > k {
        assert(s.drop_last().subrange(0, k) =~= s.subrange(0, k));
        lemma_approach_texts_prefix(s.drop_last(), k);
    } else {
        assert(s.subrange(0, k) =~= s);
    }
}

proof fn lemma_object_texts_prefix(s: Seq<Json>, k: int)
    requires
        0 <= k <= s.len(),
        object_texts(s.subrange(0, k)) is None,
    ensures
        object_texts(s) is None,
    decreases s.len(),
{
    if s.len() > k {
        assert(s.drop_last().subrange(0, k) =~= s.subrange(0, k));
        lemma_object_texts_prefix(s.drop_last(), k);
    } else {
        assert(s.subrange(0, k) =~= s);
    }
}

proof fn lemma_group_texts_prefix(s: Seq<(String, Json)>, k: int)
    requires
        0 <= k <= s.len(),
        group_texts(s.subrange(0, k)) is None,
    ensures
        group_texts(s) is None,
    decreases s.len(),
{
    if s.len() > k {
        assert(s.drop_last().subrange(0, k) =~= s.subrange(0, k));
        lemma_group_texts_prefix(s.drop_last(), k);
    } else {
        assert(s.subrange(0, k) =~= s);
    }
}

/// Reads every element of `items` as a close approach.
fn approaches_from_json(items: &Vec<Json>) -> (r: Option<Vec<ApproachData>>)
    ensures
        r matches Some(v) ==> approach_texts(items@) == Some(approach_views(v@)),
        r is None ==> approach_texts(items@) is None,
{
    let mut out: Vec<ApproachData> = Vec::new();
    let mut i: usize = 0;
    while i < items.len()
        invariant
            i <= items@.len(),
            approach_texts(items@.subrange(0, i as int)) == Some(approach_views(out@)),
        decreases items.len() - i,
    {
        let ghost before = out@;
        assert(items@.subrange(0, i + 1).drop_last() =~= items@.subrange(0, i as int));
        match approach_from_json(&items[i]) {
            Some(a) => {
                out.push(a);
                assert(approach_views(out@) =~= approach_views(before).push(out@.last()@));
            },
            None => {
                proof {
                    lemma_approach_texts_prefix(items@, i + 1);
                }
                return None;
            },
        }
        i = i + 1;
    }
    assert(items@.subrange(0, i as int) =~= items@);
    Some(out)
}

/// Reads one object against the feed's schema, its name from member `name_key`.
pub fn object_from_json(j: &Json, name_key: &str) -> (r: Option<NeoJson>)
    ensures
        r matches Some(o) ==> object_text_of(*j, name_key@) == Some(o@),
        r is None ==> object_text_of(*j, name_key@) is None,
{
    reveal(object_text_of);
    let id = scalar(j.get("id"));
    let name = scalar(j.get(name_key));
    let miles = member_of(j.get("estimated_diameter"), "miles");
    let dmin = scalar(member_of(miles, "estimated_diameter_min"));
    let dmax = scalar(member_of(miles, "estimated_diameter_max"));
    let hazardous = match j.get("is_potentially_hazardous_asteroid") {
        Some(Json::Bool(b)) => Some(*b),
        _ => None,
    };
    let approaches = match j.get("close_approach_data") {
        Some(Json::Array(items)) => approaches_from_json(items),
        _ => None,
    };
    match (id, name, dmin, dmax, hazardous, approaches) {
        (Some(id), Some(name), Some(dmin), Some(dmax), Some(h), Some(aps)) => {
            let o = NeoJson {
                id,
                designation: name,
                estimated_diameter: Diameter {
                    miles: MilesDiameter { estimated_diameter_min: dmin, estimated_diameter_max: dmax },
                },
                is_potentially_hazardous_asteroid: h,
                close_approach_data: aps,
            };
            assert(o@.approaches =~= approach_views(o.close_approach_data@));
            Some(o)
        },
        _ => None,
    }
}

/// Reads every element of `items` as an object named under `"name"`.
fn objects_from_json(items: &Vec<Json>, out: &mut Vec<NeoJson>) -> (ok: bool)
    ensures
        ok ==> object_texts(items@) is Some && object_views(final(out)@) == object_views(old(out)@)
            + object_texts(items@)->0,
        !ok ==> object_texts(items@) is None,
{
    let ghost start = out@;
    let mut i: usize = 0;
    while i < items.len()
        invariant
            i <= items@.len(),
            object_texts(items@.subrange(0, i as int)) is Some,
            object_views(out@) == object_views(start) + object_texts(items@.subrange(0, i as int))->0,
        decreases items.len() - i,
    {
        let ghost before = out@;
        assert(items@.subrange(0, i + 1).drop_last() =~= items@.subrange(0, i as int));
        match object_from_json(&items[i], "name") {
            Some(o) => {
                out.push(o);
                assert(object_views(out@) =~= object_views(before).push(out@.last()@));
                assert(object_views(out@) =~= object_views(start) + object_texts(items@.subrange(0, i + 1))->0);
            },
            None => {
                proof {
                    lemma_object_texts_prefix(items@, i + 1);
                }
                return false;
            },
        }
        i = i + 1;
    }
    assert(items@.subrange(0, i as int) =~= items@);
    true
}

/// Reads a feed document against the feed's schema: the objects of each
/// date group, group by group.
pub fn feed_from_json(j: &Json) -> (r: Option<NeoDateJson>)
    ensures
        r matches Some(f) ==> feed_texts(*j) == Some(concat(f@)),
        r is None ==> feed_texts(*j) is None,
{
    let groups = match j.get("near_earth_objects") {
        Some(Json::Object(groups)) => groups,
        _ => {
            return None;
        },
    };
    let mut out: Vec<NeoDate> = Vec::new();
    let mut i: usize = 0;
    assert(out@.map_values(|g: NeoDate| g@) =~= Seq::<Seq<ObjectText>>::empty());
    while i < groups.len()
        invariant
            i <= groups@.len(),
            feed_texts(*j) == group_texts(groups@),
            group_texts(groups@.subrange(0, i as int)) == Some(
                concat(out@.map_values(|g: NeoDate| g@)),
            ),
        decreases groups.len() - i,
    {
        assert(groups@.subrange(0, i + 1).drop_last() =~= groups@.subrange(0, i as int));
        match &groups[i].1 {
            Json::Array(items) => {
                let mut objs: Vec<NeoJson> = Vec::new();
                assert(object_views(objs@) =~= Seq::<ObjectText>::empty());
                if !objects_from_json(items, &mut objs) {
                    proof {
                        lemma_group_texts_prefix(groups@, i + 1);
                    }
                    return None;
                }
                let ghost before = out@.map_values(|g: NeoDate| g@);
                assert(object_views(objs@) =~= object_texts(items@)->0);
                out.push(NeoDate { date: objs });
                proof {
                    assert(out@.map_values(|g: NeoDate| g@) =~= before.push(out@.last()@));
                    lemma_concat_push(before, out@.last()@);
                }
            },
            _ => {
                proof {
                    lemma_group_texts_prefix(groups@, i + 1);
                }
                return None;
            },
        }
        i = i + 1;
    }
    assert(groups@.subrange(0, i as int) =~= groups@);
    Some(NeoDateJson { near_earth_objects: out })
}

/// Normalizes approach `ap` of object `obj` into a record that is not yet
/// stored: the identifier parsed as an integer, each measure checked to be a
/// decimal number, and the date read as `YYYY-MM-DD`.
pub fn normalize(obj: &NeoJson, ap: &ApproachData) -> (r: Result<Neo, AppError>)
    ensures
        match r {
            Ok(n) => record_of(obj@, ap@) == Ok::<NeoView, AppError>(n@),
            Err(e) => record_of(obj@, ap@) == Err::<NeoView, AppError>(e),
        },
{
    let api_id = match parse_int(obj.id.as_str()) {
        Some(v) => v,
        None => {
            return Err(AppError::SerdeFailedParse);
        },
    };
    let sizes = &obj.estimated_diameter.miles;
    if !check_decimal(sizes.estimated_diameter_min.as_str()) || !check_decimal(
        sizes.estimated_diameter_max.as_str(),
    ) || !check_decimal(ap.relative_velocity.miles_per_hour.as_str()) || !check_decimal(
        ap.miss_distance.miles.as_str(),
    ) {
        return Err(AppError::SerdeFailedParse);
    }
    let approach_date = match parse_date(ap.close_approach_date.as_str()) {
        Some(d) => d,
        None => {
            return Err(AppError::InvalidDate);
        },
    };
    Ok(
        Neo {
            id: NeoId(0),
            api_id,
            designation: obj.designation.clone(),
            diameter_min: sizes.estimated_diameter_min.clone(),
            diameter_max: sizes.estimated_diameter_max.clone(),
            hazardous_asteroid: obj.is_potentially_hazardous_asteroid,
            approach_date,
            velocity: ap.relative_velocity.miles_per_hour.clone(),
            miss_distance: ap.miss_distance.miles.clone(),
            orbiting_body: ap.orbiting_body.clone(),
        },
    )
}

proof fn lemma_object_records_err(o: ObjectText, k: int, n: int, e: AppError)
    requires
        k <= n,
        object_records(o, k) == Err::<Seq<NeoView>, AppError>(e),
    ensures
        object_records(o, n) == Err::<Seq<NeoView>, AppError>(e),
    decreases n - k,
{
    if n > k {
        lemma_object_records_err(o, k, n - 1, e);
    }
}

proof fn lemma_all_records_err(os: Seq<ObjectText>, k: int, e: AppError)
    requires
        0 <= k <= os.len(),
        all_records(os.subrange(0, k)) == Err::<Seq<NeoView>, AppError>(e),
    ensures
        all_records(os) == Err::<Seq<NeoView>, AppError>(e),
    decreases os.len(),
{
    if os.len() > k {
        assert(os.drop_last().subrange(0, k) =~= os.subrange(0, k));
        lemma_all_records_err(os.drop_last(), k, e);
    } else {
        assert(os.subrange(0, k) =~= os);
    }
}

/// Appends to `out` the record of each approach of `obj`, in order.
fn push_object_records(obj: &NeoJson, out: &mut Vec<Neo>) -> (r: Result<(), AppError>)
    ensures
        match r {
            Ok(_) => object_records(obj@, obj@.approaches.len() as int) matches Ok(rs) && views(
                final(out)@,
            ) == views(old(out)@) + rs,
            Err(e) => object_records(obj@, obj@.approaches.len() as int) == Err::<
                Seq<NeoView>,
                AppError,
            >(e),
        },
{
    let ghost start = out@;
    let n = obj.close_approach_data.len();
    let mut j: usize = 0;
    while j < n
        invariant
            n == obj.close_approach_data@.len(),
            n == obj@.approaches.len(),
            j <= n,
            object_records(obj@, j as int) matches Ok(rs) && views(out@) == views(start) + rs,
        decreases n - j,
    {
        let ghost before = out@;
        let ghost rs = object_records(obj@, j as int)->Ok_0;
        match normalize(obj, &obj.close_approach_data[j]) {
            Ok(rec) => {
                out.push(rec);
                assert(views(out@) =~= views(before).push(out@.last()@));
                assert(views(out@) =~= views(start) + rs.push(out@.last()@));
            },
            Err(e) => {
                proof {
                    lemma_object_records_err(obj@, j + 1, n as int, e);
                }
                return Err(e);
            },
        }
        j = j + 1;
    }
    Ok(())
}

/// Flattens the objects `objs` into one record per close approach, object by
/// object; the first record that cannot be normalized fails the whole list.
pub fn flatten(objs: &Vec<NeoJson>) -> (r: Result<Vec<Neo>, AppError>)
    ensures
        same_outcome(r, all_records(object_views(objs@))),
{
    let mut out: Vec<Neo> = Vec::new();
    let mut i: usize = 0;
    assert(views(out@) =~= Seq::<NeoView>::empty());
    assert(object_views(objs@).subrange(0, 0) =~= Seq::<ObjectText>::empty());
    while i < objs.len()
        invariant
            i <= objs@.len(),
            all_records(object_views(objs@).subrange(0, i as int)) == Ok::<Seq<NeoView>, AppError>(views(out@)),
        decreases objs.len() - i,
    {
        assert(object_views(objs@).subrange(0, i + 1).drop_last() =~= object_views(objs@).subrange(0, i as int));
        assert(object_views(objs@).subrange(0, i + 1).last() == objs@[i as int]@);
        let ghost before = out@;
        match push_object_records(&objs[i], &mut out) {
            Ok(_) => {},
            Err(e) => {
                proof {
                    lemma_all_records_err(object_views(objs@), i + 1, e);
                }
                return Err(e);
            },
        }
        i = i + 1;
    }
    assert(object_views(objs@).subrange(0, i as int) =~= object_views(objs@));
    Ok(out)
}


/// How many approaches the objects `os` have in all.
pub open spec fn total_approaches(os: Seq<ObjectText>) -> int
    decreases os.len(),
{
    if os.len() == 0 {
        0
    } else {
        total_approaches(os.drop_last()) + os.last().approaches.len()
    }
}

/// Flattening one object gives one record per approach, in order, and every
/// record carries the object's identifier, name, size bounds and hazard flag.
pub proof fn lemma_object_records_carry_parent(o: ObjectText, n: int)
    requires
        0 <= n <= o.approaches.len(),
        object_records(o, n) is Ok,
    ensures
        object_records(o, n)->Ok_0.len() == n,
        forall|i: int|
            0 <= i < n ==> {
                let r = #[trigger] object_records(o, n)->Ok_0[i];
                &&& Some(r.api_id) == int_of_text(o.id)
                &&& r.designation == o.designation
                &&& r.diameter_min == o.diameter_min
                &&& r.diameter_max == o.diameter_max
                &&& r.hazardous_asteroid == o.hazardous
                &&& r.velocity == o.approaches[i].velocity
                &&& r.miss_distance == o.approaches[i].miss_distance
                &&& r.orbiting_body == o.approaches[i].orbiting_body
                &&& Some(r.approach_date) == date_of_text(o.approaches[i].date)
                &&& r.id == 0
            },
    decreases n,
{
    if n > 0 {
        lemma_object_records_carry_parent(o, n - 1);
    }
}

/// Flattening gives exactly one record per approach of every object.
pub proof fn lemma_all_records_count(os: Seq<ObjectText>)
    requires
        all_records(os) is Ok,
    ensures
        all_records(os)->Ok_0.len() == total_approaches(os),
    decreases os.len(),
{
    if os.len() > 0 {
        lemma_all_records_count(os.drop_last());
        lemma_object_records_carry_parent(os.last(), os.last().approaches.len() as int);
    }
}

/// An approach whose velocity is not a decimal number fails the flattening
/// of its object: no record of that object is returned.
pub proof fn lemma_bad_velocity_fails_object(o: ObjectText, k: int, n: int)
    requires
        0 <= k < n <= o.approaches.len(),
        !is_decimal(o.approaches[k].velocity),
    ensures
        object_records(o, n) is Err,
    decreases n,
{
    if n > k + 1 {
        lemma_bad_velocity_fails_object(o, k, n - 1);
    }
}

/// An approach whose velocity is not a decimal number, anywhere among the
/// objects `os`, fails the whole flattening.
pub proof fn lemma_bad_velocity_fails(os: Seq<ObjectText>, i: int, k: int)
    requires
        0 <= i < os.len(),
        0 <= k < os[i].approaches.len(),
        !is_decimal(os[i].approaches[k].velocity),
    ensures
        all_records(os) is Err,
    decreases os.len(),
{
    if i < os.len() - 1 {
        lemma_bad_velocity_fails(os.drop_last(), i, k);
    } else {
        lemma_bad_velocity_fails_object(os[i], k, os[i].approaches.len() as int);
    }
}

} // verus!
