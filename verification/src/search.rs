//! What the app looks for, and which of the places found it keeps.

use itertools::Itertools;
use vstd::prelude::*;
use crate::model::{Element, OverpassResponse, element_coords};
use crate::text::{decimal_text, law_decimal_reads_back, parse_u32, parse_u32_spec};

verus! {

/// The text of an optional parameter, if it has one.
pub open spec fn option_text(param: Option<&str>) -> Option<Seq<char>> {
    match param {
        Some(text) => Some(text@),
        None => None,
    }
}

/// The radius, in meters, searched when the page asks for none or for one
/// that is not a number.
pub open spec fn default_radius() -> u32 {
    2000
}

/// The radius asked for by the `around` parameter of the page: its value
/// read as a `u32`, else the default.
pub open spec fn search_radius_spec(around: Option<Seq<char>>) -> u32 {
    match around {
        Some(text) => match parse_u32_spec(text) {
            Some(radius) => radius,
            None => default_radius(),
        },
        None => default_radius(),
    }
}

/// The radius to search, from the text of the page's `around` parameter if
/// it has one: that text read as a `u32` where it is one, else 2000.
pub fn search_radius(around: Option<&str>) -> (radius: u32)
    ensures
        radius == search_radius_spec(option_text(around)),
{
    match around {
        Some(text) => match parse_u32(text) {
            Some(radius) => radius,
            None => 2000,
        },
        None => 2000,
    }
}

/// The amenity looked for: the page's `q` parameter, else `toilets`.
pub open spec fn amenity_spec(q: Option<String>) -> Seq<char> {
    match q {
        Some(q) => q@,
        None => "toilets"@,
    }
}

/// What a search is for, from the position of the device and the page's
/// parameters: the radius (from `around`), the latitude and longitude (the
/// page's `lat` and `lon` where they were given as numbers, `lat_param` and
/// `lon_param`, else the device's) and the amenity (`q`, else `toilets`).
pub fn resolve_search<F: Copy>(
    position: (F, F),
    around: Option<&str>,
    lat_param: Option<F>,
    lon_param: Option<F>,
    q: Option<String>,
) -> (search: (u32, F, F, String))
    ensures
        search.0 == search_radius_spec(option_text(around)),
        search.1 == (match lat_param {
            Some(lat) => lat,
            None => position.0,
        }),
        search.2 == (match lon_param {
            Some(lon) => lon,
            None => position.1,
        }),
        search.3@ == amenity_spec(q),
{
    let (mut lat, mut lon) = position;
    let radius: u32 = search_radius(around);
    if let Some(new_lat) = lat_param {
        lat = new_lat;
    }
    if let Some(new_lon) = lon_param {
        lon = new_lon;
    }
    let amenity = match q {
        Some(q) => q,
        None => String::from_str("toilets"),
    };
    (radius, lat, lon, amenity)
}

/// Whether some element of `s` has the number `id`.
pub open spec fn has_id<F>(s: Seq<Element<F>>, id: i64) -> bool {
    exists|j: int| 0 <= j < s.len() && (#[trigger] s[j]).id == id
}

/// The elements of `s` that have coordinates, in order.
pub open spec fn located<F>(s: Seq<Element<F>>) -> Seq<Element<F>>
    decreases s.len(),
{
    if s.len() == 0 {
        s
    } else if element_coords(s.last()) is Some {
        located(s.drop_last()).push(s.last())
    } else {
        located(s.drop_last())
    }
}

/// The first element of `s` with each number, in order: what itertools'
/// `unique_by` keeps when its key is the element's `id`.
pub open spec fn first_of_each_id<F>(s: Seq<Element<F>>) -> Seq<Element<F>>
    decreases s.len(),
{
    if s.len() == 0 {
        s
    } else if has_id(s.drop_last(), s.last().id) {
        first_of_each_id(s.drop_last())
    } else {
        first_of_each_id(s.drop_last()).push(s.last())
    }
}

/// The places kept from a list: those with coordinates, the first of each id.
pub open spec fn kept_places<F>(s: Seq<Element<F>>) -> Seq<Element<F>> {
    first_of_each_id(located(s))
}

/// The coordinates of each of `s`, which all have them.
pub open spec fn coords_of<F>(s: Seq<Element<F>>) -> Seq<(F, F)> {
    s.map_values(|e: Element<F>| element_coords(e)->0)
}

/// Calls itertools' `Itertools::unique_by` on the elements with the
/// element's `id` as key, and collects what it yields. The contract claims
/// what its source shows: it yields, in order, each element whose id no
/// earlier element had.
#[verifier::external_body]
fn unique_by_id<F>(elements: Vec<Element<F>>) -> (kept: Vec<Element<F>>)
    ensures
        kept@ == first_of_each_id(elements@),
{
    elements.into_iter().unique_by(|e| e.id).collect()
}

/// Every element that `first_of_each_id` keeps comes from `s`.
proof fn lemma_first_of_each_id_from<F>(s: Seq<Element<F>>, k: int)
    requires
        0 <= k < first_of_each_id(s).len(),
    ensures
        exists|j: int| 0 <= j < s.len() && s[j] == first_of_each_id(s)[k],
    decreases s.len(),
{
    let before = s.drop_last();
    if k < first_of_each_id(before).len() {
        lemma_first_of_each_id_from(before, k);
        let j: int = choose|j: int| 0 <= j < before.len() && before[j] == first_of_each_id(before)[k];
        assert(s[j] == first_of_each_id(s)[k]);
    } else {
        assert(s[s.len() - 1] == first_of_each_id(s)[k]);
    }
}

/// Every element that `located` keeps has coordinates.
proof fn lemma_located_have_coords<F>(s: Seq<Element<F>>)
    ensures
        forall|k: int|
            0 <= k < located(s).len() ==> element_coords(#[trigger] located(s)[k]) is Some,
    decreases s.len(),
{
    if s.len() > 0 {
        lemma_located_have_coords(s.drop_last());
    }
}

/// Every place kept from `s` has coordinates.
pub proof fn law_kept_places_have_coords<F>(s: Seq<Element<F>>)
    ensures
        forall|k: int|
            0 <= k < kept_places(s).len() ==> element_coords(#[trigger] kept_places(s)[k]) is Some,
{
    lemma_located_have_coords(s);
    assert forall|k: int| 0 <= k < kept_places(s).len() implies element_coords(
        #[trigger] kept_places(s)[k],
    ) is Some by {
        lemma_first_of_each_id_from(located(s), k);
    }
}

/// The positions in `s` of what `first_of_each_id` keeps: increasing, each
/// the first position of its id.
proof fn lemma_first_of_each_id_positions<F>(s: Seq<Element<F>>) -> (pos: Seq<int>)
    ensures
        pos.len() == first_of_each_id(s).len(),
        forall|k: int|
            0 <= k < pos.len() ==> 0 <= #[trigger] pos[k] < s.len() && s[pos[k]]
                == first_of_each_id(s)[k] && !has_id(s.take(pos[k]), s[pos[k]].id),
        forall|k1: int, k2: int| 0 <= k1 < k2 < pos.len() ==> pos[k1] < pos[k2],
    decreases s.len(),
{
    if s.len() == 0 {
        Seq::empty()
    } else {
        let before = s.drop_last();
        let p = lemma_first_of_each_id_positions(before);
        assert forall|k: int| 0 <= k < p.len() implies s.take(#[trigger] p[k]) == before.take(
            p[k],
        ) by {}
        if has_id(before, s.last().id) {
            p
        } else {
            let q = p.push(s.len() - 1);
            assert(s.take(s.len() - 1) == before);
            assert forall|k: int| 0 <= k < q.len() implies 0 <= #[trigger] q[k] < s.len() && s[q[k]]
                == first_of_each_id(s)[k] && !has_id(s.take(q[k]), s[q[k]].id) by {
                if k < p.len() {
                    assert(q[k] == p[k]);
                }
            }
            q
        }
    }
}

/// Every id of `s` is the id of something that `first_of_each_id` keeps.
proof fn lemma_first_of_each_id_complete<F>(s: Seq<Element<F>>)
    ensures
        forall|j: int| 0 <= j < s.len() ==> has_id(first_of_each_id(s), #[trigger] s[j].id),
    decreases s.len(),
{
    if s.len() > 0 {
        let before = s.drop_last();
        lemma_first_of_each_id_complete(before);
        let r = first_of_each_id(before);
        assert forall|j: int| 0 <= j < s.len() implies has_id(
            first_of_each_id(s),
            #[trigger] s[j].id,
        ) by {
            let id: i64 = s[j].id;
            if j < s.len() - 1 {
                assert(before[j].id == id);
                let k: int = choose|k: int| 0 <= k < r.len() && (#[trigger] r[k]).id == id;
                assert(first_of_each_id(s)[k] == r[k]);
            } else if has_id(before, id) {
                let j2 = choose|j2: int| 0 <= j2 < before.len() && (#[trigger] before[j2]).id == id;
                assert(has_id(r, before[j2].id));
                let k: int = choose|k: int| 0 <= k < r.len() && (#[trigger] r[k]).id == id;
                assert(first_of_each_id(s)[k] == r[k]);
            } else {
                assert(first_of_each_id(s)[r.len() as int] == s.last());
            }
        }
    }
}

/// Every element of `s` with coordinates is kept by `located`.
proof fn lemma_located_complete<F>(s: Seq<Element<F>>, j: int)
    requires
        0 <= j < s.len(),
        element_coords(s[j]) is Some,
    ensures
        exists|k: int| 0 <= k < located(s).len() && located(s)[k] == s[j],
    decreases s.len(),
{
    let before = s.drop_last();
    if j < s.len() - 1 {
        assert(before[j] == s[j]);
        lemma_located_complete(before, j);
        let k: int = choose|k: int| 0 <= k < located(before).len() && located(before)[k] == before[j];
        assert(located(s)[k] == located(before)[k]);
    } else {
        assert(located(s)[located(before).len() as int] == s[j]);
    }
}

/// No two kept places have the same id.
pub proof fn law_kept_ids_distinct<F>(s: Seq<Element<F>>)
    ensures
        forall|k1: int, k2: int|
            0 <= k1 < k2 < kept_places(s).len() ==> (#[trigger] kept_places(s)[k1]).id
                != (#[trigger] kept_places(s)[k2]).id,
{
    let l = located(s);
    let pos = lemma_first_of_each_id_positions(l);
    assert forall|k1: int, k2: int| 0 <= k1 < k2 < kept_places(s).len() implies (
    #[trigger] kept_places(s)[k1]).id != (#[trigger] kept_places(s)[k2]).id by {
        assert(pos[k1] < pos[k2]);
        assert(l.take(pos[k2])[pos[k1]] == l[pos[k1]]);
    }
}

/// Every element of `s` that has coordinates has its id among the kept
/// places: none is lost but for a duplicate id.
pub proof fn law_every_located_id_kept<F>(s: Seq<Element<F>>)
    ensures
        forall|j: int|
            0 <= j < s.len() && element_coords(#[trigger] s[j]) is Some ==> has_id(
                kept_places(s),
                s[j].id,
            ),
{
    lemma_first_of_each_id_complete(located(s));
    assert forall|j: int| 0 <= j < s.len() && element_coords(#[trigger] s[j]) is Some implies has_id(
        kept_places(s),
        s[j].id,
    ) by {
        lemma_located_complete(s, j);
        let k: int = choose|k: int| 0 <= k < located(s).len() && located(s)[k] == s[j];
        assert(located(s)[k].id == s[j].id);
    }
}

/// The kept places come in the order of the response, each the first
/// located element with its id: there are increasing positions in
/// `located(s)` at which they stand, with no element of the same id before.
pub proof fn law_kept_places_first_and_in_order<F>(s: Seq<Element<F>>)
    ensures
        exists|pos: Seq<int>|
            {
                &&& pos.len() == kept_places(s).len()
                &&& forall|k: int|
                    0 <= k < pos.len() ==> 0 <= #[trigger] pos[k] < located(s).len()
                        && located(s)[pos[k]] == kept_places(s)[k] && !has_id(
                        located(s).take(pos[k]),
                        kept_places(s)[k].id,
                    )
                &&& forall|k1: int, k2: int| 0 <= k1 < k2 < pos.len() ==> pos[k1] < pos[k2]
            },
{
    let pos = lemma_first_of_each_id_positions(located(s));
    assert(pos.len() == kept_places(s).len());
}

/// The places kept from `s`, with their coordinates as `(lat, lon)` in the
/// same order: the elements of the response that have coordinates, the
/// first of each id, in the order the response lists them.
pub fn select_destinations<F: Copy>(response: OverpassResponse<F>) -> (selected: (
    Vec<Element<F>>,
    Vec<(F, F)>,
))
    ensures
        selected.0@ == kept_places(response.elements@),
        selected.1@ == coords_of(selected.0@),
{
    let ghost all = response.elements@;
    let mut good: Vec<Element<F>> = Vec::new();
    for e in it: response.elements.into_iter()
        invariant
            it.seq() == all,
            good@ == located(all.take(it.index() as int)),
    {
        proof {
            assert(all.take(it.index() + 1).drop_last() == all.take(it.index() as int));
        }
        if e.get_coords().is_some() {
            good.push(e);
        }
    }
    proof {
        assert(all.take(all.len() as int) == all);
        law_kept_places_have_coords(all);
    }
    let kept = unique_by_id(good);
    let mut destinations: Vec<(F, F)> = Vec::new();
    let mut k: usize = 0;
    while k < kept.len()
        invariant
            k <= kept.len(),
            kept@ == kept_places(all),
            forall|i: int|
                0 <= i < kept_places(all).len() ==> element_coords(
                    #[trigger] kept_places(all)[i],
                ) is Some,
            destinations@ == coords_of(kept@.take(k as int)),
        decreases kept.len() - k,
    {
        let coords = kept[k].get_coords();
        assert(element_coords(kept@[k as int]) is Some);
        match coords {
            Some(point) => destinations.push(point),
            None => {},
        }
        assert(kept@.take(k + 1) == kept@.take(k as int).push(kept@[k as int]));
        k = k + 1;
    }
    assert(kept@.take(kept.len() as int) == kept@);
    (kept, destinations)
}

/// The radius searched: the `around` parameter's value where it reads as a
/// `u32`, and 2000 only where the parameter is missing or is no number.
pub proof fn law_search_radius(around: Option<Seq<char>>)
    ensures
        around is None ==> search_radius_spec(around) == 2000,
        around is Some && parse_u32_spec(around->0) is Some ==> search_radius_spec(around)
            == parse_u32_spec(around->0)->0,
        around is Some && parse_u32_spec(around->0) is None ==> search_radius_spec(around) == 2000,
{
}

/// A page opened with `around=` the decimal text of `n` searches `n` meters.
pub proof fn law_search_radius_reads_back(n: u32)
    ensures
        search_radius_spec(Some(decimal_text(n as int))) == n,
{
    law_decimal_reads_back(n);
}

/// The amenity searched: the `q` parameter as given, else `toilets`.
pub proof fn law_amenity(q: Option<String>)
    ensures
        q is None ==> amenity_spec(q) == "toilets"@,
        q is Some ==> amenity_spec(q) == q->0@,
{
}

/// A parameter's text is the text given, and none when it is missing.
pub proof fn law_option_text(param: Option<&str>)
    ensures
        param is None ==> option_text(param) is None,
        param is Some ==> option_text(param) == Some(param->0@),
{
}

/// There is one destination per place, and the `i`-th is the coordinates of
/// the `i`-th place.
pub proof fn law_coords_of<F>(s: Seq<Element<F>>)
    ensures
        coords_of(s).len() == s.len(),
        forall|i: int|
            0 <= i < s.len() && element_coords(s[i]) is Some ==> Some(#[trigger] coords_of(s)[i])
                == element_coords(s[i]),
{
}

} // verus!
