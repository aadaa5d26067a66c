//! The decisions of the housing HTTP routes: which stages each request
//! runs, in which order, and which status and text answer it.
use crate::placement::CheckEvent;
use vstd::prelude::*;

verus! {

/// The housing routes.
#[derive(Clone, Copy, Debug, PartialEq, Eq, Structural)]
pub enum HousingRoute {
    /// `GET /api/housing/area/{cx}/{cz}`
    GetChunk,
    /// `GET /api/housing/{house_id}`
    GetHouse,
    /// `POST /api/housing`
    CreateHouse,
    /// `PUT /api/housing/{house_id}`
    UpdateHouse,
    /// `DELETE /api/housing/{house_id}`
    DeleteHouse,
}

/// The work a route performs.
#[derive(Clone, Copy, Debug, PartialEq, Eq, Structural)]
pub enum RouteStage {
    /// Is the house id in the path well formed?
    CheckId,
    /// Read the houses of a chunk.
    ReadChunk,
    /// Find the house (`Missing` when there is none).
    FindHouse,
    /// Mark the doors that stand open; this cannot fail.
    ApplyDoors,
    /// Validate the house sent.
    Validate,
    /// Read all houses, to give the new house its id.
    LoadHouses,
    /// Read the houses of the chunks the house spans (`Oversized` when it
    /// spans too many).
    LoadNeighbours,
    /// Check that the house stays clear of its neighbours.
    CheckNeighbours,
    /// Write the new house.
    WriteHouse,
    /// Replace the stored house by the one sent.
    ReplaceHouse,
    /// Delete the house.
    DeleteHouse,
    /// Make the house's walls block movement; this cannot fail.
    MarkPassable,
    /// Stop the house's walls from blocking movement; this cannot fail.
    UnmarkPassable,
    /// Remove the trees and grass under the house.
    ClearTerrain,
    /// Tell the players nearby; this cannot fail.
    Broadcast,
}

/// An HTTP status that a housing route answers with.
#[derive(Clone, Copy, Debug, PartialEq, Eq, Structural)]
pub enum HttpStatus {
    /// 200 OK
    Success,
    Created,
    NoContent,
    BadRequest,
    NotFound,
    InternalServerError,
}

/// The text that comes with a refused request.
#[derive(Clone, Copy, Debug, PartialEq, Eq, Structural)]
pub enum RouteText {
    /// "Internal server error"
    InternalError,
    /// "invalid house id"
    InvalidHouseId,
    /// "house not found"
    HouseNotFound,
    /// "house spans too many chunks"
    SpansTooManyChunks,
    /// The validation's own words.
    Validation,
}

/// What to do after a stage of a route.
#[derive(Clone, Copy, Debug, PartialEq, Eq, Structural)]
pub enum RouteAction {
    /// Run this stage next.
    Run(RouteStage),
    /// Answer the request as refused, with this status and text.
    Refuse(HttpStatus, Option<RouteText>),
    /// Answer the request as served, with this status.
    Succeed(HttpStatus),
}

/// The number of stages of `route`.
pub open spec fn route_len(route: HousingRoute) -> int {
    match route {
        HousingRoute::GetChunk => 2,
        HousingRoute::GetHouse => 3,
        HousingRoute::CreateHouse => 7,
        HousingRoute::UpdateHouse => 9,
        HousingRoute::DeleteHouse => 5,
    }
}

/// The stage at position `i` of `route` (the last one for positions past it).
pub open spec fn route_stage_at(route: HousingRoute, i: int) -> RouteStage {
    match route {
        HousingRoute::GetChunk => if i <= 0 {
            RouteStage::ReadChunk
        } else {
            RouteStage::ApplyDoors
        },
        HousingRoute::GetHouse => if i <= 0 {
            RouteStage::CheckId
        } else if i == 1 {
            RouteStage::FindHouse
        } else {
            RouteStage::ApplyDoors
        },
        HousingRoute::CreateHouse => if i <= 0 {
            RouteStage::Validate
        } else if i == 1 {
            RouteStage::LoadHouses
        } else if i == 2 {
            RouteStage::CheckNeighbours
        } else if i == 3 {
            RouteStage::WriteHouse
        } else if i == 4 {
            RouteStage::MarkPassable
        } else if i == 5 {
            RouteStage::ClearTerrain
        } else {
            RouteStage::Broadcast
        },
        HousingRoute::UpdateHouse => if i <= 0 {
            RouteStage::CheckId
        } else if i == 1 {
            RouteStage::FindHouse
        } else if i == 2 {
            RouteStage::Validate
        } else if i == 3 {
            RouteStage::LoadNeighbours
        } else if i == 4 {
            RouteStage::CheckNeighbours
        } else if i == 5 {
            RouteStage::ReplaceHouse
        } else if i == 6 {
            RouteStage::MarkPassable
        } else if i == 7 {
            RouteStage::ClearTerrain
        } else {
            RouteStage::Broadcast
        },
        HousingRoute::DeleteHouse => if i <= 0 {
            RouteStage::CheckId
        } else if i == 1 {
            RouteStage::FindHouse
        } else if i == 2 {
            RouteStage::DeleteHouse
        } else if i == 3 {
            RouteStage::UnmarkPassable
        } else {
            RouteStage::Broadcast
        },
    }
}

/// The position of `stage` in `route`.
pub open spec fn route_index(route: HousingRoute, stage: RouteStage) -> int {
    choose|i: int| 0 <= i < route_len(route) && route_stage_at(route, i) == stage
}

/// The status that a served request of `route` is answered with.
pub open spec fn route_success(route: HousingRoute) -> HttpStatus {
    match route {
        HousingRoute::CreateHouse => HttpStatus::Created,
        HousingRoute::DeleteHouse => HttpStatus::NoContent,
        _ => HttpStatus::Success,
    }
}

/// Whether a stage can refuse a request.
pub open spec fn route_can_fail(stage: RouteStage) -> bool {
    !(stage == RouteStage::ApplyDoors || stage == RouteStage::MarkPassable || stage
        == RouteStage::UnmarkPassable || stage == RouteStage::Broadcast)
}

/// How `route` refuses a request whose `stage` did not pass with `event`.
/// The update route words its refusals; the read and delete routes answer
/// with a bare status.
pub open spec fn route_refusal(route: HousingRoute, stage: RouteStage, event: CheckEvent) -> RouteAction {
    let worded = route == HousingRoute::UpdateHouse;
    match stage {
        RouteStage::CheckId => RouteAction::Refuse(
            HttpStatus::BadRequest,
            if worded {
                Some(RouteText::InvalidHouseId)
            } else {
                None
            },
        ),
        RouteStage::FindHouse => if event == CheckEvent::Missing {
            RouteAction::Refuse(
                HttpStatus::NotFound,
                if worded {
                    Some(RouteText::HouseNotFound)
                } else {
                    None
                },
            )
        } else {
            RouteAction::Refuse(
                HttpStatus::InternalServerError,
                if worded {
                    Some(RouteText::InternalError)
                } else {
                    None
                },
            )
        },
        RouteStage::ReadChunk => RouteAction::Refuse(HttpStatus::InternalServerError, None),
        RouteStage::DeleteHouse => RouteAction::Refuse(HttpStatus::InternalServerError, None),
        RouteStage::Validate => RouteAction::Refuse(
            HttpStatus::BadRequest,
            Some(RouteText::Validation),
        ),
        RouteStage::CheckNeighbours => RouteAction::Refuse(
            HttpStatus::BadRequest,
            Some(RouteText::Validation),
        ),
        RouteStage::LoadNeighbours => if event == CheckEvent::Oversized {
            RouteAction::Refuse(HttpStatus::BadRequest, Some(RouteText::SpansTooManyChunks))
        } else {
            RouteAction::Refuse(HttpStatus::InternalServerError, Some(RouteText::InternalError))
        },
        _ => RouteAction::Refuse(HttpStatus::InternalServerError, Some(RouteText::InternalError)),
    }
}

/// What follows stage `i` of `route` when its work went as `event`: the
/// next stage when it passed or cannot fail, the route's success status
/// after its last stage, and otherwise the stage's refusal.
pub open spec fn route_next(route: HousingRoute, i: int, event: CheckEvent) -> RouteAction {
    let stage = route_stage_at(route, i);
    if route_can_fail(stage) && event != CheckEvent::Passed {
        route_refusal(route, stage, event)
    } else if i + 1 >= route_len(route) {
        RouteAction::Succeed(route_success(route))
    } else {
        RouteAction::Run(route_stage_at(route, i + 1))
    }
}

/// Where a request of `route` stands after the `events`, starting at
/// position `i`.
pub open spec fn route_run(route: HousingRoute, i: int, events: Seq<CheckEvent>) -> RouteAction
    decreases events.len(),
{
    if events.len() == 0 {
        RouteAction::Run(route_stage_at(route, i))
    } else {
        match route_next(route, i, events[0]) {
            RouteAction::Run(_) => route_run(route, i + 1, events.drop_first()),
            other => other,
        }
    }
}

/// How many stages a request of `route` runs with the `events`, starting at
/// position `i`.
pub open spec fn route_steps(route: HousingRoute, i: int, events: Seq<CheckEvent>) -> int
    decreases events.len(),
{
    if events.len() == 0 {
        0
    } else {
        1 + match route_next(route, i, events[0]) {
            RouteAction::Run(_) => route_steps(route, i + 1, events.drop_first()),
            _ => 0,
        }
    }
}

/// The first stage of `route`.
pub fn route_first_stage(route: HousingRoute) -> (s: RouteStage)
    ensures
        s == route_stage_at(route, 0),
{
    match route {
        HousingRoute::GetChunk => RouteStage::ReadChunk,
        HousingRoute::GetHouse => RouteStage::CheckId,
        HousingRoute::CreateHouse => RouteStage::Validate,
        HousingRoute::UpdateHouse => RouteStage::CheckId,
        HousingRoute::DeleteHouse => RouteStage::CheckId,
    }
}

/// What follows `stage` of `route` when its work went as `event`.
pub fn next_route_action(route: HousingRoute, stage: RouteStage, event: CheckEvent) -> (a: RouteAction)
    requires
        exists|i: int| 0 <= i < route_len(route) && route_stage_at(route, i) == stage,
    ensures
        a == route_next(route, route_index(route, stage), event),
{
    let ghost i = route_index(route, stage);
    proof {
        assert(0 <= i < route_len(route) && route_stage_at(route, i) == stage);
    }
    let passed = match event {
        CheckEvent::Passed => true,
        _ => false,
    };
    let missing = match event {
        CheckEvent::Missing => true,
        _ => false,
    };
    let oversized = match event {
        CheckEvent::Oversized => true,
        _ => false,
    };
    let worded = match route {
        HousingRoute::UpdateHouse => true,
        _ => false,
    };
    let can_fail = match stage {
        RouteStage::ApplyDoors | RouteStage::MarkPassable | RouteStage::UnmarkPassable
        | RouteStage::Broadcast => false,
        _ => true,
    };
    if can_fail && !passed {
        return match stage {
            RouteStage::CheckId => RouteAction::Refuse(
                HttpStatus::BadRequest,
                if worded {
                    Some(RouteText::InvalidHouseId)
                } else {
                    None
                },
            ),
            RouteStage::FindHouse => if missing {
                RouteAction::Refuse(
                    HttpStatus::NotFound,
                    if worded {
                        Some(RouteText::HouseNotFound)
                    } else {
                        None
                    },
                )
            } else {
                RouteAction::Refuse(
                    HttpStatus::InternalServerError,
                    if worded {
                        Some(RouteText::InternalError)
                    } else {
                        None
                    },
                )
            },
            RouteStage::ReadChunk => RouteAction::Refuse(HttpStatus::InternalServerError, None),
            RouteStage::DeleteHouse => RouteAction::Refuse(HttpStatus::InternalServerError, None),
            RouteStage::Validate => RouteAction::Refuse(
                HttpStatus::BadRequest,
                Some(RouteText::Validation),
            ),
            RouteStage::CheckNeighbours => RouteAction::Refuse(
                HttpStatus::BadRequest,
                Some(RouteText::Validation),
            ),
            RouteStage::LoadNeighbours => if oversized {
                RouteAction::Refuse(HttpStatus::BadRequest, Some(RouteText::SpansTooManyChunks))
            } else {
                RouteAction::Refuse(
                    HttpStatus::InternalServerError,
                    Some(RouteText::InternalError),
                )
            },
            _ => RouteAction::Refuse(HttpStatus::InternalServerError, Some(RouteText::InternalError)),
        };
    }
    match route {
        HousingRoute::GetChunk => match stage {
            RouteStage::ReadChunk => RouteAction::Run(RouteStage::ApplyDoors),
            _ => RouteAction::Succeed(HttpStatus::Success),
        },
        HousingRoute::GetHouse => match stage {
            RouteStage::CheckId => RouteAction::Run(RouteStage::FindHouse),
            RouteStage::FindHouse => RouteAction::Run(RouteStage::ApplyDoors),
            _ => RouteAction::Succeed(HttpStatus::Success),
        },
        HousingRoute::CreateHouse => match stage {
            RouteStage::Validate => RouteAction::Run(RouteStage::LoadHouses),
            RouteStage::LoadHouses => RouteAction::Run(RouteStage::CheckNeighbours),
            RouteStage::CheckNeighbours => RouteAction::Run(RouteStage::WriteHouse),
            RouteStage::WriteHouse => RouteAction::Run(RouteStage::MarkPassable),
            RouteStage::MarkPassable => RouteAction::Run(RouteStage::ClearTerrain),
            RouteStage::ClearTerrain => RouteAction::Run(RouteStage::Broadcast),
            _ => RouteAction::Succeed(HttpStatus::Created),
        },
        HousingRoute::UpdateHouse => match stage {
            RouteStage::CheckId => RouteAction::Run(RouteStage::FindHouse),
            RouteStage::FindHouse => RouteAction::Run(RouteStage::Validate),
            RouteStage::Validate => RouteAction::Run(RouteStage::LoadNeighbours),
            RouteStage::LoadNeighbours => RouteAction::Run(RouteStage::CheckNeighbours),
            RouteStage::CheckNeighbours => RouteAction::Run(RouteStage::ReplaceHouse),
            RouteStage::ReplaceHouse => RouteAction::Run(RouteStage::MarkPassable),
            RouteStage::MarkPassable => RouteAction::Run(RouteStage::ClearTerrain),
            RouteStage::ClearTerrain => RouteAction::Run(RouteStage::Broadcast),
            _ => RouteAction::Succeed(HttpStatus::Success),
        },
        HousingRoute::DeleteHouse => match stage {
            RouteStage::CheckId => RouteAction::Run(RouteStage::FindHouse),
            RouteStage::FindHouse => RouteAction::Run(RouteStage::DeleteHouse),
            RouteStage::DeleteHouse => RouteAction::Run(RouteStage::UnmarkPassable),
            RouteStage::UnmarkPassable => RouteAction::Run(RouteStage::Broadcast),
            _ => RouteAction::Succeed(HttpStatus::NoContent),
        },
    }
}

/// The numeric code of a status.
pub open spec fn status_code(s: HttpStatus) -> u16 {
    match s {
        HttpStatus::Success => 200,
        HttpStatus::Created => 201,
        HttpStatus::NoContent => 204,
        HttpStatus::BadRequest => 400,
        HttpStatus::NotFound => 404,
        HttpStatus::InternalServerError => 500,
    }
}

impl HttpStatus {
    /// The numeric code of this status.
    pub fn code(&self) -> (c: u16)
        ensures
            c == status_code(*self),
    {
        match self {
            HttpStatus::Success => 200,
            HttpStatus::Created => 201,
            HttpStatus::NoContent => 204,
            HttpStatus::BadRequest => 400,
            HttpStatus::NotFound => 404,
            HttpStatus::InternalServerError => 500,
        }
    }
}

/// The words of a refusal text, or `None` for the validation's own words.
pub open spec fn route_text_words(t: RouteText) -> Option<Seq<char>> {
    match t {
        RouteText::InternalError => Some("Internal server error"@),
        RouteText::InvalidHouseId => Some("invalid house id"@),
        RouteText::HouseNotFound => Some("house not found"@),
        RouteText::SpansTooManyChunks => Some("house spans too many chunks"@),
        RouteText::Validation => None,
    }
}

impl RouteText {
    /// The words of this text, or `None` for the validation's own words.
    pub fn words(&self) -> (w: Option<String>)
        ensures
            w is None <==> route_text_words(*self) is None,
            w matches Some(s) ==> route_text_words(*self) == Some(s@),
    {
        match self {
            RouteText::InternalError => Some(String::from_str("Internal server error")),
            RouteText::InvalidHouseId => Some(String::from_str("invalid house id")),
            RouteText::HouseNotFound => Some(String::from_str("house not found")),
            RouteText::SpansTooManyChunks => Some(String::from_str("house spans too many chunks")),
            RouteText::Validation => None,
        }
    }
}

/// The walk of a request of `route` from position `j`.
proof fn lemma_route_walk(route: HousingRoute, j: int, events: Seq<CheckEvent>)
    requires
        0 <= j < route_len(route),
    ensures
        j + route_steps(route, j, events) <= route_len(route),
        route_steps(route, j, events) <= events.len(),
        forall|i: int|
            0 <= i && i + 1 < route_steps(route, j, events) && route_can_fail(
                #[trigger] route_stage_at(route, j + i),
            ) ==> events[i] == CheckEvent::Passed,
        route_run(route, j, events) is Run ==> route_run(route, j, events) == RouteAction::Run(
            route_stage_at(route, j + route_steps(route, j, events)),
        ),
        route_run(route, j, events) is Succeed <==> (events.len() >= route_len(route) - j
            && forall|i: int|
            0 <= i < route_len(route) - j && route_can_fail(#[trigger] route_stage_at(route, j + i))
                ==> events[i] == CheckEvent::Passed),
        route_run(route, j, events) is Succeed ==> route_run(route, j, events)
            == RouteAction::Succeed(route_success(route)),
    decreases events.len(),
{
    if events.len() > 0 {
        let e = events[0];
        let rest = events.drop_first();
        let all = forall|i: int|
            0 <= i < route_len(route) - j && route_can_fail(#[trigger] route_stage_at(route, j + i))
                ==> events[i] == CheckEvent::Passed;
        match route_next(route, j, e) {
            RouteAction::Run(_) => {
                lemma_route_walk(route, j + 1, rest);
                assert forall|i: int|
                    0 <= i && i + 1 < route_steps(route, j, events) && route_can_fail(
                        #[trigger] route_stage_at(route, j + i),
                    ) implies events[i] == CheckEvent::Passed by {
                    if i > 0 {
                        assert(events[i] == rest[i - 1]);
                        assert(route_stage_at(route, j + 1 + (i - 1)) == route_stage_at(route, j + i));
                    }
                }
                let all_rest = forall|i: int|
                    0 <= i < route_len(route) - (j + 1) && route_can_fail(
                        #[trigger] route_stage_at(route, j + 1 + i),
                    ) ==> rest[i] == CheckEvent::Passed;
                if all && events.len() >= route_len(route) - j {
                    assert forall|i: int|
                        0 <= i < route_len(route) - (j + 1) && route_can_fail(
                            #[trigger] route_stage_at(route, j + 1 + i),
                        ) implies rest[i] == CheckEvent::Passed by {
                        assert(route_stage_at(route, j + (i + 1)) == route_stage_at(route, j + 1 + i));
                        assert(rest[i] == events[i + 1]);
                    }
                }
                if all_rest && rest.len() >= route_len(route) - (j + 1) {
                    assert forall|i: int|
                        0 <= i < route_len(route) - j && route_can_fail(
                            #[trigger] route_stage_at(route, j + i),
                        ) implies events[i] == CheckEvent::Passed by {
                        if i > 0 {
                            assert(route_stage_at(route, j + 1 + (i - 1)) == route_stage_at(
                                route,
                                j + i,
                            ));
                            assert(rest[i - 1] == events[i]);
                        }
                    }
                }
            },
            RouteAction::Succeed(_) => {
                if events.len() >= route_len(route) - j {
                    assert forall|i: int|
                        0 <= i < route_len(route) - j && route_can_fail(
                            #[trigger] route_stage_at(route, j + i),
                        ) implies events[i] == CheckEvent::Passed by {
                        assert(i == 0);
                        assert(route_stage_at(route, j + 0) == route_stage_at(route, j));
                    }
                }
            },
            RouteAction::Refuse(_, _) => {
                if all && events.len() >= route_len(route) - j {
                    assert(route_can_fail(route_stage_at(route, j + 0)));
                }
            },
        }
    }
}

/// A request is served exactly when every stage of its route that can
/// refuse passed; it is then answered with the route's success status.
pub proof fn lemma_route_served_iff_all_passed(route: HousingRoute, events: Seq<CheckEvent>)
    ensures
        route_run(route, 0, events) is Succeed <==> (events.len() >= route_len(route) && forall|
            i: int,
        | 0 <= i < route_len(route) && route_can_fail(#[trigger] route_stage_at(route, i))
            ==> events[i] == CheckEvent::Passed),
        route_run(route, 0, events) is Succeed ==> route_run(route, 0, events)
            == RouteAction::Succeed(route_success(route)),
{
    lemma_route_walk(route, 0, events);
    let walk_all = forall|i: int|
        0 <= i < route_len(route) - 0 && route_can_fail(#[trigger] route_stage_at(route, 0 + i))
            ==> events[i] == CheckEvent::Passed;
    let all = forall|i: int|
        0 <= i < route_len(route) && route_can_fail(#[trigger] route_stage_at(route, i))
            ==> events[i] == CheckEvent::Passed;
    if walk_all {
        assert forall|i: int|
            0 <= i < route_len(route) && route_can_fail(#[trigger] route_stage_at(route, i)) implies events[i]
            == CheckEvent::Passed by {
            assert(route_stage_at(route, 0 + i) == route_stage_at(route, i));
        }
    }
    if all {
        assert forall|i: int|
            0 <= i < route_len(route) - 0 && route_can_fail(#[trigger] route_stage_at(route, 0 + i)) implies events[i]
            == CheckEvent::Passed by {
            assert(route_stage_at(route, 0 + i) == route_stage_at(route, i));
        }
    }
}

/// A house is only written, replaced or deleted once every check before it
/// passed: its validation and neighbour check for a write or replacement,
/// the id check and lookup for a deletion.
pub proof fn lemma_route_writes_only_after_checks(
    route: HousingRoute,
    events: Seq<CheckEvent>,
    k: int,
)
    requires
        0 <= k < route_steps(route, 0, events),
    ensures
        forall|i: int|
            0 <= i < k && route_can_fail(#[trigger] route_stage_at(route, i)) ==> events[i]
                == CheckEvent::Passed,
{
    lemma_route_walk(route, 0, events);
    assert forall|i: int|
        0 <= i < k && route_can_fail(#[trigger] route_stage_at(route, i)) implies events[i]
        == CheckEvent::Passed by {
        assert(route_stage_at(route, 0 + i) == route_stage_at(route, i));
    }
}

/// How a refused request is answered. A request refused at a stage that can
/// refuse is answered 400 Bad Request exactly when the request itself is at
/// fault (a malformed id, a house that fails validation or overlaps its
/// neighbours, or one that spans too many chunks), 404 Not Found exactly when
/// the house looked up does not exist, and 500 Internal Server Error
/// otherwise. A failed validation or neighbour check is reported in the
/// validation's own words; the create and update routes word every
/// refusal, the read and delete routes answer with a bare status.
pub proof fn lemma_route_refusal_answers(route: HousingRoute, i: int, e: CheckEvent)
    requires
        0 <= i < route_len(route),
        e != CheckEvent::Passed,
        route_can_fail(route_stage_at(route, i)),
    ensures
        route_next(route, i, e) is Refuse,
        (route_next(route, i, e)->Refuse_0 == HttpStatus::BadRequest) <==> (route_stage_at(route, i)
            == RouteStage::CheckId || route_stage_at(route, i) == RouteStage::Validate
            || route_stage_at(route, i) == RouteStage::CheckNeighbours || (route_stage_at(route, i)
            == RouteStage::LoadNeighbours && e == CheckEvent::Oversized)),
        (route_next(route, i, e)->Refuse_0 == HttpStatus::NotFound) <==> (route_stage_at(route, i)
            == RouteStage::FindHouse && e == CheckEvent::Missing),
        route_next(route, i, e)->Refuse_0 == HttpStatus::BadRequest || route_next(route, i, e)->Refuse_0
            == HttpStatus::NotFound || route_next(route, i, e)->Refuse_0
            == HttpStatus::InternalServerError,
        route_stage_at(route, i) == RouteStage::Validate || route_stage_at(route, i)
            == RouteStage::CheckNeighbours ==> route_next(route, i, e) == RouteAction::Refuse(
            HttpStatus::BadRequest,
            Some(RouteText::Validation),
        ),
        (route == HousingRoute::CreateHouse || route == HousingRoute::UpdateHouse) <==> route_next(
            route,
            i,
            e,
        )->Refuse_1 is Some,
{
}

} // verus!
