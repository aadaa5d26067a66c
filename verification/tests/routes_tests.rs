use onlinerpg_estate::house::{tile_invalidations, TileLayer};
use onlinerpg_estate::placement::CheckEvent;
use onlinerpg_estate::routes::{
    next_route_action, route_first_stage, HousingRoute, HttpStatus, RouteAction, RouteStage,
    RouteText,
};

fn walk(route: HousingRoute, events: &[CheckEvent]) -> (Vec<RouteStage>, RouteAction) {
    let mut stage = route_first_stage(route);
    let mut ran = Vec::new();
    for &event in events {
        ran.push(stage);
        match next_route_action(route, stage, event) {
            RouteAction::Run(next) => stage = next,
            other => return (ran, other),
        }
    }
    (ran, RouteAction::Run(stage))
}

#[test]
fn served_requests_run_every_stage_and_answer_success() {
    let cases = [
        (HousingRoute::GetChunk, vec![RouteStage::ReadChunk, RouteStage::ApplyDoors], HttpStatus::Success),
        (HousingRoute::GetHouse, vec![RouteStage::CheckId, RouteStage::FindHouse, RouteStage::ApplyDoors], HttpStatus::Success),
        (
            HousingRoute::CreateHouse,
            vec![RouteStage::Validate, RouteStage::LoadHouses, RouteStage::CheckNeighbours, RouteStage::WriteHouse, RouteStage::MarkPassable, RouteStage::ClearTerrain, RouteStage::Broadcast],
            HttpStatus::Created,
        ),
        (
            HousingRoute::UpdateHouse,
            vec![
                RouteStage::CheckId,
                RouteStage::FindHouse,
                RouteStage::Validate,
                RouteStage::LoadNeighbours,
                RouteStage::CheckNeighbours,
                RouteStage::ReplaceHouse,
                RouteStage::MarkPassable,
                RouteStage::ClearTerrain,
                RouteStage::Broadcast,
            ],
            HttpStatus::Success,
        ),
        (
            HousingRoute::DeleteHouse,
            vec![RouteStage::CheckId, RouteStage::FindHouse, RouteStage::DeleteHouse, RouteStage::UnmarkPassable, RouteStage::Broadcast],
            HttpStatus::NoContent,
        ),
    ];
    for (route, stages, status) in cases {
        let (ran, end) = walk(route, &vec![CheckEvent::Passed; stages.len()]);
        assert_eq!(ran, stages);
        assert_eq!(end, RouteAction::Succeed(status));
    }
}

#[test]
fn refusals_carry_the_routes_status_and_text() {
    let f = CheckEvent::Failed;
    let p = CheckEvent::Passed;
    let m = CheckEvent::Missing;
    assert_eq!(walk(HousingRoute::GetChunk, &[f]).1, RouteAction::Refuse(HttpStatus::InternalServerError, None));
    assert_eq!(walk(HousingRoute::GetHouse, &[f]).1, RouteAction::Refuse(HttpStatus::BadRequest, None));
    assert_eq!(walk(HousingRoute::GetHouse, &[p, m]).1, RouteAction::Refuse(HttpStatus::NotFound, None));
    assert_eq!(
        walk(HousingRoute::GetHouse, &[p, f]).1,
        RouteAction::Refuse(HttpStatus::InternalServerError, None)
    );
    assert_eq!(
        walk(HousingRoute::CreateHouse, &[f]).1,
        RouteAction::Refuse(HttpStatus::BadRequest, Some(RouteText::Validation))
    );
    assert_eq!(
        walk(HousingRoute::CreateHouse, &[p, f]).1,
        RouteAction::Refuse(HttpStatus::InternalServerError, Some(RouteText::InternalError))
    );
    assert_eq!(
        walk(HousingRoute::CreateHouse, &[p, p, f]).1,
        RouteAction::Refuse(HttpStatus::BadRequest, Some(RouteText::Validation))
    );
    assert_eq!(
        walk(HousingRoute::CreateHouse, &[p, p, p, f]).1,
        RouteAction::Refuse(HttpStatus::InternalServerError, Some(RouteText::InternalError))
    );
    assert_eq!(
        walk(HousingRoute::CreateHouse, &[p, p, p, p, f, f]).1,
        RouteAction::Refuse(HttpStatus::InternalServerError, Some(RouteText::InternalError))
    );
    assert_eq!(
        walk(HousingRoute::UpdateHouse, &[f]).1,
        RouteAction::Refuse(HttpStatus::BadRequest, Some(RouteText::InvalidHouseId))
    );
    assert_eq!(
        walk(HousingRoute::UpdateHouse, &[p, m]).1,
        RouteAction::Refuse(HttpStatus::NotFound, Some(RouteText::HouseNotFound))
    );
    assert_eq!(
        walk(HousingRoute::UpdateHouse, &[p, p, p, CheckEvent::Oversized]).1,
        RouteAction::Refuse(HttpStatus::BadRequest, Some(RouteText::SpansTooManyChunks))
    );
    assert_eq!(
        walk(HousingRoute::UpdateHouse, &[p, p, p, f]).1,
        RouteAction::Refuse(HttpStatus::InternalServerError, Some(RouteText::InternalError))
    );
    assert_eq!(
        walk(HousingRoute::DeleteHouse, &[p, m]).1,
        RouteAction::Refuse(HttpStatus::NotFound, None)
    );
    assert_eq!(
        walk(HousingRoute::DeleteHouse, &[p, p, f]).1,
        RouteAction::Refuse(HttpStatus::InternalServerError, None)
    );
}

#[test]
fn stages_that_cannot_fail_pass_on_whatever_happened() {
    let p = CheckEvent::Passed;
    let (ran, end) = walk(HousingRoute::DeleteHouse, &[p, p, p, CheckEvent::Failed, CheckEvent::Failed]);
    assert_eq!(ran.len(), 5);
    assert_eq!(end, RouteAction::Succeed(HttpStatus::NoContent));
}

#[test]
fn status_codes_and_texts() {
    assert_eq!(HttpStatus::Success.code(), 200);
    assert_eq!(HttpStatus::Created.code(), 201);
    assert_eq!(HttpStatus::NoContent.code(), 204);
    assert_eq!(HttpStatus::BadRequest.code(), 400);
    assert_eq!(HttpStatus::NotFound.code(), 404);
    assert_eq!(HttpStatus::InternalServerError.code(), 500);
    assert_eq!(RouteText::InternalError.words().as_deref(), Some("Internal server error"));
    assert_eq!(RouteText::InvalidHouseId.words().as_deref(), Some("invalid house id"));
    assert_eq!(RouteText::HouseNotFound.words().as_deref(), Some("house not found"));
    assert_eq!(RouteText::SpansTooManyChunks.words().as_deref(), Some("house spans too many chunks"));
    assert_eq!(RouteText::Validation.words(), None);
}

#[test]
fn only_changed_layers_are_invalidated_in_order() {
    assert_eq!(tile_invalidations(&[], &[], &[]), vec![]);
    assert_eq!(
        tile_invalidations(&[(0, 0)], &[(1, 1)], &[(2, 2)]),
        vec![TileLayer::Height, TileLayer::Tree, TileLayer::Grass]
    );
    assert_eq!(tile_invalidations(&[], &[(1, 1)], &[]), vec![TileLayer::Tree]);
    assert_eq!(tile_invalidations(&[], &[], &[(3, 4)]), vec![TileLayer::Grass]);
}
