use onlinerpg_estate::placement::{
    demolition_first_stage, next_demolition_action, next_placement_action,
    placement_first_stage, CheckEvent, DemolitionAction, DemolitionError, DemolitionStage,
    PlacementAction, PlacementError, PlacementStage,
};

/// Feeds `events` to a placement until it stops or runs out; returns the
/// stages run and where it stands.
fn walk_placement(events: &[CheckEvent]) -> (Vec<PlacementStage>, PlacementAction) {
    let mut stage = placement_first_stage();
    let mut ran = Vec::new();
    for &event in events {
        ran.push(stage);
        match next_placement_action(stage, event) {
            PlacementAction::Run(next) => stage = next,
            other => return (ran, other),
        }
    }
    (ran, PlacementAction::Run(stage))
}

fn walk_demolition(events: &[CheckEvent]) -> (Vec<DemolitionStage>, DemolitionAction) {
    let mut stage = demolition_first_stage();
    let mut ran = Vec::new();
    for &event in events {
        ran.push(stage);
        match next_demolition_action(stage, event) {
            DemolitionAction::Run(next) => stage = next,
            other => return (ran, other),
        }
    }
    (ran, DemolitionAction::Run(stage))
}

const ALL_PLACEMENT: [PlacementStage; 20] = [
    PlacementStage::CheckPosition,
    PlacementStage::TickLandTaxes,
    PlacementStage::CheckTrade,
    PlacementStage::FindCharacter,
    PlacementStage::CheckStanding,
    PlacementStage::FindScroll,
    PlacementStage::CheckToolbox,
    PlacementStage::ReadTemplate,
    PlacementStage::CheckReach,
    PlacementStage::LoadPlots,
    PlacementStage::CheckEstate,
    PlacementStage::SurveyGround,
    PlacementStage::ValidateHouse,
    PlacementStage::LoadNeighbours,
    PlacementStage::CheckOverlap,
    PlacementStage::LoadSaveData,
    PlacementStage::FindInventory,
    PlacementStage::RecheckScroll,
    PlacementStage::WriteHouse,
    PlacementStage::PersistInventory,
];

#[test]
fn a_placement_where_everything_passes_completes() {
    let (ran, end) = walk_placement(&[CheckEvent::Passed; 20]);
    assert_eq!(end, PlacementAction::Done);
    assert_eq!(ran, ALL_PLACEMENT.to_vec());
}

#[test]
fn each_placement_check_refuses_with_its_reason() {
    let expected = [
        (0, CheckEvent::Failed, PlacementError::InvalidPosition),
        (2, CheckEvent::Failed, PlacementError::Trading),
        (3, CheckEvent::Failed, PlacementError::CharacterNotFound),
        (4, CheckEvent::Failed, PlacementError::CharacterNotFound),
        (4, CheckEvent::Unfit, PlacementError::NotStanding),
        (5, CheckEvent::Failed, PlacementError::ScrollMissing),
        (6, CheckEvent::Failed, PlacementError::NoToolbox),
        (7, CheckEvent::Failed, PlacementError::NotAHouseScroll),
        (8, CheckEvent::Failed, PlacementError::OutOfReach),
        (9, CheckEvent::Failed, PlacementError::Unavailable),
        (10, CheckEvent::Failed, PlacementError::OutsideEstate),
        (11, CheckEvent::Failed, PlacementError::TerrainUnavailable),
        (11, CheckEvent::Wet, PlacementError::NeedsDryGround),
        (11, CheckEvent::Uneven, PlacementError::TooUneven),
        (12, CheckEvent::Failed, PlacementError::InvalidHouse),
        (13, CheckEvent::Failed, PlacementError::Unavailable),
        (14, CheckEvent::Failed, PlacementError::Overlap),
        (15, CheckEvent::Failed, PlacementError::CharacterNotFound),
        (16, CheckEvent::Failed, PlacementError::InventoryNotFound),
        (17, CheckEvent::Failed, PlacementError::ScrollMissing),
        (18, CheckEvent::Failed, PlacementError::NotSaved),
    ];
    for (at, event, reason) in expected {
        let mut events = vec![CheckEvent::Passed; at];
        events.push(event);
        let (ran, end) = walk_placement(&events);
        assert_eq!(end, PlacementAction::Fail(reason), "stage {at}");
        assert_eq!(ran, ALL_PLACEMENT[..=at].to_vec());
    }
}

#[test]
fn settling_taxes_never_refuses() {
    let (ran, end) = walk_placement(&[CheckEvent::Passed, CheckEvent::Failed]);
    assert_eq!(ran, vec![PlacementStage::CheckPosition, PlacementStage::TickLandTaxes]);
    assert_eq!(end, PlacementAction::Run(PlacementStage::CheckTrade));
}

#[test]
fn a_failed_inventory_write_deletes_the_house_before_refusing() {
    let mut events = vec![CheckEvent::Passed; 19];
    events.push(CheckEvent::Failed);
    let (_, end) = walk_placement(&events);
    assert_eq!(end, PlacementAction::Run(PlacementStage::RollBack));
    events.push(CheckEvent::Failed);
    let (ran, end) = walk_placement(&events);
    assert_eq!(end, PlacementAction::Fail(PlacementError::NotSaved));
    assert_eq!(ran.last(), Some(&PlacementStage::RollBack));
    assert_eq!(ran.len(), 21);
}

#[test]
fn a_failed_house_write_needs_no_rollback() {
    let mut events = vec![CheckEvent::Passed; 18];
    events.push(CheckEvent::Failed);
    let (ran, end) = walk_placement(&events);
    assert_eq!(end, PlacementAction::Fail(PlacementError::NotSaved));
    assert_eq!(ran.last(), Some(&PlacementStage::WriteHouse));
}

#[test]
fn placement_refusals_read_as_the_server_words_them() {
    let cases = [
        (PlacementError::InvalidPosition, "Choose a valid building position."),
        (PlacementError::Trading, "Finish your player trade first."),
        (PlacementError::CharacterNotFound, "Character not found."),
        (PlacementError::NotStanding, "Stand outdoors while alive to build a house."),
        (PlacementError::ScrollMissing, "That house scroll is no longer in your bag."),
        (PlacementError::NoToolbox, "Carry a Landscaper's Toolbox to place a house."),
        (PlacementError::NotAHouseScroll, "That item is not a house scroll."),
        (PlacementError::OutOfReach, "Choose a position within 30 metres."),
        (PlacementError::Unavailable, "House placement is temporarily unavailable."),
        (PlacementError::OutsideEstate, "The whole house must fit inside your estate."),
        (PlacementError::TerrainUnavailable, "Terrain is unavailable at that position."),
        (PlacementError::NeedsDryGround, "Houses need dry ground."),
        (PlacementError::TooUneven, "The ground is too uneven for this house."),
        (PlacementError::Overlap, "That position overlaps another house."),
        (PlacementError::InventoryNotFound, "Inventory not found."),
        (
            PlacementError::NotSaved,
            "The house could not be saved. Your scroll was not consumed.",
        ),
    ];
    for (e, text) in cases {
        assert_eq!(e.message().as_deref(), Some(text));
    }
    assert_eq!(PlacementError::InvalidHouse.message(), None);
}

#[test]
fn a_demolition_where_everything_passes_deletes_the_house() {
    let (ran, end) = walk_demolition(&[CheckEvent::Passed; 9]);
    assert_eq!(end, DemolitionAction::Done);
    assert_eq!(
        ran,
        vec![
            DemolitionStage::CheckTrade,
            DemolitionStage::TickLandTaxes,
            DemolitionStage::FindCharacter,
            DemolitionStage::CheckToolbox,
            DemolitionStage::CheckStanding,
            DemolitionStage::FindHouse,
            DemolitionStage::CheckOwner,
            DemolitionStage::CheckReach,
            DemolitionStage::DeleteHouse,
        ]
    );
}

#[test]
fn each_demolition_check_refuses_with_its_reason() {
    let expected = [
        (0, CheckEvent::Failed, DemolitionError::Trading),
        (2, CheckEvent::Failed, DemolitionError::CharacterNotFound),
        (3, CheckEvent::Failed, DemolitionError::NoToolbox),
        (4, CheckEvent::Failed, DemolitionError::CharacterNotFound),
        (4, CheckEvent::Unfit, DemolitionError::NotStanding),
        (5, CheckEvent::Failed, DemolitionError::Unavailable),
        (5, CheckEvent::Missing, DemolitionError::HouseGone),
        (6, CheckEvent::Failed, DemolitionError::NotOwner),
        (7, CheckEvent::Failed, DemolitionError::OutOfReach),
        (8, CheckEvent::Failed, DemolitionError::NotDemolished),
        (8, CheckEvent::Missing, DemolitionError::HouseGone),
    ];
    for (at, event, reason) in expected {
        let mut events = vec![CheckEvent::Passed; at];
        events.push(event);
        let (ran, end) = walk_demolition(&events);
        assert_eq!(end, DemolitionAction::Fail(reason), "stage {at}");
        assert_eq!(ran.len(), at + 1);
    }
}

#[test]
fn demolition_refusals_read_as_the_server_words_them() {
    let cases = [
        (DemolitionError::Trading, "Finish your player trade first."),
        (DemolitionError::CharacterNotFound, "Character not found."),
        (DemolitionError::NoToolbox, "Carry a Landscaper's Toolbox to demolish a house."),
        (DemolitionError::NotStanding, "Stand outdoors while alive to demolish a house."),
        (DemolitionError::Unavailable, "House demolition is temporarily unavailable."),
        (DemolitionError::HouseGone, "That house no longer exists."),
        (DemolitionError::NotOwner, "You can only demolish your own house."),
        (DemolitionError::OutOfReach, "Move within 30 metres of the house."),
        (DemolitionError::NotDemolished, "The house could not be demolished."),
    ];
    for (e, text) in cases {
        assert_eq!(e.message(), text);
    }
}
