//! The decisions of placing a house from a scroll and of demolishing one.
//!
//! Both are walks through a fixed list of stages. The caller performs the
//! work of the stage it is asked to run (a lookup, a check that needs the
//! world's geometry, a write) and reports how it went as a `CheckEvent`;
//! the functions here say what comes next: another stage, a refusal with
//! its reason, or the end of a successful walk.
use vstd::prelude::*;

verus! {

/// How a stage's work went.
#[derive(Clone, Copy, Debug, PartialEq, Eq, Structural)]
pub enum CheckEvent {
    /// The check held, the thing was found, or the write succeeded.
    Passed,
    /// The check did not hold, the thing was not found, or the storage failed.
    Failed,
    /// The storage answered that the thing does not exist.
    Missing,
    /// The player is present but dead or not outdoors on the surface.
    Unfit,
    /// The ground under a foundation cell is under water.
    Wet,
    /// The ground under the foundation rises more than the allowed slope.
    Uneven,
    /// The house spans more chunks than a neighbour search covers.
    Oversized,
}

/// The stages of placing a house, in the order they run.
#[derive(Clone, Copy, Debug, PartialEq, Eq, Structural)]
pub enum PlacementStage {
    /// Is the chosen position a finite point?
    CheckPosition,
    /// Settle land taxes and take the persistence lock; this cannot fail.
    TickLandTaxes,
    /// Is the player out of any trade?
    CheckTrade,
    /// Does the player have a character record?
    FindCharacter,
    /// Is the player in the world, alive and outdoors (`Unfit` if not)?
    CheckStanding,
    /// Is the scroll in the player's bag?
    FindScroll,
    /// Does the player carry a landscaper's toolbox?
    CheckToolbox,
    /// Does the scroll carry a house template?
    ReadTemplate,
    /// Is the rounded position within reach of the player?
    CheckReach,
    /// Load the player's fence plots.
    LoadPlots,
    /// Does the whole foundation lie inside the player's estate?
    CheckEstate,
    /// Survey the ground under the foundation (`Wet`, `Uneven`, or `Failed`
    /// when the terrain is unavailable).
    SurveyGround,
    /// Is the house itself valid?
    ValidateHouse,
    /// Load the neighbouring houses.
    LoadNeighbours,
    /// Does the house stay clear of its neighbours?
    CheckOverlap,
    /// Load the character's save data.
    LoadSaveData,
    /// Find the player's inventory.
    FindInventory,
    /// Is the scroll still in the bag?
    RecheckScroll,
    /// Write the house to storage.
    WriteHouse,
    /// Persist the inventory without the scroll.
    PersistInventory,
    /// Delete the house written before, since the scroll was not consumed.
    RollBack,
}

/// Why a house was not placed.
#[derive(Clone, Copy, Debug, PartialEq, Eq, Structural)]
pub enum PlacementError {
    InvalidPosition,
    Trading,
    CharacterNotFound,
    NotStanding,
    ScrollMissing,
    NoToolbox,
    NotAHouseScroll,
    OutOfReach,
    Unavailable,
    OutsideEstate,
    TerrainUnavailable,
    NeedsDryGround,
    TooUneven,
    /// The house failed validation; the validation's own words report it.
    InvalidHouse,
    Overlap,
    InventoryNotFound,
    NotSaved,
}

/// What to do after a stage of placing a house.
#[derive(Clone, Copy, Debug, PartialEq, Eq, Structural)]
pub enum PlacementAction {
    /// Run this stage next.
    Run(PlacementStage),
    /// Stop: the house is not placed, for this reason.
    Fail(PlacementError),
    /// The house is placed and the scroll consumed.
    Done,
}

/// The stage at position `i` of a placement: the checks, the two writes,
/// and last the rollback that only a failed second write leads to.
pub open spec fn placement_stage_at(i: int) -> PlacementStage {
    if i <= 0 {
        PlacementStage::CheckPosition
    } else if i == 1 {
        PlacementStage::TickLandTaxes
    } else if i == 2 {
        PlacementStage::CheckTrade
    } else if i == 3 {
        PlacementStage::FindCharacter
    } else if i == 4 {
        PlacementStage::CheckStanding
    } else if i == 5 {
        PlacementStage::FindScroll
    } else if i == 6 {
        PlacementStage::CheckToolbox
    } else if i == 7 {
        PlacementStage::ReadTemplate
    } else if i == 8 {
        PlacementStage::CheckReach
    } else if i == 9 {
        PlacementStage::LoadPlots
    } else if i == 10 {
        PlacementStage::CheckEstate
    } else if i == 11 {
        PlacementStage::SurveyGround
    } else if i == 12 {
        PlacementStage::ValidateHouse
    } else if i == 13 {
        PlacementStage::LoadNeighbours
    } else if i == 14 {
        PlacementStage::CheckOverlap
    } else if i == 15 {
        PlacementStage::LoadSaveData
    } else if i == 16 {
        PlacementStage::FindInventory
    } else if i == 17 {
        PlacementStage::RecheckScroll
    } else if i == 18 {
        PlacementStage::WriteHouse
    } else if i == 19 {
        PlacementStage::PersistInventory
    } else {
        PlacementStage::RollBack
    }
}

/// The position of a stage in `placement_stage_at`.
pub open spec fn placement_index(s: PlacementStage) -> int {
    match s {
        PlacementStage::CheckPosition => 0,
        PlacementStage::TickLandTaxes => 1,
        PlacementStage::CheckTrade => 2,
        PlacementStage::FindCharacter => 3,
        PlacementStage::CheckStanding => 4,
        PlacementStage::FindScroll => 5,
        PlacementStage::CheckToolbox => 6,
        PlacementStage::ReadTemplate => 7,
        PlacementStage::CheckReach => 8,
        PlacementStage::LoadPlots => 9,
        PlacementStage::CheckEstate => 10,
        PlacementStage::SurveyGround => 11,
        PlacementStage::ValidateHouse => 12,
        PlacementStage::LoadNeighbours => 13,
        PlacementStage::CheckOverlap => 14,
        PlacementStage::LoadSaveData => 15,
        PlacementStage::FindInventory => 16,
        PlacementStage::RecheckScroll => 17,
        PlacementStage::WriteHouse => 18,
        PlacementStage::PersistInventory => 19,
        PlacementStage::RollBack => 20,
    }
}

/// Why a placement stops when `stage` did not pass with `event`.
pub open spec fn placement_refusal(stage: PlacementStage, event: CheckEvent) -> PlacementError {
    match stage {
        PlacementStage::CheckPosition => PlacementError::InvalidPosition,
        PlacementStage::CheckTrade => PlacementError::Trading,
        PlacementStage::CheckStanding => if event == CheckEvent::Unfit {
            PlacementError::NotStanding
        } else {
            PlacementError::CharacterNotFound
        },
        PlacementStage::FindScroll => PlacementError::ScrollMissing,
        PlacementStage::CheckToolbox => PlacementError::NoToolbox,
        PlacementStage::ReadTemplate => PlacementError::NotAHouseScroll,
        PlacementStage::CheckReach => PlacementError::OutOfReach,
        PlacementStage::LoadPlots => PlacementError::Unavailable,
        PlacementStage::CheckEstate => PlacementError::OutsideEstate,
        PlacementStage::SurveyGround => if event == CheckEvent::Wet {
            PlacementError::NeedsDryGround
        } else if event == CheckEvent::Uneven {
            PlacementError::TooUneven
        } else {
            PlacementError::TerrainUnavailable
        },
        PlacementStage::ValidateHouse => PlacementError::InvalidHouse,
        PlacementStage::LoadNeighbours => PlacementError::Unavailable,
        PlacementStage::CheckOverlap => PlacementError::Overlap,
        PlacementStage::FindInventory => PlacementError::InventoryNotFound,
        PlacementStage::RecheckScroll => PlacementError::ScrollMissing,
        PlacementStage::WriteHouse => PlacementError::NotSaved,
        PlacementStage::PersistInventory => PlacementError::NotSaved,
        PlacementStage::RollBack => PlacementError::NotSaved,
        _ => PlacementError::CharacterNotFound,
    }
}

/// Whether a stage can stop a placement.
pub open spec fn placement_can_fail(stage: PlacementStage) -> bool {
    stage != PlacementStage::TickLandTaxes
}

/// What follows `stage` when its work went as `event`: the next stage when
/// it passed (settling taxes always passes), completion after the inventory
/// is persisted, the rollback when persisting failed, and after the rollback
/// the refusal `NotSaved`; any other stage that did not pass stops the
/// placement with its reason.
pub open spec fn placement_next(stage: PlacementStage, event: CheckEvent) -> PlacementAction {
    if stage == PlacementStage::TickLandTaxes {
        PlacementAction::Run(PlacementStage::CheckTrade)
    } else if stage == PlacementStage::PersistInventory {
        if event == CheckEvent::Passed {
            PlacementAction::Done
        } else {
            PlacementAction::Run(PlacementStage::RollBack)
        }
    } else if stage == PlacementStage::RollBack {
        PlacementAction::Fail(PlacementError::NotSaved)
    } else if event == CheckEvent::Passed {
        PlacementAction::Run(placement_stage_at(placement_index(stage) + 1))
    } else {
        PlacementAction::Fail(placement_refusal(stage, event))
    }
}

/// Where a placement that starts at `stage` stands after the `events`, fed
/// in turn while it still asks for a stage.
pub open spec fn placement_run(stage: PlacementStage, events: Seq<CheckEvent>) -> PlacementAction
    decreases events.len(),
{
    if events.len() == 0 {
        PlacementAction::Run(stage)
    } else {
        match placement_next(stage, events[0]) {
            PlacementAction::Run(s) => placement_run(s, events.drop_first()),
            other => other,
        }
    }
}

/// The stages that a placement starting at `stage` runs with the `events`.
pub open spec fn placement_trace(stage: PlacementStage, events: Seq<CheckEvent>) -> Seq<
    PlacementStage,
>
    decreases events.len(),
{
    if events.len() == 0 {
        Seq::empty()
    } else {
        seq![stage] + match placement_next(stage, events[0]) {
            PlacementAction::Run(s) => placement_trace(s, events.drop_first()),
            _ => Seq::empty(),
        }
    }
}

/// The first stage of placing a house.
pub fn placement_first_stage() -> (s: PlacementStage)
    ensures
        s == placement_stage_at(0),
{
    PlacementStage::CheckPosition
}

/// What follows `stage` of placing a house when its work went as `event`.
pub fn next_placement_action(stage: PlacementStage, event: CheckEvent) -> (a: PlacementAction)
    ensures
        a == placement_next(stage, event),
{
    let passed = match event {
        CheckEvent::Passed => true,
        _ => false,
    };
    match stage {
        PlacementStage::TickLandTaxes => PlacementAction::Run(PlacementStage::CheckTrade),
        PlacementStage::PersistInventory => if passed {
            PlacementAction::Done
        } else {
            PlacementAction::Run(PlacementStage::RollBack)
        },
        PlacementStage::RollBack => PlacementAction::Fail(PlacementError::NotSaved),
        PlacementStage::CheckPosition => if passed {
            PlacementAction::Run(PlacementStage::TickLandTaxes)
        } else {
            PlacementAction::Fail(PlacementError::InvalidPosition)
        },
        PlacementStage::CheckTrade => if passed {
            PlacementAction::Run(PlacementStage::FindCharacter)
        } else {
            PlacementAction::Fail(PlacementError::Trading)
        },
        PlacementStage::FindCharacter => if passed {
            PlacementAction::Run(PlacementStage::CheckStanding)
        } else {
            PlacementAction::Fail(PlacementError::CharacterNotFound)
        },
        PlacementStage::CheckStanding => match event {
            CheckEvent::Passed => PlacementAction::Run(PlacementStage::FindScroll),
            CheckEvent::Unfit => PlacementAction::Fail(PlacementError::NotStanding),
            _ => PlacementAction::Fail(PlacementError::CharacterNotFound),
        },
        PlacementStage::FindScroll => if passed {
            PlacementAction::Run(PlacementStage::CheckToolbox)
        } else {
            PlacementAction::Fail(PlacementError::ScrollMissing)
        },
        PlacementStage::CheckToolbox => if passed {
            PlacementAction::Run(PlacementStage::ReadTemplate)
        } else {
            PlacementAction::Fail(PlacementError::NoToolbox)
        },
        PlacementStage::ReadTemplate => if passed {
            PlacementAction::Run(PlacementStage::CheckReach)
        } else {
            PlacementAction::Fail(PlacementError::NotAHouseScroll)
        },
        PlacementStage::CheckReach => if passed {
            PlacementAction::Run(PlacementStage::LoadPlots)
        } else {
            PlacementAction::Fail(PlacementError::OutOfReach)
        },
        PlacementStage::LoadPlots => if passed {
            PlacementAction::Run(PlacementStage::CheckEstate)
        } else {
            PlacementAction::Fail(PlacementError::Unavailable)
        },
        PlacementStage::CheckEstate => if passed {
            PlacementAction::Run(PlacementStage::SurveyGround)
        } else {
            PlacementAction::Fail(PlacementError::OutsideEstate)
        },
        PlacementStage::SurveyGround => match event {
            CheckEvent::Passed => PlacementAction::Run(PlacementStage::ValidateHouse),
            CheckEvent::Wet => PlacementAction::Fail(PlacementError::NeedsDryGround),
            CheckEvent::Uneven => PlacementAction::Fail(PlacementError::TooUneven),
            _ => PlacementAction::Fail(PlacementError::TerrainUnavailable),
        },
        PlacementStage::ValidateHouse => if passed {
            PlacementAction::Run(PlacementStage::LoadNeighbours)
        } else {
            PlacementAction::Fail(PlacementError::InvalidHouse)
        },
        PlacementStage::LoadNeighbours => if passed {
            PlacementAction::Run(PlacementStage::CheckOverlap)
        } else {
            PlacementAction::Fail(PlacementError::Unavailable)
        },
        PlacementStage::CheckOverlap => if passed {
            PlacementAction::Run(PlacementStage::LoadSaveData)
        } else {
            PlacementAction::Fail(PlacementError::Overlap)
        },
        PlacementStage::LoadSaveData => if passed {
            PlacementAction::Run(PlacementStage::FindInventory)
        } else {
            PlacementAction::Fail(PlacementError::CharacterNotFound)
        },
        PlacementStage::FindInventory => if passed {
            PlacementAction::Run(PlacementStage::RecheckScroll)
        } else {
            PlacementAction::Fail(PlacementError::InventoryNotFound)
        },
        PlacementStage::RecheckScroll => if passed {
            PlacementAction::Run(PlacementStage::WriteHouse)
        } else {
            PlacementAction::Fail(PlacementError::ScrollMissing)
        },
        PlacementStage::WriteHouse => if passed {
            PlacementAction::Run(PlacementStage::PersistInventory)
        } else {
            PlacementAction::Fail(PlacementError::NotSaved)
        },
    }
}

/// A placement stage passes on to the stage after it in `placement_stage_at`.
proof fn lemma_placement_step(j: int, e: CheckEvent)
    requires
        0 <= j <= 20,
    ensures
        placement_index(placement_stage_at(j)) == j,
        placement_next(placement_stage_at(j), e) matches PlacementAction::Run(s) ==> s
            == placement_stage_at(j + 1) && j <= 19,
        j <= 18 && (e == CheckEvent::Passed || !placement_can_fail(placement_stage_at(j)))
            ==> placement_next(placement_stage_at(j), e) == PlacementAction::Run(
            placement_stage_at(j + 1),
        ),
        j <= 18 && e != CheckEvent::Passed && placement_can_fail(placement_stage_at(j))
            ==> placement_next(placement_stage_at(j), e) is Fail,
        j == 19 ==> (placement_next(placement_stage_at(j), e) == PlacementAction::Done <==> e
            == CheckEvent::Passed),
        j == 20 ==> placement_next(placement_stage_at(j), e) == PlacementAction::Fail(
            PlacementError::NotSaved,
        ),
{
}

/// The walk of a placement from the stage at position `j`.
proof fn lemma_placement_walk(j: int, events: Seq<CheckEvent>)
    requires
        0 <= j <= 20,
    ensures
        placement_trace(placement_stage_at(j), events).len() <= events.len(),
        j + placement_trace(placement_stage_at(j), events).len() <= 21,
        forall|k: int|
            0 <= k < placement_trace(placement_stage_at(j), events).len() ==> #[trigger] placement_trace(
                placement_stage_at(j),
                events,
            )[k] == placement_stage_at(j + k),
        forall|i: int|
            0 <= i && i + 1 < placement_trace(placement_stage_at(j), events).len() && j + i <= 18
                && placement_can_fail(#[trigger] placement_stage_at(j + i)) ==> events[i]
                == CheckEvent::Passed,
        placement_run(placement_stage_at(j), events) == PlacementAction::Done <==> (j <= 19
            && events.len() >= 20 - j && forall|i: int|
            0 <= i < 20 - j && placement_can_fail(#[trigger] placement_stage_at(j + i))
                ==> events[i] == CheckEvent::Passed),
        placement_run(placement_stage_at(j), events) is Run ==> placement_trace(
            placement_stage_at(j),
            events,
        ).len() == events.len(),
        placement_run(placement_stage_at(j), events) is Fail && j + placement_trace(
            placement_stage_at(j),
            events,
        ).len() > 19 ==> j + placement_trace(placement_stage_at(j), events).len() == 21
            && placement_run(placement_stage_at(j), events) == PlacementAction::Fail(
            PlacementError::NotSaved,
        ),
    decreases events.len(),
{
    let st = placement_stage_at(j);
    if events.len() > 0 {
        let e = events[0];
        let rest = events.drop_first();
        lemma_placement_step(j, e);
        let t = placement_trace(st, events);
        match placement_next(st, e) {
            PlacementAction::Run(s) => {
                lemma_placement_walk(j + 1, rest);
                let tr = placement_trace(s, rest);
                assert(t == seq![st] + tr);
                assert forall|k: int| 0 <= k < t.len() implies #[trigger] t[k]
                    == placement_stage_at(j + k) by {
                    if k > 0 {
                        assert(t[k] == tr[k - 1]);
                    }
                }
                assert forall|i: int|
                    0 <= i && i + 1 < t.len() && j + i <= 18 && placement_can_fail(
                        #[trigger] placement_stage_at(j + i),
                    ) implies events[i] == CheckEvent::Passed by {
                    if i > 0 {
                        assert(events[i] == rest[i - 1]);
                        assert(placement_stage_at(j + 1 + (i - 1)) == placement_stage_at(j + i));
                    }
                }
                let all_rest = forall|i: int|
                    0 <= i < 20 - (j + 1) && placement_can_fail(
                        #[trigger] placement_stage_at(j + 1 + i),
                    ) ==> rest[i] == CheckEvent::Passed;
                let all = forall|i: int|
                    0 <= i < 20 - j && placement_can_fail(#[trigger] placement_stage_at(j + i))
                        ==> events[i] == CheckEvent::Passed;
                if j <= 18 {
                    if all && events.len() >= 20 - j {
                        assert forall|i: int|
                            0 <= i < 20 - (j + 1) && placement_can_fail(
                                #[trigger] placement_stage_at(j + 1 + i),
                            ) implies rest[i] == CheckEvent::Passed by {
                            assert(placement_stage_at(j + (i + 1)) == placement_stage_at(j + 1 + i));
                            assert(rest[i] == events[i + 1]);
                        }
                    }
                    if all_rest && rest.len() >= 20 - (j + 1) && e == CheckEvent::Passed {
                        assert forall|i: int|
                            0 <= i < 20 - j && placement_can_fail(
                                #[trigger] placement_stage_at(j + i),
                            ) implies events[i] == CheckEvent::Passed by {
                            if i > 0 {
                                assert(placement_stage_at(j + 1 + (i - 1)) == placement_stage_at(
                                    j + i,
                                ));
                                assert(rest[i - 1] == events[i]);
                            }
                        }
                    }
                    if all_rest && rest.len() >= 20 - (j + 1) && !placement_can_fail(st) {
                        assert forall|i: int|
                            0 <= i < 20 - j && placement_can_fail(
                                #[trigger] placement_stage_at(j + i),
                            ) implies events[i] == CheckEvent::Passed by {
                            if i > 0 {
                                assert(placement_stage_at(j + 1 + (i - 1)) == placement_stage_at(
                                    j + i,
                                ));
                                assert(rest[i - 1] == events[i]);
                            }
                        }
                    }
                } else {
                    assert(j == 19);
                    if all {
                        assert(placement_can_fail(placement_stage_at(j + 0)));
                    }
                }
            },
            _ => {
                assert(t == seq![st] + Seq::<PlacementStage>::empty());
                let all = forall|i: int|
                    0 <= i < 20 - j && placement_can_fail(#[trigger] placement_stage_at(j + i))
                        ==> events[i] == CheckEvent::Passed;
                if all && j <= 19 {
                    assert(placement_can_fail(placement_stage_at(j + 0)));
                }
            },
        }
    }
}

/// Placing a house runs its stages in the one fixed order of
/// `placement_stage_at`: the checks, the house write, the inventory write,
/// and the rollback only after them.
pub proof fn lemma_placement_runs_in_order(events: Seq<CheckEvent>)
    ensures
        placement_trace(placement_stage_at(0), events).len() <= 21,
        forall|k: int|
            0 <= k < placement_trace(placement_stage_at(0), events).len() ==> #[trigger] placement_trace(
                placement_stage_at(0),
                events,
            )[k] == placement_stage_at(k),
{
    lemma_placement_walk(0, events);
}

/// A house is placed exactly when every stage that can refuse passed.
pub proof fn lemma_placement_done_iff_all_passed(events: Seq<CheckEvent>)
    ensures
        placement_run(placement_stage_at(0), events) == PlacementAction::Done <==> (events.len()
            >= 20 && forall|i: int|
            0 <= i < 20 && placement_can_fail(#[trigger] placement_stage_at(i)) ==> events[i]
                == CheckEvent::Passed),
{
    lemma_placement_walk(0, events);
    let walk_all = forall|i: int|
        0 <= i < 20 - 0 && placement_can_fail(#[trigger] placement_stage_at(0 + i)) ==> events[i]
            == CheckEvent::Passed;
    let all = forall|i: int|
        0 <= i < 20 && placement_can_fail(#[trigger] placement_stage_at(i)) ==> events[i]
            == CheckEvent::Passed;
    if walk_all {
        assert forall|i: int|
            0 <= i < 20 && placement_can_fail(#[trigger] placement_stage_at(i)) implies events[i]
            == CheckEvent::Passed by {
            assert(placement_stage_at(0 + i) == placement_stage_at(i));
        }
    }
    if all {
        assert forall|i: int|
            0 <= i < 20 - 0 && placement_can_fail(#[trigger] placement_stage_at(0 + i)) implies events[i]
            == CheckEvent::Passed by {
            assert(placement_stage_at(0 + i) == placement_stage_at(i));
        }
    }
}

/// The inventory without the scroll is only written once the house was
/// written and every check before passed.
pub proof fn lemma_scroll_consumed_only_after_house_written(events: Seq<CheckEvent>)
    requires
        placement_trace(placement_stage_at(0), events).len() > 19,
    ensures
        placement_trace(placement_stage_at(0), events)[18] == PlacementStage::WriteHouse,
        placement_trace(placement_stage_at(0), events)[19] == PlacementStage::PersistInventory,
        forall|i: int|
            0 <= i <= 18 && placement_can_fail(#[trigger] placement_stage_at(i)) ==> events[i]
                == CheckEvent::Passed,
{
    lemma_placement_walk(0, events);
    assert(placement_trace(placement_stage_at(0), events)[18] == placement_stage_at(0int + 18));
    assert(placement_trace(placement_stage_at(0), events)[19] == placement_stage_at(0int + 19));
    assert forall|i: int|
        0 <= i <= 18 && placement_can_fail(#[trigger] placement_stage_at(i)) implies events[i]
        == CheckEvent::Passed by {
        assert(placement_stage_at(0 + i) == placement_stage_at(i));
    }
}

/// A placement that fails after the inventory write was attempted has
/// deleted the written house first, and reports that nothing was saved.
pub proof fn lemma_failed_write_rolls_back(events: Seq<CheckEvent>)
    requires
        placement_run(placement_stage_at(0), events) is Fail,
        placement_trace(placement_stage_at(0), events).len() > 19,
    ensures
        placement_trace(placement_stage_at(0), events).len() == 21,
        placement_trace(placement_stage_at(0), events)[20] == PlacementStage::RollBack,
        placement_run(placement_stage_at(0), events) == PlacementAction::Fail(
            PlacementError::NotSaved,
        ),
{
    lemma_placement_walk(0, events);
    assert(placement_trace(placement_stage_at(0), events)[20] == placement_stage_at(0int + 20));
}

/// The text that reports a refused placement; a house that failed
/// validation is reported in the validation's own words instead.
pub open spec fn placement_error_text(e: PlacementError) -> Option<Seq<char>> {
    match e {
        PlacementError::InvalidPosition => Some("Choose a valid building position."@),
        PlacementError::Trading => Some("Finish your player trade first."@),
        PlacementError::CharacterNotFound => Some("Character not found."@),
        PlacementError::NotStanding => Some("Stand outdoors while alive to build a house."@),
        PlacementError::ScrollMissing => Some("That house scroll is no longer in your bag."@),
        PlacementError::NoToolbox => Some("Carry a Landscaper's Toolbox to place a house."@),
        PlacementError::NotAHouseScroll => Some("That item is not a house scroll."@),
        PlacementError::OutOfReach => Some("Choose a position within 30 metres."@),
        PlacementError::Unavailable => Some("House placement is temporarily unavailable."@),
        PlacementError::OutsideEstate => Some("The whole house must fit inside your estate."@),
        PlacementError::TerrainUnavailable => Some("Terrain is unavailable at that position."@),
        PlacementError::NeedsDryGround => Some("Houses need dry ground."@),
        PlacementError::TooUneven => Some("The ground is too uneven for this house."@),
        PlacementError::InvalidHouse => None,
        PlacementError::Overlap => Some("That position overlaps another house."@),
        PlacementError::InventoryNotFound => Some("Inventory not found."@),
        PlacementError::NotSaved => Some(
            "The house could not be saved. Your scroll was not consumed."@,
        ),
    }
}

impl PlacementError {
    /// The text that reports this refusal, or `None` for a house that failed
    /// validation, which is reported in the validation's own words.
    pub fn message(&self) -> (m: Option<String>)
        ensures
            m is None <==> placement_error_text(*self) is None,
            m matches Some(t) ==> placement_error_text(*self) == Some(t@),
    {
        let text = match self {
            PlacementError::InvalidPosition => "Choose a valid building position.",
            PlacementError::Trading => "Finish your player trade first.",
            PlacementError::CharacterNotFound => "Character not found.",
            PlacementError::NotStanding => "Stand outdoors while alive to build a house.",
            PlacementError::ScrollMissing => "That house scroll is no longer in your bag.",
            PlacementError::NoToolbox => "Carry a Landscaper's Toolbox to place a house.",
            PlacementError::NotAHouseScroll => "That item is not a house scroll.",
            PlacementError::OutOfReach => "Choose a position within 30 metres.",
            PlacementError::Unavailable => "House placement is temporarily unavailable.",
            PlacementError::OutsideEstate => "The whole house must fit inside your estate.",
            PlacementError::TerrainUnavailable => "Terrain is unavailable at that position.",
            PlacementError::NeedsDryGround => "Houses need dry ground.",
            PlacementError::TooUneven => "The ground is too uneven for this house.",
            PlacementError::InvalidHouse => {
                return None;
            },
            PlacementError::Overlap => "That position overlaps another house.",
            PlacementError::InventoryNotFound => "Inventory not found.",
            PlacementError::NotSaved => "The house could not be saved. Your scroll was not consumed.",
        };
        Some(String::from_str(text))
    }
}

/// The stages of demolishing a house, in the order they run.
#[derive(Clone, Copy, Debug, PartialEq, Eq, Structural)]
pub enum DemolitionStage {
    /// Is the player out of any trade?
    CheckTrade,
    /// Settle land taxes and take the persistence lock; this cannot fail.
    TickLandTaxes,
    /// Does the player have a character record?
    FindCharacter,
    /// Does the player carry a landscaper's toolbox?
    CheckToolbox,
    /// Is the player in the world, alive and outdoors (`Unfit` if not)?
    CheckStanding,
    /// Load the house (`Missing` when it does not exist).
    FindHouse,
    /// Does the house belong to the player's character?
    CheckOwner,
    /// Is the house within reach of the player?
    CheckReach,
    /// Delete the house (`Missing` when it was already gone).
    DeleteHouse,
}

/// Why a house was not demolished.
#[derive(Clone, Copy, Debug, PartialEq, Eq, Structural)]
pub enum DemolitionError {
    Trading,
    CharacterNotFound,
    NoToolbox,
    NotStanding,
    Unavailable,
    HouseGone,
    NotOwner,
    OutOfReach,
    NotDemolished,
}

/// What to do after a stage of demolishing a house.
#[derive(Clone, Copy, Debug, PartialEq, Eq, Structural)]
pub enum DemolitionAction {
    /// Run this stage next.
    Run(DemolitionStage),
    /// Stop: the house stays, for this reason.
    Fail(DemolitionError),
    /// The house is deleted.
    Done,
}

/// The stage at position `i` of a demolition.
pub open spec fn demolition_stage_at(i: int) -> DemolitionStage {
    if i <= 0 {
        DemolitionStage::CheckTrade
    } else if i == 1 {
        DemolitionStage::TickLandTaxes
    } else if i == 2 {
        DemolitionStage::FindCharacter
    } else if i == 3 {
        DemolitionStage::CheckToolbox
    } else if i == 4 {
        DemolitionStage::CheckStanding
    } else if i == 5 {
        DemolitionStage::FindHouse
    } else if i == 6 {
        DemolitionStage::CheckOwner
    } else if i == 7 {
        DemolitionStage::CheckReach
    } else {
        DemolitionStage::DeleteHouse
    }
}

/// The position of a stage in `demolition_stage_at`.
pub open spec fn demolition_index(s: DemolitionStage) -> int {
    match s {
        DemolitionStage::CheckTrade => 0,
        DemolitionStage::TickLandTaxes => 1,
        DemolitionStage::FindCharacter => 2,
        DemolitionStage::CheckToolbox => 3,
        DemolitionStage::CheckStanding => 4,
        DemolitionStage::FindHouse => 5,
        DemolitionStage::CheckOwner => 6,
        DemolitionStage::CheckReach => 7,
        DemolitionStage::DeleteHouse => 8,
    }
}

/// Why a demolition stops when `stage` did not pass with `event`.
pub open spec fn demolition_refusal(stage: DemolitionStage, event: CheckEvent) -> DemolitionError {
    match stage {
        DemolitionStage::CheckTrade => DemolitionError::Trading,
        DemolitionStage::CheckToolbox => DemolitionError::NoToolbox,
        DemolitionStage::CheckStanding => if event == CheckEvent::Unfit {
            DemolitionError::NotStanding
        } else {
            DemolitionError::CharacterNotFound
        },
        DemolitionStage::FindHouse => if event == CheckEvent::Missing {
            DemolitionError::HouseGone
        } else {
            DemolitionError::Unavailable
        },
        DemolitionStage::CheckOwner => DemolitionError::NotOwner,
        DemolitionStage::CheckReach => DemolitionError::OutOfReach,
        DemolitionStage::DeleteHouse => if event == CheckEvent::Missing {
            DemolitionError::HouseGone
        } else {
            DemolitionError::NotDemolished
        },
        _ => DemolitionError::CharacterNotFound,
    }
}

/// Whether a stage can stop a demolition.
pub open spec fn demolition_can_fail(stage: DemolitionStage) -> bool {
    stage != DemolitionStage::TickLandTaxes
}

/// What follows `stage` when its work went as `event`: the next stage when
/// it passed (settling taxes always passes), completion once the house is
/// deleted, and otherwise a refusal with the stage's reason.
pub open spec fn demolition_next(stage: DemolitionStage, event: CheckEvent) -> DemolitionAction {
    if stage == DemolitionStage::TickLandTaxes {
        DemolitionAction::Run(DemolitionStage::FindCharacter)
    } else if event != CheckEvent::Passed {
        DemolitionAction::Fail(demolition_refusal(stage, event))
    } else if stage == DemolitionStage::DeleteHouse {
        DemolitionAction::Done
    } else {
        DemolitionAction::Run(demolition_stage_at(demolition_index(stage) + 1))
    }
}

/// Where a demolition that starts at `stage` stands after the `events`.
pub open spec fn demolition_run(stage: DemolitionStage, events: Seq<CheckEvent>) -> DemolitionAction
    decreases events.len(),
{
    if events.len() == 0 {
        DemolitionAction::Run(stage)
    } else {
        match demolition_next(stage, events[0]) {
            DemolitionAction::Run(s) => demolition_run(s, events.drop_first()),
            other => other,
        }
    }
}

/// The stages that a demolition starting at `stage` runs with the `events`.
pub open spec fn demolition_trace(stage: DemolitionStage, events: Seq<CheckEvent>) -> Seq<
    DemolitionStage,
>
    decreases events.len(),
{
    if events.len() == 0 {
        Seq::empty()
    } else {
        seq![stage] + match demolition_next(stage, events[0]) {
            DemolitionAction::Run(s) => demolition_trace(s, events.drop_first()),
            _ => Seq::empty(),
        }
    }
}

/// The first stage of demolishing a house.
pub fn demolition_first_stage() -> (s: DemolitionStage)
    ensures
        s == demolition_stage_at(0),
{
    DemolitionStage::CheckTrade
}

/// What follows `stage` of demolishing a house when its work went as `event`.
pub fn next_demolition_action(stage: DemolitionStage, event: CheckEvent) -> (a: DemolitionAction)
    ensures
        a == demolition_next(stage, event),
{
    let passed = match event {
        CheckEvent::Passed => true,
        _ => false,
    };
    let missing = match event {
        CheckEvent::Missing => true,
        _ => false,
    };
    let unfit = match event {
        CheckEvent::Unfit => true,
        _ => false,
    };
    match stage {
        DemolitionStage::TickLandTaxes => DemolitionAction::Run(DemolitionStage::FindCharacter),
        DemolitionStage::CheckTrade => if passed {
            DemolitionAction::Run(DemolitionStage::TickLandTaxes)
        } else {
            DemolitionAction::Fail(DemolitionError::Trading)
        },
        DemolitionStage::FindCharacter => if passed {
            DemolitionAction::Run(DemolitionStage::CheckToolbox)
        } else {
            DemolitionAction::Fail(DemolitionError::CharacterNotFound)
        },
        DemolitionStage::CheckToolbox => if passed {
            DemolitionAction::Run(DemolitionStage::CheckStanding)
        } else {
            DemolitionAction::Fail(DemolitionError::NoToolbox)
        },
        DemolitionStage::CheckStanding => if passed {
            DemolitionAction::Run(DemolitionStage::FindHouse)
        } else if unfit {
            DemolitionAction::Fail(DemolitionError::NotStanding)
        } else {
            DemolitionAction::Fail(DemolitionError::CharacterNotFound)
        },
        DemolitionStage::FindHouse => if passed {
            DemolitionAction::Run(DemolitionStage::CheckOwner)
        } else if missing {
            DemolitionAction::Fail(DemolitionError::HouseGone)
        } else {
            DemolitionAction::Fail(DemolitionError::Unavailable)
        },
        DemolitionStage::CheckOwner => if passed {
            DemolitionAction::Run(DemolitionStage::CheckReach)
        } else {
            DemolitionAction::Fail(DemolitionError::NotOwner)
        },
        DemolitionStage::CheckReach => if passed {
            DemolitionAction::Run(DemolitionStage::DeleteHouse)
        } else {
            DemolitionAction::Fail(DemolitionError::OutOfReach)
        },
        DemolitionStage::DeleteHouse => if passed {
            DemolitionAction::Done
        } else if missing {
            DemolitionAction::Fail(DemolitionError::HouseGone)
        } else {
            DemolitionAction::Fail(DemolitionError::NotDemolished)
        },
    }
}

/// The text that reports a refused demolition.
pub open spec fn demolition_error_text(e: DemolitionError) -> Seq<char> {
    match e {
        DemolitionError::Trading => "Finish your player trade first."@,
        DemolitionError::CharacterNotFound => "Character not found."@,
        DemolitionError::NoToolbox => "Carry a Landscaper's Toolbox to demolish a house."@,
        DemolitionError::NotStanding => "Stand outdoors while alive to demolish a house."@,
        DemolitionError::Unavailable => "House demolition is temporarily unavailable."@,
        DemolitionError::HouseGone => "That house no longer exists."@,
        DemolitionError::NotOwner => "You can only demolish your own house."@,
        DemolitionError::OutOfReach => "Move within 30 metres of the house."@,
        DemolitionError::NotDemolished => "The house could not be demolished."@,
    }
}

impl DemolitionError {
    /// The text that reports this refusal.
    pub fn message(&self) -> (m: String)
        ensures
            m@ == demolition_error_text(*self),
    {
        let text = match self {
            DemolitionError::Trading => "Finish your player trade first.",
            DemolitionError::CharacterNotFound => "Character not found.",
            DemolitionError::NoToolbox => "Carry a Landscaper's Toolbox to demolish a house.",
            DemolitionError::NotStanding => "Stand outdoors while alive to demolish a house.",
            DemolitionError::Unavailable => "House demolition is temporarily unavailable.",
            DemolitionError::HouseGone => "That house no longer exists.",
            DemolitionError::NotOwner => "You can only demolish your own house.",
            DemolitionError::OutOfReach => "Move within 30 metres of the house.",
            DemolitionError::NotDemolished => "The house could not be demolished.",
        };
        String::from_str(text)
    }
}

/// A demolition stage passes on to the stage after it.
proof fn lemma_demolition_step(j: int, e: CheckEvent)
    requires
        0 <= j <= 8,
    ensures
        demolition_index(demolition_stage_at(j)) == j,
        demolition_next(demolition_stage_at(j), e) matches DemolitionAction::Run(s) ==> s
            == demolition_stage_at(j + 1) && j <= 7,
        j <= 7 && (e == CheckEvent::Passed || !demolition_can_fail(demolition_stage_at(j)))
            ==> demolition_next(demolition_stage_at(j), e) == DemolitionAction::Run(
            demolition_stage_at(j + 1),
        ),
        j == 8 ==> (demolition_next(demolition_stage_at(j), e) == DemolitionAction::Done <==> e
            == CheckEvent::Passed),
{
}

/// The walk of a demolition from the stage at position `j`.
proof fn lemma_demolition_walk(j: int, events: Seq<CheckEvent>)
    requires
        0 <= j <= 8,
    ensures
        j + demolition_trace(demolition_stage_at(j), events).len() <= 9,
        forall|k: int|
            0 <= k < demolition_trace(demolition_stage_at(j), events).len() ==> #[trigger] demolition_trace(
                demolition_stage_at(j),
                events,
            )[k] == demolition_stage_at(j + k),
        demolition_run(demolition_stage_at(j), events) == DemolitionAction::Done <==> (
        events.len() >= 9 - j && forall|i: int|
            0 <= i < 9 - j && demolition_can_fail(#[trigger] demolition_stage_at(j + i))
                ==> events[i] == CheckEvent::Passed),
    decreases events.len(),
{
    let st = demolition_stage_at(j);
    if events.len() > 0 {
        let e = events[0];
        let rest = events.drop_first();
        lemma_demolition_step(j, e);
        let t = demolition_trace(st, events);
        let all = forall|i: int|
            0 <= i < 9 - j && demolition_can_fail(#[trigger] demolition_stage_at(j + i))
                ==> events[i] == CheckEvent::Passed;
        match demolition_next(st, e) {
            DemolitionAction::Run(s) => {
                lemma_demolition_walk(j + 1, rest);
                let tr = demolition_trace(s, rest);
                assert(t == seq![st] + tr);
                assert forall|k: int| 0 <= k < t.len() implies #[trigger] t[k]
                    == demolition_stage_at(j + k) by {
                    if k > 0 {
                        assert(t[k] == tr[k - 1]);
                    }
                }
                let all_rest = forall|i: int|
                    0 <= i < 9 - (j + 1) && demolition_can_fail(
                        #[trigger] demolition_stage_at(j + 1 + i),
                    ) ==> rest[i] == CheckEvent::Passed;
                if all && events.len() >= 9 - j {
                    assert forall|i: int|
                        0 <= i < 9 - (j + 1) && demolition_can_fail(
                            #[trigger] demolition_stage_at(j + 1 + i),
                        ) implies rest[i] == CheckEvent::Passed by {
                        assert(demolition_stage_at(j + (i + 1)) == demolition_stage_at(j + 1 + i));
                        assert(rest[i] == events[i + 1]);
                    }
                }
                if all_rest && rest.len() >= 9 - (j + 1) && (e == CheckEvent::Passed
                    || !demolition_can_fail(st)) {
                    assert forall|i: int|
                        0 <= i < 9 - j && demolition_can_fail(
                            #[trigger] demolition_stage_at(j + i),
                        ) implies events[i] == CheckEvent::Passed by {
                        if i > 0 {
                            assert(demolition_stage_at(j + 1 + (i - 1)) == demolition_stage_at(
                                j + i,
                            ));
                            assert(rest[i - 1] == events[i]);
                        }
                    }
                }
            },
            _ => {
                assert(t == seq![st] + Seq::<DemolitionStage>::empty());
                if all && events.len() >= 9 - j {
                    assert(demolition_can_fail(demolition_stage_at(j + 0)));
                }
            },
        }
    }
}

/// Demolishing a house runs its stages in the one fixed order of
/// `demolition_stage_at`; in particular the house is only deleted after its
/// owner and the player's reach were checked.
pub proof fn lemma_demolition_runs_in_order(events: Seq<CheckEvent>)
    ensures
        demolition_trace(demolition_stage_at(0), events).len() <= 9,
        forall|k: int|
            0 <= k < demolition_trace(demolition_stage_at(0), events).len() ==> #[trigger] demolition_trace(
                demolition_stage_at(0),
                events,
            )[k] == demolition_stage_at(k),
{
    lemma_demolition_walk(0, events);
}

/// A house is demolished exactly when every stage that can refuse passed.
pub proof fn lemma_demolition_done_iff_all_passed(events: Seq<CheckEvent>)
    ensures
        demolition_run(demolition_stage_at(0), events) == DemolitionAction::Done <==> (
        events.len() >= 9 && forall|i: int|
            0 <= i < 9 && demolition_can_fail(#[trigger] demolition_stage_at(i)) ==> events[i]
                == CheckEvent::Passed),
{
    lemma_demolition_walk(0, events);
    let walk_all = forall|i: int|
        0 <= i < 9 - 0 && demolition_can_fail(#[trigger] demolition_stage_at(0 + i)) ==> events[i]
            == CheckEvent::Passed;
    let all = forall|i: int|
        0 <= i < 9 && demolition_can_fail(#[trigger] demolition_stage_at(i)) ==> events[i]
            == CheckEvent::Passed;
    if walk_all {
        assert forall|i: int|
            0 <= i < 9 && demolition_can_fail(#[trigger] demolition_stage_at(i)) implies events[i]
            == CheckEvent::Passed by {
            assert(demolition_stage_at(0 + i) == demolition_stage_at(i));
        }
    }
    if all {
        assert forall|i: int|
            0 <= i < 9 - 0 && demolition_can_fail(#[trigger] demolition_stage_at(0 + i)) implies events[i]
            == CheckEvent::Passed by {
            assert(demolition_stage_at(0 + i) == demolition_stage_at(i));
        }
    }
}

} // verus!
