//! The ordering and suppression laws of the orchestrator, proved over the
//! planned scripts: evacuation before motion, pump gating, silence on
//! foreign channels, the external-source fast path, abort-before-write for
//! unknown slots, the oversize warning, and exact cleaning suppression.

use vstd::prelude::*;

use crate::numbers::spec_parse_u64;
use crate::orchestrator::aspirate_command;
use crate::orchestrator::lemma_occupancy_after_concat;
use crate::orchestrator::lemma_occupancy_unchanged;
use crate::orchestrator::spec_occupancy_after;
use crate::orchestrator::cleaning_steps;
use crate::orchestrator::evacuate_command;
use crate::orchestrator::external_aspirate_command;
use crate::orchestrator::external_channel;
use crate::orchestrator::spec_batch_plan;
use crate::orchestrator::spec_la_plan;
use crate::orchestrator::spec_message_plan;
use crate::orchestrator::spec_token_plan;
use crate::config::spec_lookup;
use crate::step::PlanError;
use crate::step::StepModel;
use crate::text::spec_split;
use crate::trace::lemma_no_command_steps_no_writes;
use crate::trace::lemma_pump_writes_gated;
use crate::trace::pump_awaited;
use crate::trace::pump_port_events;
use crate::trace::pump_writes_gated;
use crate::trace::script_events;

verus! {

/// While the slot still holds carry-over liquid, a liquid application's
/// script issues the pump-2 evacuation program before any router motion.
pub proof fn lemma_evacuation_before_router_moves(
    cleaning: bool,
    coords: Seq<(Seq<char>, Seq<char>)>,
    occupancy: u64,
    slot_text: Seq<char>,
    vol_text: Seq<char>,
)
    requires
        occupancy > 0,
    ensures
        ({
            let steps = spec_la_plan(cleaning, coords, occupancy, slot_text, vol_text).0;
            forall|i: int|
                0 <= i < steps.len() && (#[trigger] steps[i]) is RouterCommand ==> exists|k: int|
                    0 <= k < i && steps[k] == (StepModel::PumpCommand {
                        text: evacuate_command(),
                    })
        }),
{
    let steps = spec_la_plan(cleaning, coords, occupancy, slot_text, vol_text).0;
    if spec_parse_u64(slot_text) is Some && spec_parse_u64(vol_text) is Some && spec_parse_u64(
        vol_text,
    )->0 <= u64::MAX / 24 {
        let vol = spec_parse_u64(vol_text)->0;
        let units = (vol * 24) as u64;
        let w: int = if units > 12000 {
            1
        } else {
            0
        };
        let warn: Seq<StepModel> = if units > 12000 {
            seq![StepModel::WarnPumpUnits]
        } else {
            Seq::empty()
        };
        let evacuate: Seq<StepModel> = seq![
            StepModel::PumpCommand { text: evacuate_command() },
            StepModel::SetOccupancy { microliters: 0u64 },
        ];
        let pre = warn + seq![StepModel::FlushRouter, StepModel::FlushPump] + evacuate;
        assert(pre.len() == w + 4);
        assert(pre[w + 2] == (StepModel::PumpCommand { text: evacuate_command() }));
        assert(forall|k: int| 0 <= k < pre.len() ==> steps[k] == pre[k]);
        assert forall|i: int|
            0 <= i < steps.len() && (#[trigger] steps[i]) is RouterCommand implies exists|k: int|
            0 <= k < i && steps[k] == (StepModel::PumpCommand { text: evacuate_command() }) by {
            if i < pre.len() {
                assert(steps[i] == pre[i]);
                assert(!(pre[i] is RouterCommand));
            } else {
                assert(steps[w + 2] == pre[w + 2]);
            }
        }
    } else {
        assert(steps.len() == 0);
    }
}

/// Every planned token script opens with an availability wait, so some wait
/// stands before each of its pump commands.
pub proof fn lemma_token_plan_awaited(
    cleaning: bool,
    coords: Seq<(Seq<char>, Seq<char>)>,
    occupancy: u64,
    token: Seq<char>,
)
    ensures
        pump_awaited(spec_token_plan(cleaning, coords, occupancy, token).0),
{
    let steps = spec_token_plan(cleaning, coords, occupancy, token).0;
    assert(steps.len() >= 1);
    assert(steps[0] is AwaitPump);
    assert forall|j: int|
        0 <= j < steps.len() && (#[trigger] steps[j]) is PumpCommand implies exists|k: int|
        0 <= k < j && steps[k] is AwaitPump by {
        assert(steps[0] is AwaitPump);
        assert(j != 0);
    }
}

/// Every planned batch script keeps the wait-before-pump-command shape.
pub proof fn lemma_batch_plan_awaited(
    cleaning: bool,
    coords: Seq<(Seq<char>, Seq<char>)>,
    occupancy: u64,
    tokens: Seq<Seq<char>>,
    base: int,
)
    ensures
        pump_awaited(spec_batch_plan(cleaning, coords, occupancy, tokens, base).0),
    decreases tokens.len(),
{
    let steps = spec_batch_plan(cleaning, coords, occupancy, tokens, base).0;
    if tokens.len() == 0 {
        assert(steps.len() == 0);
    } else {
        let t = spec_token_plan(cleaning, coords, occupancy, tokens[0]);
        lemma_token_plan_awaited(cleaning, coords, occupancy, tokens[0]);
        match t.1 {
            Err(e) => {
                assert(steps == t.0);
            },
            Ok(next_occupancy) => {
                let rest = spec_batch_plan(
                    cleaning,
                    coords,
                    next_occupancy,
                    tokens.drop_first(),
                    base + 1,
                );
                lemma_batch_plan_awaited(
                    cleaning,
                    coords,
                    next_occupancy,
                    tokens.drop_first(),
                    base + 1,
                );
                assert(steps == t.0 + rest.0);
                assert forall|j: int|
                    0 <= j < steps.len() && (#[trigger] steps[j]) is PumpCommand implies exists|
                    k: int,
                |
                    0 <= k < j && steps[k] is AwaitPump by {
                    if j < t.0.len() {
                        assert(steps[j] == t.0[j]);
                        let k0 = choose|k: int| 0 <= k < j && t.0[k] is AwaitPump;
                        assert(steps[k0] == t.0[k0]);
                    } else {
                        assert(steps[j] == rest.0[j - t.0.len()]);
                        let k0 = choose|k: int|
                            0 <= k < j - t.0.len() && rest.0[k] is AwaitPump;
                        assert(steps[k0 + t.0.len()] == rest.0[k0]);
                    }
                }
            },
        }
    }
}

/// No pump command is written while the pump has not most recently been
/// polled to idle: in every planned message script, the pump port sees a
/// command write only immediately after an availability poll reported the
/// pump idle.
pub proof fn lemma_message_plan_pump_gated(
    cleaning: bool,
    coords: Seq<(Seq<char>, Seq<char>)>,
    occupancy: u64,
    channel: i8,
    data: Seq<char>,
)
    ensures
        pump_writes_gated(
            pump_port_events(
                script_events(spec_message_plan(cleaning, coords, occupancy, channel, data).0),
            ),
        ),
{
    let steps = spec_message_plan(cleaning, coords, occupancy, channel, data).0;
    if channel != 4 {
        assert(steps.len() == 0);
        assert(script_events(steps) =~= Seq::<crate::trace::DeviceEvent>::empty());
        assert(pump_port_events(script_events(steps))
            =~= Seq::<crate::trace::DeviceEvent>::empty());
    } else {
        lemma_batch_plan_awaited(cleaning, coords, occupancy, spec_split(data, ' '), 0);
        lemma_pump_writes_gated(steps);
    }
}

/// A message on any channel other than 4 plans no steps at all: neither
/// device port sees a single action for it.
pub proof fn lemma_wrong_channel_silent(
    cleaning: bool,
    coords: Seq<(Seq<char>, Seq<char>)>,
    occupancy: u64,
    channel: i8,
    data: Seq<char>,
)
    requires
        channel != 4,
    ensures
        spec_message_plan(cleaning, coords, occupancy, channel, data).0 =~= Seq::<
            StepModel,
        >::empty(),
        script_events(spec_message_plan(cleaning, coords, occupancy, channel, data).0) =~= Seq::<
            crate::trace::DeviceEvent,
        >::empty(),
        spec_message_plan(cleaning, coords, occupancy, channel, data).1 == Ok::<
            u64,
            crate::step::BatchError,
        >(occupancy),
{
    let steps = spec_message_plan(cleaning, coords, occupancy, channel, data).0;
    assert(steps =~= Seq::<StepModel>::empty());
}

/// A well-formed wait token plans exactly one availability wait and one
/// sleep of the requested duration, and changes nothing else.
pub proof fn lemma_wait_plan(
    cleaning: bool,
    coords: Seq<(Seq<char>, Seq<char>)>,
    occupancy: u64,
    token: Seq<char>,
    duration_text: Seq<char>,
    ms: u64,
)
    requires
        spec_split(token, '_') == seq!["W"@, duration_text],
        spec_parse_u64(duration_text) == Some(ms),
    ensures
        spec_token_plan(cleaning, coords, occupancy, token).0 =~= seq![
            StepModel::AwaitPump,
            StepModel::WaitMs { milliseconds: ms },
        ],
        spec_token_plan(cleaning, coords, occupancy, token).1 == Ok::<u64, PlanError>(occupancy),
{
    reveal_strlit("W");
    reveal_strlit("LA");
    let fields = spec_split(token, '_');
    assert(fields[0] == "W"@);
    assert("W"@.len() == 1 && "LA"@.len() == 2);
    assert(fields[0] != "LA"@);
    assert(fields.len() == 2);
    assert(fields[1] == duration_text);
}

/// A volume whose plunger position exceeds the pump's 12000-unit stroke is
/// warned about and still runs: a successful plan opens with the warning
/// and still carries the aspirate program with that very position.
pub proof fn lemma_oversized_volume_warns_and_runs(
    cleaning: bool,
    coords: Seq<(Seq<char>, Seq<char>)>,
    occupancy: u64,
    slot_text: Seq<char>,
    vol_text: Seq<char>,
)
    requires
        spec_la_plan(cleaning, coords, occupancy, slot_text, vol_text).1 is Ok,
        spec_parse_u64(vol_text) is Some,
        spec_parse_u64(vol_text)->0 * 24 > 12000,
    ensures
        ({
            let steps = spec_la_plan(cleaning, coords, occupancy, slot_text, vol_text).0;
            let slot = spec_parse_u64(slot_text)->0;
            let units = (spec_parse_u64(vol_text)->0 * 24) as u64;
            &&& steps.len() > 0
            &&& steps[0] == StepModel::WarnPumpUnits
            &&& exists|i: int|
                0 <= i < steps.len() && #[trigger] steps[i] == (StepModel::PumpCommand {
                    text: if slot > 33 {
                        external_aspirate_command(external_channel(slot)->0, units)
                    } else {
                        aspirate_command(units)
                    },
                })
        }),
{
    let steps = spec_la_plan(cleaning, coords, occupancy, slot_text, vol_text).0;
    let outcome = spec_la_plan(cleaning, coords, occupancy, slot_text, vol_text).1;
    assert(spec_parse_u64(slot_text) is Some);
    let slot = spec_parse_u64(slot_text)->0;
    let vol = spec_parse_u64(vol_text)->0;
    assert(vol <= u64::MAX / 24);
    let units = (vol * 24) as u64;
    assert(units > 12000);
    let warn: Seq<StepModel> = seq![StepModel::WarnPumpUnits];
    let evacuate: Seq<StepModel> = if occupancy > 0 {
        seq![
            StepModel::PumpCommand { text: evacuate_command() },
            StepModel::SetOccupancy { microliters: 0u64 },
        ]
    } else {
        Seq::empty()
    };
    let pre = warn + seq![StepModel::FlushRouter, StepModel::FlushPump] + evacuate;
    assert(steps[0] == pre[0]);
    if slot > 33 {
        assert(external_channel(slot) is Some);
        let channel = external_channel(slot)->0;
        assert(steps[pre.len() as int] == (StepModel::PumpCommand {
            text: external_aspirate_command(channel, units),
        }));
    } else {
        assert(spec_lookup(coords, slot_text) is Some);
        assert(steps[pre.len() as int + 1] == (StepModel::PumpCommand {
            text: aspirate_command(units),
        }));
    }
}

/// An external-source application (slot 34, 35 or 36) plans no router
/// motion at all: the liquid is drawn through a fixed pump channel and the
/// gantry never moves.
pub proof fn lemma_external_source_no_router_motion(
    cleaning: bool,
    coords: Seq<(Seq<char>, Seq<char>)>,
    occupancy: u64,
    slot_text: Seq<char>,
    vol_text: Seq<char>,
)
    requires
        spec_parse_u64(slot_text) is Some,
        external_channel(spec_parse_u64(slot_text)->0) is Some,
    ensures
        ({
            let steps = spec_la_plan(cleaning, coords, occupancy, slot_text, vol_text).0;
            forall|i: int| 0 <= i < steps.len() ==> !((#[trigger] steps[i]) is RouterCommand)
        }),
{
    let steps = spec_la_plan(cleaning, coords, occupancy, slot_text, vol_text).0;
    let slot = spec_parse_u64(slot_text)->0;
    assert(slot == 34 || slot == 35 || slot == 36);
    if spec_parse_u64(vol_text) is Some && spec_parse_u64(vol_text)->0 <= u64::MAX / 24 {
        let vol = spec_parse_u64(vol_text)->0;
        let units = (vol * 24) as u64;
        let warn: Seq<StepModel> = if units > 12000 {
            seq![StepModel::WarnPumpUnits]
        } else {
            Seq::empty()
        };
        let evacuate: Seq<StepModel> = if occupancy > 0 {
            seq![
                StepModel::PumpCommand { text: evacuate_command() },
                StepModel::SetOccupancy { microliters: 0u64 },
            ]
        } else {
            Seq::empty()
        };
        let pre = warn + seq![StepModel::FlushRouter, StepModel::FlushPump] + evacuate;
        let channel = external_channel(slot)->0;
        assert(steps == pre + seq![
            StepModel::PumpCommand { text: external_aspirate_command(channel, units) },
            StepModel::PumpCommand { text: crate::orchestrator::water_command() },
        ]);
        assert forall|i: int|
            0 <= i < steps.len() implies !((#[trigger] steps[i]) is RouterCommand) by {
            if i < pre.len() {
                assert(steps[i] == pre[i]);
            }
        }
    } else {
        assert(steps.len() == 0);
    }
}

/// With nothing carried over in the slot, a liquid application for an
/// unknown slot at or below 33 aborts before any device write: the script
/// never writes a command to either port. (With carry-over in the slot, the
/// evacuation program rightly runs first.)
pub proof fn lemma_unknown_slot_aborts_before_writes(
    cleaning: bool,
    coords: Seq<(Seq<char>, Seq<char>)>,
    occupancy: u64,
    slot_text: Seq<char>,
    vol_text: Seq<char>,
)
    requires
        occupancy == 0,
        spec_parse_u64(slot_text) is Some ==> spec_parse_u64(slot_text)->0 <= 33 && spec_lookup(
            coords,
            slot_text,
        ) is None,
    ensures
        spec_la_plan(cleaning, coords, occupancy, slot_text, vol_text).1 is Err,
        ({
            let events = script_events(
                spec_la_plan(cleaning, coords, occupancy, slot_text, vol_text).0,
            );
            forall|i: int|
                0 <= i < events.len() ==> !((#[trigger] events[i]) is RouterWrite) && !(
                events[i] is PumpWrite)
        }),
{
    let steps = spec_la_plan(cleaning, coords, occupancy, slot_text, vol_text).0;
    if spec_parse_u64(slot_text) is Some && spec_parse_u64(vol_text) is Some && spec_parse_u64(
        vol_text,
    )->0 <= u64::MAX / 24 {
        let vol = spec_parse_u64(vol_text)->0;
        let units = (vol * 24) as u64;
        let warn: Seq<StepModel> = if units > 12000 {
            seq![StepModel::WarnPumpUnits]
        } else {
            Seq::empty()
        };
        let pre = warn + seq![StepModel::FlushRouter, StepModel::FlushPump]
            + Seq::<StepModel>::empty();
        assert(steps == pre);
        assert forall|j: int|
            0 <= j < steps.len() implies !((#[trigger] steps[j]) is RouterCommand) && !(
        steps[j] is PumpCommand) by {
            assert(steps[j] == pre[j]);
        }
        lemma_no_command_steps_no_writes(steps);
    } else {
        assert(steps.len() == 0);
        assert forall|j: int|
            0 <= j < steps.len() implies !((#[trigger] steps[j]) is RouterCommand) && !(
        steps[j] is PumpCommand) by {}
        lemma_no_command_steps_no_writes(steps);
    }
}

/// Disabling constant cleaning suppresses exactly the three cleaning steps
/// and nothing else: for every token, the outcome is the same either way,
/// and the planned steps are either identical or — for a successful
/// normal-path liquid application — differ by exactly the trailing cleaning
/// sequence.
pub proof fn lemma_cleaning_suppression(
    coords: Seq<(Seq<char>, Seq<char>)>,
    occupancy: u64,
    token: Seq<char>,
)
    ensures
        spec_token_plan(true, coords, occupancy, token).1 == spec_token_plan(
            false,
            coords,
            occupancy,
            token,
        ).1,
        spec_token_plan(true, coords, occupancy, token).0 == spec_token_plan(
            false,
            coords,
            occupancy,
            token,
        ).0 || spec_token_plan(true, coords, occupancy, token).0 == spec_token_plan(
            false,
            coords,
            occupancy,
            token,
        ).0 + cleaning_steps(),
{
    let with = spec_token_plan(true, coords, occupancy, token);
    let without = spec_token_plan(false, coords, occupancy, token);
    let fields = spec_split(token, '_');
    let awaiting: Seq<StepModel> = seq![StepModel::AwaitPump];
    if fields[0] == "LA"@ && fields.len() >= 4 {
        let la_with = spec_la_plan(true, coords, occupancy, fields[1], fields[3]);
        let la_without = spec_la_plan(false, coords, occupancy, fields[1], fields[3]);
        if spec_parse_u64(fields[1]) is Some && spec_parse_u64(fields[3]) is Some
            && spec_parse_u64(fields[3])->0 <= u64::MAX / 24 {
            let slot = spec_parse_u64(fields[1])->0;
            if slot <= 33 && spec_lookup(coords, fields[1]) is Some && spec_split(
                spec_lookup(coords, fields[1])->0,
                ':',
            ).len() == 3 {
                assert(la_with.0 =~= la_without.0 + cleaning_steps());
                assert(with.0 =~= (awaiting + la_without.0) + cleaning_steps());
                assert(without.0 == awaiting + la_without.0);
            } else {
                assert(la_with.0 == la_without.0);
                assert(la_with.1 == la_without.1);
            }
        } else {
            assert(la_with.0 == la_without.0);
        }
    }
}

/// A successful liquid-application plan's outcome is exactly what the
/// occupancy records of its steps replay to.
pub proof fn lemma_la_outcome_matches_occupancy(
    cleaning: bool,
    coords: Seq<(Seq<char>, Seq<char>)>,
    occupancy: u64,
    slot_text: Seq<char>,
    vol_text: Seq<char>,
)
    requires
        spec_la_plan(cleaning, coords, occupancy, slot_text, vol_text).1 is Ok,
    ensures
        spec_la_plan(cleaning, coords, occupancy, slot_text, vol_text).1 == Ok::<u64, PlanError>(
            spec_occupancy_after(
                occupancy,
                spec_la_plan(cleaning, coords, occupancy, slot_text, vol_text).0,
            ),
        ),
{
    let r = spec_la_plan(cleaning, coords, occupancy, slot_text, vol_text);
    let steps = r.0;
    let slot = spec_parse_u64(slot_text)->0;
    let vol = spec_parse_u64(vol_text)->0;
    let units = (vol * 24) as u64;
    let warn: Seq<StepModel> = if units > 12000 {
        seq![StepModel::WarnPumpUnits]
    } else {
        Seq::empty()
    };
    let evacuate: Seq<StepModel> = if occupancy > 0 {
        seq![
            StepModel::PumpCommand { text: evacuate_command() },
            StepModel::SetOccupancy { microliters: 0u64 },
        ]
    } else {
        Seq::empty()
    };
    let pre = warn + seq![StepModel::FlushRouter, StepModel::FlushPump] + evacuate;
    let after_pre: u64 = if occupancy > 0 {
        0u64
    } else {
        occupancy
    };
    if occupancy > 0 {
        assert(pre.last() == (StepModel::SetOccupancy { microliters: 0u64 }));
        assert(spec_occupancy_after(occupancy, pre) == 0);
    } else {
        assert forall|j: int| 0 <= j < pre.len() implies !((#[trigger] pre[j]) is SetOccupancy) by {}
        lemma_occupancy_unchanged(occupancy, pre);
    }
    if slot > 33 {
        let channel = external_channel(slot)->0;
        let tail = seq![
            StepModel::PumpCommand { text: external_aspirate_command(channel, units) },
            StepModel::PumpCommand { text: crate::orchestrator::water_command() },
        ];
        assert(steps == pre + tail);
        lemma_occupancy_after_concat(occupancy, pre, tail);
        assert forall|j: int| 0 <= j < tail.len() implies !((#[trigger] tail[j]) is SetOccupancy)
            by {}
        lemma_occupancy_unchanged(after_pre, tail);
        assert(spec_occupancy_after(occupancy, steps) == after_pre);
        assert(after_pre == 0);
    } else {
        let coord_text = spec_lookup(coords, slot_text)->0;
        let fields = spec_split(coord_text, ':');
        let main = seq![
            StepModel::RouterCommand {
                text: crate::orchestrator::router_move_command(fields[0], fields[1], fields[2]),
            },
            StepModel::PumpCommand { text: aspirate_command(units) },
            StepModel::RouterCommand {
                text: crate::orchestrator::router_lift_command(fields[0], fields[1]),
            },
            StepModel::PumpCommand { text: crate::orchestrator::dispense_command() },
            StepModel::SetOccupancy { microliters: vol },
        ];
        let clean: Seq<StepModel> = if cleaning {
            cleaning_steps()
        } else {
            Seq::empty()
        };
        assert(steps == pre + main + clean);
        lemma_occupancy_after_concat(occupancy, pre + main, clean);
        lemma_occupancy_after_concat(occupancy, pre, main);
        assert(main.last() == (StepModel::SetOccupancy { microliters: vol }));
        assert(spec_occupancy_after(after_pre, main) == vol);
        assert forall|j: int| 0 <= j < clean.len() implies !((#[trigger] clean[j])
            is SetOccupancy) by {}
        lemma_occupancy_unchanged(vol, clean);
        assert(spec_occupancy_after(occupancy, steps) == vol);
    }
}

/// A successful token plan's outcome is exactly what the occupancy records
/// of its steps replay to: an executor that completes the script ends at
/// the planned occupancy.
pub proof fn lemma_token_outcome_matches_occupancy(
    cleaning: bool,
    coords: Seq<(Seq<char>, Seq<char>)>,
    occupancy: u64,
    token: Seq<char>,
)
    requires
        spec_token_plan(cleaning, coords, occupancy, token).1 is Ok,
    ensures
        spec_token_plan(cleaning, coords, occupancy, token).1 == Ok::<u64, PlanError>(
            spec_occupancy_after(
                occupancy,
                spec_token_plan(cleaning, coords, occupancy, token).0,
            ),
        ),
{
    let r = spec_token_plan(cleaning, coords, occupancy, token);
    let fields = spec_split(token, '_');
    let awaiting: Seq<StepModel> = seq![StepModel::AwaitPump];
    if fields[0] == "LA"@ && fields.len() >= 4 {
        let la = spec_la_plan(cleaning, coords, occupancy, fields[1], fields[3]);
        assert(r.0 == awaiting + la.0);
        lemma_occupancy_after_concat(occupancy, awaiting, la.0);
        assert forall|j: int| 0 <= j < awaiting.len() implies !((#[trigger] awaiting[j])
            is SetOccupancy) by {}
        lemma_occupancy_unchanged(occupancy, awaiting);
        lemma_la_outcome_matches_occupancy(cleaning, coords, occupancy, fields[1], fields[3]);
    } else {
        assert(r.0.len() == 2);
        assert(!(r.0[0] is SetOccupancy));
        assert(!(r.0[1] is SetOccupancy));
        assert forall|j: int| 0 <= j < r.0.len() implies !((#[trigger] r.0[j]) is SetOccupancy)
            by {
            assert(j == 0 || j == 1);
        }
        lemma_occupancy_unchanged(occupancy, r.0);
    }
}

/// A batch that plans successfully ends, by its occupancy records, exactly
/// at the occupancy its outcome names.
pub proof fn lemma_batch_outcome_matches_occupancy(
    cleaning: bool,
    coords: Seq<(Seq<char>, Seq<char>)>,
    occupancy: u64,
    tokens: Seq<Seq<char>>,
    base: int,
)
    requires
        spec_batch_plan(cleaning, coords, occupancy, tokens, base).1 is Ok,
    ensures
        spec_batch_plan(cleaning, coords, occupancy, tokens, base).1 == Ok::<
            u64,
            crate::step::BatchError,
        >(
            spec_occupancy_after(
                occupancy,
                spec_batch_plan(cleaning, coords, occupancy, tokens, base).0,
            ),
        ),
    decreases tokens.len(),
{
    let r = spec_batch_plan(cleaning, coords, occupancy, tokens, base);
    if tokens.len() == 0 {
        assert(r.0.len() == 0);
    } else {
        let t = spec_token_plan(cleaning, coords, occupancy, tokens[0]);
        match t.1 {
            Err(e) => {
                assert(r.1 is Err);
            },
            Ok(next_occupancy) => {
                let rest = spec_batch_plan(
                    cleaning,
                    coords,
                    next_occupancy,
                    tokens.drop_first(),
                    base + 1,
                );
                lemma_token_outcome_matches_occupancy(cleaning, coords, occupancy, tokens[0]);
                lemma_batch_outcome_matches_occupancy(
                    cleaning,
                    coords,
                    next_occupancy,
                    tokens.drop_first(),
                    base + 1,
                );
                lemma_occupancy_after_concat(occupancy, t.0, rest.0);
                assert(spec_occupancy_after(occupancy, t.0) == next_occupancy);
            },
        }
    }
}

/// A message that plans successfully ends at the occupancy its outcome
/// names; a dropped message keeps the occupancy it started with.
pub proof fn lemma_message_outcome_matches_occupancy(
    cleaning: bool,
    coords: Seq<(Seq<char>, Seq<char>)>,
    occupancy: u64,
    channel: i8,
    data: Seq<char>,
)
    requires
        spec_message_plan(cleaning, coords, occupancy, channel, data).1 is Ok,
    ensures
        spec_message_plan(cleaning, coords, occupancy, channel, data).1 == Ok::<
            u64,
            crate::step::BatchError,
        >(
            spec_occupancy_after(
                occupancy,
                spec_message_plan(cleaning, coords, occupancy, channel, data).0,
            ),
        ),
{
    if channel != 4 {
        let r = spec_message_plan(cleaning, coords, occupancy, channel, data);
        assert(r.0.len() == 0);
    } else {
        lemma_batch_outcome_matches_occupancy(
            cleaning,
            coords,
            occupancy,
            spec_split(data, ' '),
            0,
        );
    }
}

} // verus!
