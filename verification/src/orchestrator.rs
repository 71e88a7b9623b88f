//! The orchestrator: turns each host command token into an ordered script
//! of router and pump steps, with slot-occupancy accounting, the
//! external-source fast path, and optional cleaning.

use vstd::prelude::*;
use vstd::string::*;

use crate::config::Config;
use crate::config::coords_view;
use crate::config::spec_lookup;
use crate::config::split_coordinates;
use crate::message::Message;
use crate::numbers::dec_digits;
use crate::numbers::parse_u64;
use crate::numbers::spec_parse_u64;
use crate::numbers::u64_to_dec;
use crate::step::BatchError;
use crate::step::PlanError;
use crate::step::Step;
use crate::step::StepModel;
use crate::step::steps_view;
use crate::text::lemma_split_len;
use crate::text::parts_view;
use crate::text::spec_split;
use crate::text::split_str;
use crate::text::str_eq;

verus! {

/// The pump-2 program that empties the dispensing slot.
pub open spec fn evacuate_command() -> Seq<char> {
    "/2gI1A12000O2A0G4R\r\n"@
}

/// The pump-1 program that aspirates `units` plunger units from the normal
/// source channel.
pub open spec fn aspirate_command(units: u64) -> Seq<char> {
    "/1I1A"@ + dec_digits(units as nat) + "O2A0R\r\n"@
}

/// The pump-1 program that dispenses the aspirated liquid into the slot.
pub open spec fn dispense_command() -> Seq<char> {
    "/1gI1A12000O2A0G12R\r\n"@
}

/// The pump-1 program that aspirates `units` plunger units from external
/// source channel `channel` and delivers them directly.
pub open spec fn external_aspirate_command(channel: u64, units: u64) -> Seq<char> {
    "/1I"@ + dec_digits(channel as nat) + "A"@ + dec_digits(units as nat) + "O1A0R\r\n"@
}

/// The pump-1 water program: delivers external liquid, and serves as the
/// cleaning rinse.
pub open spec fn water_command() -> Seq<char> {
    "/1gI4A12000O1A0G2R\r\n"@
}

/// The pump-1 air purge program of the cleaning sequence.
pub open spec fn air_purge_command() -> Seq<char> {
    "/1gI5A12000O1A0G4R\r\n"@
}

/// The router motion command for textual coordinates `x`, `y`, `z`.
pub open spec fn router_move_command(x: Seq<char>, y: Seq<char>, z: Seq<char>) -> Seq<char> {
    "G1X"@ + x + "Y"@ + y + "Z"@ + z + "\r\n"@
}

/// The router motion that lifts the head straight up over `x`, `y`.
pub open spec fn router_lift_command(x: Seq<char>, y: Seq<char>) -> Seq<char> {
    "G1X"@ + x + "Y"@ + y + "Z0\r\n"@
}

/// The router motion to the cleaning station.
pub open spec fn cleaning_move_command() -> Seq<char> {
    "G1X227Y152Z-20\r\n"@
}

/// The three steps of the cleaning sequence: move to the cleaning station,
/// rinse with water, purge with air.
pub open spec fn cleaning_steps() -> Seq<StepModel> {
    seq![
        StepModel::RouterCommand { text: cleaning_move_command() },
        StepModel::PumpCommand { text: water_command() },
        StepModel::PumpCommand { text: air_purge_command() },
    ]
}

/// The fixed aspirate channel for an external source slot.
pub open spec fn external_channel(slot: u64) -> Option<u64> {
    if slot == 34 {
        Some(4u64)
    } else if slot == 35 {
        Some(7u64)
    } else if slot == 36 {
        Some(6u64)
    } else {
        None
    }
}

/// Converts microliters to the pump's native plunger-position units, at 24
/// units per microliter.
pub fn microliter_to_pumpunit(microliters: u64) -> (r: u64)
    requires
        microliters * 24 <= u64::MAX,
    ensures
        r == microliters * 24,
{
    microliters * 24
}

fn build_aspirate(units: u64) -> (r: String)
    ensures
        r@ == aspirate_command(units),
{
    let mut s = String::from_str("/1I1A");
    let d = u64_to_dec(units);
    s.append(d.as_str());
    s.append("O2A0R\r\n");
    proof {
        assert(s@ =~= aspirate_command(units));
    }
    s
}

fn build_external_aspirate(channel: u64, units: u64) -> (r: String)
    ensures
        r@ == external_aspirate_command(channel, units),
{
    let mut s = String::from_str("/1I");
    let c = u64_to_dec(channel);
    s.append(c.as_str());
    s.append("A");
    let d = u64_to_dec(units);
    s.append(d.as_str());
    s.append("O1A0R\r\n");
    proof {
        assert(s@ =~= external_aspirate_command(channel, units));
    }
    s
}

fn build_router_move(x: &str, y: &str, z: &str) -> (r: String)
    ensures
        r@ == router_move_command(x@, y@, z@),
{
    let mut s = String::from_str("G1X");
    s.append(x);
    s.append("Y");
    s.append(y);
    s.append("Z");
    s.append(z);
    s.append("\r\n");
    proof {
        assert(s@ =~= router_move_command(x@, y@, z@));
    }
    s
}

fn build_router_lift(x: &str, y: &str) -> (r: String)
    ensures
        r@ == router_lift_command(x@, y@),
{
    let mut s = String::from_str("G1X");
    s.append(x);
    s.append("Y");
    s.append(y);
    s.append("Z0\r\n");
    proof {
        assert(s@ =~= router_lift_command(x@, y@));
    }
    s
}

/// The planned steps and outcome of one liquid application, given the
/// cleaning switch, the coordinate table, the current slot occupancy, and
/// the token's slot and volume fields.
///
/// The scripted order follows the wire protocol: flush both ports, warn if
/// the plunger position exceeds the stroke, evacuate a previously filled
/// slot, and then either the external-source fast path (no router motion)
/// or the normal path of move, aspirate, lift, dispense, and, when enabled,
/// the cleaning sequence. A failure leaves the steps planned so far — they
/// have already run when the failure is discovered — and names the error.
pub open spec fn spec_la_plan(
    cleaning: bool,
    coords: Seq<(Seq<char>, Seq<char>)>,
    occupancy: u64,
    slot_text: Seq<char>,
    vol_text: Seq<char>,
) -> (Seq<StepModel>, Result<u64, PlanError>) {
    match spec_parse_u64(slot_text) {
        None => (Seq::empty(), Err(PlanError::BadSlotNumber)),
        Some(slot) => match spec_parse_u64(vol_text) {
            None => (Seq::empty(), Err(PlanError::BadVolume)),
            Some(vol) => {
                if vol > u64::MAX / 24 {
                    (Seq::empty(), Err(PlanError::BadVolume))
                } else {
                    let units = (vol * 24) as u64;
                    let warn: Seq<StepModel> = if units > 12000 {
                        seq![StepModel::WarnPumpUnits]
                    } else {
                        Seq::empty()
                    };
                    let evacuate: Seq<StepModel> = if occupancy > 0 {
                        seq![
                            StepModel::PumpCommand { text: evacuate_command() },
                            StepModel::SetOccupancy { microliters: 0u64 },
                        ]
                    } else {
                        Seq::empty()
                    };
                    let pre = warn + seq![StepModel::FlushRouter, StepModel::FlushPump]
                        + evacuate;
                    if slot > 33 {
                        match external_channel(slot) {
                            None => (pre, Err(PlanError::UnknownExternalSlot)),
                            Some(channel) => (
                                pre + seq![
                                    StepModel::PumpCommand {
                                        text: external_aspirate_command(channel, units),
                                    },
                                    StepModel::PumpCommand { text: water_command() },
                                ],
                                Ok(0u64),
                            ),
                        }
                    } else {
                        match spec_lookup(coords, slot_text) {
                            None => (pre, Err(PlanError::UnknownSlot)),
                            Some(coord_text) => {
                                let fields = spec_split(coord_text, ':');
                                if fields.len() != 3 {
                                    (pre, Err(PlanError::BadCoordinates))
                                } else {
                                    let main = seq![
                                        StepModel::RouterCommand {
                                            text: router_move_command(
                                                fields[0],
                                                fields[1],
                                                fields[2],
                                            ),
                                        },
                                        StepModel::PumpCommand {
                                            text: aspirate_command(units),
                                        },
                                        StepModel::RouterCommand {
                                            text: router_lift_command(fields[0], fields[1]),
                                        },
                                        StepModel::PumpCommand { text: dispense_command() },
                                        StepModel::SetOccupancy { microliters: vol },
                                    ];
                                    let clean: Seq<StepModel> = if cleaning {
                                        cleaning_steps()
                                    } else {
                                        Seq::empty()
                                    };
                                    (pre + main + clean, Ok(vol))
                                }
                            },
                        }
                    }
                }
            },
        },
    }
}

/// Plans one liquid application from its slot and volume fields.
pub fn plan_liquid_application(
    cfg: &Config,
    occupancy: u64,
    slot_text: &str,
    vol_text: &str,
) -> (r: (Vec<Step>, Result<u64, PlanError>))
    ensures
        steps_view(r.0@) == spec_la_plan(
            cfg.constant_cleaning,
            coords_view(cfg.tube_holder_coordinates@),
            occupancy,
            slot_text@,
            vol_text@,
        ).0,
        r.1 == spec_la_plan(
            cfg.constant_cleaning,
            coords_view(cfg.tube_holder_coordinates@),
            occupancy,
            slot_text@,
            vol_text@,
        ).1,
{
    let ghost cleaning = cfg.constant_cleaning;
    let ghost coords = coords_view(cfg.tube_holder_coordinates@);
    let mut steps: Vec<Step> = Vec::new();
    proof {
        assert(steps_view(steps@) =~= Seq::<StepModel>::empty());
    }
    let slot: u64 = match parse_u64(slot_text) {
        Some(s) => s,
        None => {
            return (steps, Err(PlanError::BadSlotNumber));
        },
    };
    let vol: u64 = match parse_u64(vol_text) {
        Some(v) => v,
        None => {
            return (steps, Err(PlanError::BadVolume));
        },
    };
    if vol > u64::MAX / 24 {
        return (steps, Err(PlanError::BadVolume));
    }
    proof {
        assert(u64::MAX / 24 * 24 + u64::MAX % 24 == u64::MAX);
        assert(vol * 24 <= u64::MAX / 24 * 24) by (nonlinear_arith)
            requires
                vol <= u64::MAX / 24,
        ;
    }
    let units = microliter_to_pumpunit(vol);
    if units > 12000 {
        steps.push(Step::WarnPumpUnits);
    }
    steps.push(Step::FlushRouter);
    steps.push(Step::FlushPump);
    if occupancy > 0 {
        steps.push(Step::PumpCommand { text: String::from_str("/2gI1A12000O2A0G4R\r\n") });
        steps.push(Step::SetOccupancy { microliters: 0 });
    }
    let ghost pre = spec_la_plan(cleaning, coords, occupancy, slot_text@, vol_text@).0;
    if slot > 33 {
        let channel: u64 = if slot == 34 {
            4
        } else if slot == 35 {
            7
        } else if slot == 36 {
            6
        } else {
            proof {
                assert(steps_view(steps@) =~= spec_la_plan(
                    cleaning,
                    coords,
                    occupancy,
                    slot_text@,
                    vol_text@,
                ).0);
            }
            return (steps, Err(PlanError::UnknownExternalSlot));
        };
        steps.push(Step::PumpCommand { text: build_external_aspirate(channel, units) });
        steps.push(Step::PumpCommand { text: String::from_str("/1gI4A12000O1A0G2R\r\n") });
        proof {
            assert(steps_view(steps@) =~= spec_la_plan(
                cleaning,
                coords,
                occupancy,
                slot_text@,
                vol_text@,
            ).0);
        }
        return (steps, Ok(0));
    }
    let coord_text: String = match cfg.lookup_coordinates(slot_text) {
        Some(v) => v,
        None => {
            proof {
                assert(steps_view(steps@) =~= spec_la_plan(
                    cleaning,
                    coords,
                    occupancy,
                    slot_text@,
                    vol_text@,
                ).0);
            }
            return (steps, Err(PlanError::UnknownSlot));
        },
    };
    let (x, y, z) = match split_coordinates(coord_text.as_str()) {
        Some(t) => t,
        None => {
            proof {
                assert(steps_view(steps@) =~= spec_la_plan(
                    cleaning,
                    coords,
                    occupancy,
                    slot_text@,
                    vol_text@,
                ).0);
            }
            return (steps, Err(PlanError::BadCoordinates));
        },
    };
    proof {
        let fields = spec_split(coord_text@, ':');
        assert(fields[0] == x@ && fields[1] == y@ && fields[2] == z@);
    }
    steps.push(Step::RouterCommand { text: build_router_move(x.as_str(), y.as_str(), z.as_str()) });
    steps.push(Step::PumpCommand { text: build_aspirate(units) });
    steps.push(Step::RouterCommand { text: build_router_lift(x.as_str(), y.as_str()) });
    steps.push(Step::PumpCommand { text: String::from_str("/1gI1A12000O2A0G12R\r\n") });
    steps.push(Step::SetOccupancy { microliters: vol });
    if cfg.constant_cleaning {
        steps.push(Step::RouterCommand { text: String::from_str("G1X227Y152Z-20\r\n") });
        steps.push(Step::PumpCommand { text: String::from_str("/1gI4A12000O1A0G2R\r\n") });
        steps.push(Step::PumpCommand { text: String::from_str("/1gI5A12000O1A0G4R\r\n") });
    }
    proof {
        assert(steps_view(steps@) =~= spec_la_plan(
            cleaning,
            coords,
            occupancy,
            slot_text@,
            vol_text@,
        ).0);
    }
    (steps, Ok(vol))
}

/// The planned steps and outcome of one command token.
///
/// Every token's script begins by awaiting pump availability, guarding
/// against residual motion from the previous command. The token's first
/// underscore-separated field selects the command kind: `LA` applies
/// liquid, `W` waits, and `TC`/`BTC` are accepted, logged, and do nothing.
/// Any other kind aborts the batch.
pub open spec fn spec_token_plan(
    cleaning: bool,
    coords: Seq<(Seq<char>, Seq<char>)>,
    occupancy: u64,
    token: Seq<char>,
) -> (Seq<StepModel>, Result<u64, PlanError>) {
    let fields = spec_split(token, '_');
    let kind = fields[0];
    let awaiting = seq![StepModel::AwaitPump];
    if kind == "LA"@ {
        if fields.len() < 2 {
            (awaiting, Err(PlanError::MissingSlot))
        } else if fields.len() < 4 {
            (awaiting, Err(PlanError::MissingVolume))
        } else {
            let la = spec_la_plan(cleaning, coords, occupancy, fields[1], fields[3]);
            (awaiting + la.0, la.1)
        }
    } else if kind == "W"@ {
        if fields.len() < 2 {
            (awaiting, Err(PlanError::MissingDuration))
        } else {
            match spec_parse_u64(fields[1]) {
                None => (awaiting, Err(PlanError::BadDuration)),
                Some(ms) => (awaiting + seq![StepModel::WaitMs { milliseconds: ms }], Ok(
                    occupancy,
                )),
            }
        }
    } else if kind == "TC"@ || kind == "BTC"@ {
        (awaiting + seq![StepModel::WarnUnimplemented], Ok(occupancy))
    } else {
        (awaiting, Err(PlanError::UnknownCommand))
    }
}

/// Plans one command token.
pub fn plan_token(cfg: &Config, occupancy: u64, token: &str) -> (r: (
    Vec<Step>,
    Result<u64, PlanError>,
))
    ensures
        steps_view(r.0@) == spec_token_plan(
            cfg.constant_cleaning,
            coords_view(cfg.tube_holder_coordinates@),
            occupancy,
            token@,
        ).0,
        r.1 == spec_token_plan(
            cfg.constant_cleaning,
            coords_view(cfg.tube_holder_coordinates@),
            occupancy,
            token@,
        ).1,
{
    let ghost cleaning = cfg.constant_cleaning;
    let ghost coords = coords_view(cfg.tube_holder_coordinates@);
    let fields = split_str(token, '_');
    proof {
        lemma_split_len(token@, '_');
        assert(parts_view(fields@).len() == fields@.len());
        assert(parts_view(fields@)[0] == fields@[0]@);
    }
    let mut steps: Vec<Step> = Vec::new();
    steps.push(Step::AwaitPump);
    proof {
        assert(steps_view(steps@) =~= seq![StepModel::AwaitPump]);
    }
    if str_eq(fields[0].as_str(), "LA") {
        if fields.len() < 2 {
            return (steps, Err(PlanError::MissingSlot));
        }
        if fields.len() < 4 {
            return (steps, Err(PlanError::MissingVolume));
        }
        proof {
            assert(parts_view(fields@)[1] == fields@[1]@);
            assert(parts_view(fields@)[3] == fields@[3]@);
        }
        let ghost la = spec_la_plan(cleaning, coords, occupancy, fields@[1]@, fields@[3]@);
        let ghost before = steps_view(steps@);
        let (mut la_steps, outcome) = plan_liquid_application(
            cfg,
            occupancy,
            fields[1].as_str(),
            fields[3].as_str(),
        );
        let ghost la_view = steps_view(la_steps@);
        steps.append(&mut la_steps);
        proof {
            assert(steps_view(steps@) =~= before + la_view);
        }
        (steps, outcome)
    } else if str_eq(fields[0].as_str(), "W") {
        if fields.len() < 2 {
            return (steps, Err(PlanError::MissingDuration));
        }
        proof {
            assert(parts_view(fields@)[1] == fields@[1]@);
        }
        match parse_u64(fields[1].as_str()) {
            None => (steps, Err(PlanError::BadDuration)),
            Some(ms) => {
                let ghost before = steps_view(steps@);
                steps.push(Step::WaitMs { milliseconds: ms });
                proof {
                    assert(steps_view(steps@) =~= before + seq![
                        StepModel::WaitMs { milliseconds: ms },
                    ]);
                }
                (steps, Ok(occupancy))
            },
        }
    } else if str_eq(fields[0].as_str(), "TC") || str_eq(fields[0].as_str(), "BTC") {
        let ghost before = steps_view(steps@);
        steps.push(Step::WarnUnimplemented);
        proof {
            assert(steps_view(steps@) =~= before + seq![StepModel::WarnUnimplemented]);
        }
        (steps, Ok(occupancy))
    } else {
        (steps, Err(PlanError::UnknownCommand))
    }
}

/// The planned steps and outcome of a batch of tokens, executed left to
/// right with the occupancy threaded through. The first token that cannot
/// be planned aborts the batch: its position and error are the outcome, and
/// no later token contributes steps.
pub open spec fn spec_batch_plan(
    cleaning: bool,
    coords: Seq<(Seq<char>, Seq<char>)>,
    occupancy: u64,
    tokens: Seq<Seq<char>>,
    base: int,
) -> (Seq<StepModel>, Result<u64, BatchError>)
    decreases tokens.len(),
{
    if tokens.len() == 0 {
        (Seq::empty(), Ok(occupancy))
    } else {
        let t = spec_token_plan(cleaning, coords, occupancy, tokens[0]);
        match t.1 {
            Err(e) => (t.0, Err(BatchError { token_index: base as usize, error: e })),
            Ok(next_occupancy) => {
                let rest = spec_batch_plan(
                    cleaning,
                    coords,
                    next_occupancy,
                    tokens.drop_first(),
                    base + 1,
                );
                (t.0 + rest.0, rest.1)
            },
        }
    }
}

/// A planned batch: the script to execute, and either the occupancy after a
/// complete run or the first planning failure.
pub struct BatchPlan {
    /// The steps to execute, in order.
    pub steps: Vec<Step>,
    /// The occupancy after a complete run, or the first planning failure.
    pub outcome: Result<u64, BatchError>,
}

/// Plans a whole batch: the message data split on spaces, each token
/// planned in order until the first failure.
pub fn plan_batch(cfg: &Config, occupancy: u64, data: &str) -> (r: BatchPlan)
    ensures
        steps_view(r.steps@) == spec_batch_plan(
            cfg.constant_cleaning,
            coords_view(cfg.tube_holder_coordinates@),
            occupancy,
            spec_split(data@, ' '),
            0,
        ).0,
        r.outcome == spec_batch_plan(
            cfg.constant_cleaning,
            coords_view(cfg.tube_holder_coordinates@),
            occupancy,
            spec_split(data@, ' '),
            0,
        ).1,
{
    let ghost cleaning = cfg.constant_cleaning;
    let ghost coords = coords_view(cfg.tube_holder_coordinates@);
    let ghost toks = spec_split(data@, ' ');
    let ghost target = spec_batch_plan(cleaning, coords, occupancy, toks, 0);
    let tokens = split_str(data, ' ');
    proof {
        assert(parts_view(tokens@).len() == tokens@.len());
    }
    let n = tokens.len();
    let mut steps: Vec<Step> = Vec::new();
    let mut occ = occupancy;
    let mut i: usize = 0;
    proof {
        assert(steps_view(steps@) =~= Seq::<StepModel>::empty());
        assert(toks.skip(0) =~= toks);
        assert(target.0 =~= steps_view(steps@) + spec_batch_plan(
            cleaning,
            coords,
            occ,
            toks.skip(0),
            0,
        ).0);
    }
    while i < n
        invariant
            i <= n,
            n == tokens@.len(),
            toks == parts_view(tokens@),
            toks == spec_split(data@, ' '),
            cleaning == cfg.constant_cleaning,
            coords == coords_view(cfg.tube_holder_coordinates@),
            target == spec_batch_plan(cleaning, coords, occupancy, toks, 0),
            target.0 == steps_view(steps@) + spec_batch_plan(
                cleaning,
                coords,
                occ,
                toks.skip(i as int),
                i as int,
            ).0,
            target.1 == spec_batch_plan(cleaning, coords, occ, toks.skip(i as int), i as int).1,
        decreases n - i,
    {
        let ghost rest = toks.skip(i as int);
        proof {
            assert(rest[0] == toks[i as int]);
            assert(parts_view(tokens@)[i as int] == tokens@[i as int]@);
            assert(rest.drop_first() =~= toks.skip(i as int + 1));
        }
        let token = &tokens[i];
        let (mut t_steps, t_outcome) = plan_token(cfg, occ, token.as_str());
        let ghost t_view = steps_view(t_steps@);
        let ghost before = steps_view(steps@);
        steps.append(&mut t_steps);
        proof {
            assert(steps_view(steps@) =~= before + t_view);
        }
        match t_outcome {
            Err(e) => {
                proof {
                    assert(toks.len() == n);
                    assert(rest.len() == n - i);
                    let tspec = spec_token_plan(cleaning, coords, occ, rest[0]);
                    assert(tspec.1 == Err::<u64, PlanError>(e));
                    assert((i as int) as usize == i);
                    assert(spec_batch_plan(cleaning, coords, occ, rest, i as int).1 == Err::<
                        u64,
                        BatchError,
                    >(BatchError { token_index: i, error: e }));
                    assert(spec_batch_plan(cleaning, coords, occ, rest, i as int).0 == tspec.0);
                    assert(target.0 =~= steps_view(steps@));
                }
                return BatchPlan { steps, outcome: Err(BatchError { token_index: i, error: e }) };
            },
            Ok(next_occupancy) => {
                occ = next_occupancy;
            },
        }
        i = i + 1;
        proof {
            let after = spec_batch_plan(cleaning, coords, occ, toks.skip(i as int), i as int);
            assert(before + (t_view + after.0) =~= (before + t_view) + after.0);
        }
    }
    proof {
        assert(toks.skip(n as int) =~= Seq::<Seq<char>>::empty());
        assert(target.0 =~= steps_view(steps@));
    }
    BatchPlan { steps, outcome: Ok(occ) }
}

/// The planned steps and outcome of a whole validated message: a message
/// whose channel is not 4 is silently dropped — its plan has no steps and
/// the occupancy is unchanged — and any other message plans its data as a
/// batch.
pub open spec fn spec_message_plan(
    cleaning: bool,
    coords: Seq<(Seq<char>, Seq<char>)>,
    occupancy: u64,
    channel: i8,
    data: Seq<char>,
) -> (Seq<StepModel>, Result<u64, BatchError>) {
    if channel != 4 {
        (Seq::empty(), Ok(occupancy))
    } else {
        spec_batch_plan(cleaning, coords, occupancy, spec_split(data, ' '), 0)
    }
}

/// Plans the script for one validated message.
pub fn plan_message(cfg: &Config, occupancy: u64, msg: &Message) -> (r: BatchPlan)
    ensures
        steps_view(r.steps@) == spec_message_plan(
            cfg.constant_cleaning,
            coords_view(cfg.tube_holder_coordinates@),
            occupancy,
            msg.channel,
            msg.data@,
        ).0,
        r.outcome == spec_message_plan(
            cfg.constant_cleaning,
            coords_view(cfg.tube_holder_coordinates@),
            occupancy,
            msg.channel,
            msg.data@,
        ).1,
{
    if msg.channel != 4 {
        let steps: Vec<Step> = Vec::new();
        proof {
            assert(steps_view(steps@) =~= Seq::<StepModel>::empty());
        }
        BatchPlan { steps, outcome: Ok(occupancy) }
    } else {
        plan_batch(cfg, occupancy, msg.data.as_str())
    }
}

/// The slot occupancy after a prefix of a script has run: what the last
/// executed occupancy record says, or the initial value when none ran.
pub open spec fn spec_occupancy_after(initial: u64, steps: Seq<StepModel>) -> u64
    decreases steps.len(),
{
    if steps.len() == 0 {
        initial
    } else {
        match steps.last() {
            StepModel::SetOccupancy { microliters } => microliters,
            _ => spec_occupancy_after(initial, steps.drop_last()),
        }
    }
}

/// Occupancy accounting composes over concatenation: running one script and
/// then another accounts like running the second from where the first ended.
pub proof fn lemma_occupancy_after_concat(initial: u64, a: Seq<StepModel>, b: Seq<StepModel>)
    ensures
        spec_occupancy_after(initial, a + b) == spec_occupancy_after(
            spec_occupancy_after(initial, a),
            b,
        ),
    decreases b.len(),
{
    if b.len() == 0 {
        assert(a + b =~= a);
    } else {
        assert((a + b).drop_last() =~= a + b.drop_last());
        assert((a + b).last() == b.last());
        lemma_occupancy_after_concat(initial, a, b.drop_last());
    }
}

/// A script without occupancy records leaves the account unchanged.
pub proof fn lemma_occupancy_unchanged(initial: u64, steps: Seq<StepModel>)
    requires
        forall|j: int| 0 <= j < steps.len() ==> !((#[trigger] steps[j]) is SetOccupancy),
    ensures
        spec_occupancy_after(initial, steps) == initial,
    decreases steps.len(),
{
    if steps.len() > 0 {
        assert(!(steps[steps.len() - 1] is SetOccupancy));
        let d = steps.drop_last();
        assert forall|j: int| 0 <= j < d.len() implies !((#[trigger] d[j]) is SetOccupancy) by {
            assert(d[j] == steps[j]);
        }
        lemma_occupancy_unchanged(initial, d);
    }
}

/// The slot occupancy after the first `executed` steps of a script have
/// run. The unverified executor calls this when a device failure stops a
/// script partway, so the carried-over occupancy stays truthful.
pub fn occupancy_after(initial: u64, steps: &Vec<Step>, executed: usize) -> (r: u64)
    requires
        executed <= steps@.len(),
    ensures
        r == spec_occupancy_after(initial, steps_view(steps@).subrange(0, executed as int)),
{
    let mut current = initial;
    let mut i: usize = 0;
    proof {
        assert(steps_view(steps@).subrange(0, 0) =~= Seq::<StepModel>::empty());
    }
    while i < executed
        invariant
            i <= executed <= steps@.len(),
            current == spec_occupancy_after(initial, steps_view(steps@).subrange(0, i as int)),
        decreases executed - i,
    {
        match &steps[i] {
            Step::SetOccupancy { microliters } => {
                current = *microliters;
            },
            _ => {},
        }
        i = i + 1;
        proof {
            let pre = steps_view(steps@).subrange(0, i as int);
            assert(pre.drop_last() =~= steps_view(steps@).subrange(0, i - 1));
            assert(pre.last() == steps_view(steps@)[i - 1]);
            assert(steps_view(steps@)[i - 1] == steps@[i - 1]@);
        }
    }
    current
}

} // verus!
