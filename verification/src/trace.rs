//! The port-level trace of a script: which actions each step performs on
//! which port, and the exchange disciplines that every script obeys — the
//! router's strict request/reply alternation, and the rule that the pump
//! port sees a command only right after a poll reported it idle.

use vstd::prelude::*;

use crate::step::StepModel;

verus! {

/// One port-level action of the executor.
pub enum DeviceEvent {
    /// A command line written to the router port.
    RouterWrite { text: Seq<char> },
    /// One reply line read from the router port.
    RouterRead,
    /// A program line written to the pump port.
    PumpWrite { text: Seq<char> },
    /// The poll-until-idle exchange on the pump port: status queries and
    /// their replies, repeated until the pump reports idle. No command is
    /// written.
    PumpPoll,
    /// Queued input discarded from the router port.
    RouterDrain,
    /// Queued input discarded from the pump port.
    PumpDrain,
    /// The controller thread blocked for this many milliseconds.
    Sleep { milliseconds: u64 },
}

/// The port-level actions that executing one step performs, in order.
pub open spec fn step_events(s: StepModel) -> Seq<DeviceEvent> {
    match s {
        StepModel::FlushRouter => seq![DeviceEvent::RouterDrain],
        StepModel::FlushPump => seq![DeviceEvent::PumpDrain],
        StepModel::AwaitPump => seq![DeviceEvent::PumpPoll],
        StepModel::RouterCommand { text } => seq![
            DeviceEvent::RouterWrite { text },
            DeviceEvent::RouterRead,
        ],
        StepModel::PumpCommand { text } => seq![
            DeviceEvent::PumpDrain,
            DeviceEvent::PumpWrite { text },
            DeviceEvent::Sleep { milliseconds: 1000u64 },
            DeviceEvent::PumpPoll,
        ],
        StepModel::WaitMs { milliseconds } => seq![DeviceEvent::Sleep { milliseconds }],
        StepModel::SetOccupancy { microliters } => Seq::empty(),
        StepModel::WarnPumpUnits => Seq::empty(),
        StepModel::WarnUnimplemented => Seq::empty(),
    }
}

/// The actions of a whole script, in execution order.
pub open spec fn script_events(steps: Seq<StepModel>) -> Seq<DeviceEvent>
    decreases steps.len(),
{
    if steps.len() == 0 {
        Seq::empty()
    } else {
        step_events(steps[0]) + script_events(steps.drop_first())
    }
}

/// Whether an action touches the pump port as query or command.
pub open spec fn on_pump_port(e: DeviceEvent) -> bool {
    e is PumpWrite || e is PumpPoll
}

/// The pump port's commands and polls, in order.
pub open spec fn pump_port_events(events: Seq<DeviceEvent>) -> Seq<DeviceEvent>
    decreases events.len(),
{
    if events.len() == 0 {
        Seq::empty()
    } else {
        let rest = pump_port_events(events.drop_first());
        if on_pump_port(events[0]) {
            seq![events[0]] + rest
        } else {
            rest
        }
    }
}

proof fn lemma_pump_port_events_add(a: Seq<DeviceEvent>, b: Seq<DeviceEvent>)
    ensures
        pump_port_events(a + b) =~= pump_port_events(a) + pump_port_events(b),
    decreases a.len(),
{
    if a.len() == 0 {
        assert(a + b =~= b);
        assert(pump_port_events(a) =~= Seq::<DeviceEvent>::empty());
    } else {
        assert((a + b).drop_first() =~= a.drop_first() + b);
        assert((a + b)[0] == a[0]);
        assert((a + b).len() > 0);
        lemma_pump_port_events_add(a.drop_first(), b);
    }
}

/// Whatever the script, every write to the router port is immediately
/// followed by reading its one reply line: the router never sees a second
/// command before it has answered — with `G1:OK` or otherwise — the
/// previous one.
pub proof fn lemma_router_request_reply(steps: Seq<StepModel>)
    ensures
        forall|i: int|
            0 <= i < script_events(steps).len() && (#[trigger] script_events(steps)[i])
                is RouterWrite ==> i + 1 < script_events(steps).len() && script_events(
                steps,
            )[i + 1] is RouterRead,
    decreases steps.len(),
{
    if steps.len() > 0 {
        lemma_router_request_reply(steps.drop_first());
        let h = step_events(steps[0]);
        let t = script_events(steps.drop_first());
        let all = script_events(steps);
        assert(all == h + t);
        assert forall|i: int|
            0 <= i < all.len() && (#[trigger] all[i]) is RouterWrite implies i + 1 < all.len()
            && all[i + 1] is RouterRead by {
            if i < h.len() {
                assert(all[i] == h[i]);
                assert(i == 0 && h.len() == 2 && h[1] is RouterRead);
                assert(all[1] == h[1]);
            } else {
                assert(all[i] == t[i - h.len()]);
                assert(i - h.len() + 1 < t.len());
                assert(all[i + 1] == t[i - h.len() + 1]);
            }
        }
    }
}

/// The pump-port projection of one step: nothing, one poll, or a command
/// write followed by the poll that waits the command out.
proof fn lemma_step_block(s: StepModel)
    ensures
        ({
            let b = pump_port_events(step_events(s));
            &&& b.len() <= 2
            &&& (b.len() > 0 ==> b.last() is PumpPoll)
            &&& (forall|i: int| 0 <= i < b.len() && (#[trigger] b[i]) is PumpWrite ==> s is PumpCommand)
            &&& (s is PumpCommand ==> b.len() == 2 && b[0] is PumpWrite && b[1] is PumpPoll)
            &&& (s is AwaitPump ==> b.len() == 1 && b[0] is PumpPoll)
            &&& (!(s is PumpCommand) && !(s is AwaitPump) ==> b.len() == 0)
        }),
{
    reveal_with_fuel(pump_port_events, 6);
    let e = step_events(s);
    match s {
        StepModel::PumpCommand { text } => {
            assert(e.drop_first() =~= seq![
                DeviceEvent::PumpWrite { text },
                DeviceEvent::Sleep { milliseconds: 1000u64 },
                DeviceEvent::PumpPoll,
            ]);
            assert(e.drop_first().drop_first() =~= seq![
                DeviceEvent::Sleep { milliseconds: 1000u64 },
                DeviceEvent::PumpPoll,
            ]);
            assert(e.drop_first().drop_first().drop_first() =~= seq![DeviceEvent::PumpPoll]);
            assert(e.drop_first().drop_first().drop_first().drop_first()
                =~= Seq::<DeviceEvent>::empty());
            assert(pump_port_events(e) =~= seq![
                DeviceEvent::PumpWrite { text },
                DeviceEvent::PumpPoll,
            ]);
        },
        StepModel::RouterCommand { text } => {
            assert(e.drop_first() =~= seq![DeviceEvent::RouterRead]);
            assert(e.drop_first().drop_first() =~= Seq::<DeviceEvent>::empty());
            assert(pump_port_events(e) =~= Seq::<DeviceEvent>::empty());
        },
        _ => {
            if e.len() == 1 {
                assert(e.drop_first() =~= Seq::<DeviceEvent>::empty());
            }
        },
    }
}

/// In the pump projection of any script, a command write at any later
/// position has the poll of the previous pump operation right before it,
/// and a nonempty projection always ends in a poll.
proof fn lemma_pump_projection_shape(steps: Seq<StepModel>)
    ensures
        ({
            let p = pump_port_events(script_events(steps));
            &&& (p.len() > 0 ==> p.last() is PumpPoll)
            &&& (forall|i: int| 1 <= i < p.len() && (#[trigger] p[i]) is PumpWrite ==> p[i - 1] is PumpPoll)
        }),
    decreases steps.len(),
{
    if steps.len() > 0 {
        lemma_pump_projection_shape(steps.drop_first());
        lemma_step_block(steps[0]);
        lemma_pump_port_events_add(step_events(steps[0]), script_events(steps.drop_first()));
        let b = pump_port_events(step_events(steps[0]));
        let q = pump_port_events(script_events(steps.drop_first()));
        let p = pump_port_events(script_events(steps));
        assert(p == b + q);
        assert forall|i: int| 1 <= i < p.len() && (#[trigger] p[i]) is PumpWrite implies p[i
            - 1] is PumpPoll by {
            if i < b.len() {
                assert(p[i] == b[i]);
            } else if i == b.len() {
                assert(p[i] == q[0]);
                assert(p[i - 1] == b.last());
            } else {
                assert(p[i] == q[i - b.len()]);
                assert(p[i - 1] == q[i - b.len() - 1]);
            }
        }
    }
}

/// Whether some availability wait stands before every pump command of a
/// script.
pub open spec fn pump_awaited(steps: Seq<StepModel>) -> bool {
    forall|j: int|
        0 <= j < steps.len() && steps[j] is PumpCommand ==> exists|k: int|
            0 <= k < j && steps[k] is AwaitPump
}

/// In a sequence of pump-port actions, every command write comes
/// immediately after a poll that reported the pump idle.
pub open spec fn pump_writes_gated(pump: Seq<DeviceEvent>) -> bool {
    forall|i: int|
        0 <= i < pump.len() && (#[trigger] pump[i]) is PumpWrite ==> i > 0 && pump[i
            - 1] is PumpPoll
}

/// A script whose pump commands all have an availability wait somewhere
/// before them never opens its pump projection with a command write.
proof fn lemma_pump_projection_opens_with_poll(steps: Seq<StepModel>)
    requires
        pump_awaited(steps),
    ensures
        ({
            let p = pump_port_events(script_events(steps));
            p.len() > 0 && p[0] is PumpWrite ==> false
        }),
    decreases steps.len(),
{
    if steps.len() > 0 {
        lemma_step_block(steps[0]);
        lemma_pump_port_events_add(step_events(steps[0]), script_events(steps.drop_first()));
        let b = pump_port_events(step_events(steps[0]));
        let q = pump_port_events(script_events(steps.drop_first()));
        let p = pump_port_events(script_events(steps));
        assert(p == b + q);
        if steps[0] is PumpCommand {
            assert(steps[0] is PumpCommand && 0 < steps.len());
            assert(exists|k: int| 0 <= k < 0 && steps[k] is AwaitPump);
            assert(false);
        } else if steps[0] is AwaitPump {
            assert(p[0] == b[0]);
            assert(!(p[0] is PumpWrite));
        } else {
            assert(b.len() == 0);
            assert(p =~= q);
            let d = steps.drop_first();
            assert forall|j: int|
                0 <= j < d.len() && d[j] is PumpCommand implies exists|k: int|
                0 <= k < j && d[k] is AwaitPump by {
                assert(steps[j + 1] is PumpCommand);
                let k0 = choose|k: int| 0 <= k < j + 1 && steps[k] is AwaitPump;
                assert(k0 != 0);
                assert(d[k0 - 1] is AwaitPump);
            }
            lemma_pump_projection_opens_with_poll(d);
        }
    }
}

/// A script without router or pump command steps writes to neither device
/// port: its only port actions are drains, polls and sleeps.
pub proof fn lemma_no_command_steps_no_writes(steps: Seq<StepModel>)
    requires
        forall|j: int|
            0 <= j < steps.len() ==> !((#[trigger] steps[j]) is RouterCommand) && !(
            steps[j] is PumpCommand),
    ensures
        forall|i: int|
            0 <= i < script_events(steps).len() ==> !((#[trigger] script_events(steps)[i])
                is RouterWrite) && !(script_events(steps)[i] is PumpWrite),
    decreases steps.len(),
{
    if steps.len() > 0 {
        let d = steps.drop_first();
        assert forall|j: int|
            0 <= j < d.len() implies !((#[trigger] d[j]) is RouterCommand) && !(
        d[j] is PumpCommand) by {
            assert(d[j] == steps[j + 1]);
        }
        lemma_no_command_steps_no_writes(d);
        let h = step_events(steps[0]);
        let t = script_events(d);
        let all = script_events(steps);
        assert(all == h + t);
        assert(!(steps[0] is RouterCommand) && !(steps[0] is PumpCommand));
        assert forall|i: int|
            0 <= i < all.len() implies !((#[trigger] all[i]) is RouterWrite) && !(
        all[i] is PumpWrite) by {
            if i < h.len() {
                assert(all[i] == h[i]);
            } else {
                assert(all[i] == t[i - h.len()]);
            }
        }
    }
}

/// In any script where an availability wait precedes every pump command —
/// as every planned script has it — the pump port sees a command write only
/// immediately after a poll that reported the pump idle.
pub proof fn lemma_pump_writes_gated(steps: Seq<StepModel>)
    requires
        pump_awaited(steps),
    ensures
        pump_writes_gated(pump_port_events(script_events(steps))),
{
    lemma_pump_projection_shape(steps);
    lemma_pump_projection_opens_with_poll(steps);
}

} // verus!
