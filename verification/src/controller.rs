//! The controller: per-device application state and network fan-out.
//!
//! A controller owns the device's click counts and its recording flag.  A
//! local click is counted through the same path as a remote one, announced
//! to the peer over the network, and toggles recording.  A remote click
//! bumps the named device's count and asks the view to show it.  Audio
//! passes through unchanged in both directions.

use vstd::prelude::*;

verus! {

use crate::events::{ControllerInput, ControllerToViewEvent, NetworkEvent, ViewToControllerEvent};

/// Relies on `str`'s `PartialEq`: two string slices are equal exactly when
/// their characters are.
pub assume_specification[ <str as PartialEq>::eq ](s: &str, other: &str) -> (r: bool)
    ensures
        r == (s@ == other@),
;

/// The click count recorded for `name`: the first matching entry's count,
/// or zero when no entry exists yet.
pub open spec fn spec_count(entries: Seq<(&'static str, usize)>, name: Seq<char>) -> nat
    decreases entries.len(),
{
    if entries.len() == 0 {
        0
    } else if entries[0].0@ == name {
        entries[0].1 as nat
    } else {
        spec_count(entries.skip(1), name)
    }
}

/// The entries after one more click for `name`: the first matching entry is
/// bumped, or a fresh entry is appended at one.
pub open spec fn spec_bump(entries: Seq<(&'static str, usize)>, name: &'static str) -> Seq<
    (&'static str, usize),
>
    decreases entries.len(),
{
    if entries.len() == 0 {
        seq![(name, 1usize)]
    } else if entries[0].0@ == name@ {
        seq![(entries[0].0, (entries[0].1 + 1) as usize)] + entries.skip(1)
    } else {
        seq![entries[0]] + spec_bump(entries.skip(1), name)
    }
}

/// Bumping one name's count raises exactly that count by one — as long as
/// it has room to grow — and leaves every other name's count alone
/// unconditionally.
pub proof fn lemma_bump_count(
    entries: Seq<(&'static str, usize)>,
    name: &'static str,
    target: Seq<char>,
)
    ensures
        name@ == target && spec_count(entries, name@) < usize::MAX ==> spec_count(
            spec_bump(entries, name),
            target,
        ) == spec_count(entries, target) + 1,
        name@ != target ==> spec_count(spec_bump(entries, name), target) == spec_count(
            entries,
            target,
        ),
    decreases entries.len(),
{
    let bumped = spec_bump(entries, name);
    if entries.len() == 0 {
        assert(bumped == seq![(name, 1usize)]);
        assert(bumped[0] == (name, 1usize));
        if name@ != target {
            assert(bumped.skip(1).len() == 0);
            assert(spec_count(bumped.skip(1), target) == 0);
            assert(spec_count(bumped, target) == 0);
        }
    } else if entries[0].0@ == name@ {
        assert(bumped[0] == (entries[0].0, (entries[0].1 + 1) as usize));
        assert(bumped.skip(1) =~= entries.skip(1));
        if name@ != target {
            assert(spec_count(bumped, target) == spec_count(entries.skip(1), target));
            assert(spec_count(entries, target) == spec_count(entries.skip(1), target));
        }
    } else {
        assert(spec_count(entries, name@) == spec_count(entries.skip(1), name@));
        lemma_bump_count(entries.skip(1), name, target);
        assert(bumped[0] == entries[0]);
        assert(bumped.skip(1) =~= spec_bump(entries.skip(1), name));
        assert(spec_count(bumped, target) == if bumped[0].0@ == target {
            bumped[0].1 as nat
        } else {
            spec_count(spec_bump(entries.skip(1), name), target)
        });
        assert(spec_count(entries, target) == if entries[0].0@ == target {
            entries[0].1 as nat
        } else {
            spec_count(entries.skip(1), target)
        });
    }
}

/// Everything a controller does with one batch of inputs: its state
/// afterwards and the events it sent each way, in order.
pub struct ControllerRun {
    /// The click-count entries after the batch.
    pub counts: Seq<(&'static str, usize)>,
    /// The recording flag after the batch.
    pub recording_active: bool,
    /// The events sent down to the view, in order.
    pub to_view: Seq<ControllerToViewEvent>,
    /// The events sent out to the network, in order.
    pub to_network: Seq<NetworkEvent>,
}

/// What a controller named `name` in state `(counts, recording)` does with
/// one input event.
pub open spec fn spec_step(
    name: &'static str,
    counts: Seq<(&'static str, usize)>,
    recording: bool,
    input: ControllerInput,
) -> ControllerRun {
    match input {
        ControllerInput::FromView(ViewToControllerEvent::Click) => ControllerRun {
            counts: spec_bump(counts, name),
            recording_active: !recording,
            to_view: seq![
                ControllerToViewEvent::Show(name, (spec_count(counts, name@) + 1) as usize),
                if !recording {
                    ControllerToViewEvent::StartRecording
                } else {
                    ControllerToViewEvent::StopRecording
                },
            ],
            to_network: seq![NetworkEvent::Click(name)],
        },
        ControllerInput::FromView(ViewToControllerEvent::Audio(p)) => ControllerRun {
            counts,
            recording_active: recording,
            to_view: seq![],
            to_network: seq![NetworkEvent::Audio(p)],
        },
        ControllerInput::FromNetwork(NetworkEvent::Click(n)) => ControllerRun {
            counts: spec_bump(counts, n),
            recording_active: recording,
            to_view: seq![
                ControllerToViewEvent::Show(n, (spec_count(counts, n@) + 1) as usize),
            ],
            to_network: seq![],
        },
        ControllerInput::FromNetwork(NetworkEvent::Audio(p)) => ControllerRun {
            counts,
            recording_active: recording,
            to_view: seq![ControllerToViewEvent::Audio(p)],
            to_network: seq![],
        },
    }
}

/// What a controller does with a whole batch of inputs, one after another.
pub open spec fn spec_run(
    name: &'static str,
    counts: Seq<(&'static str, usize)>,
    recording: bool,
    inputs: Seq<ControllerInput>,
) -> ControllerRun
    decreases inputs.len(),
{
    if inputs.len() == 0 {
        ControllerRun { counts, recording_active: recording, to_view: seq![], to_network: seq![] }
    } else {
        let first = spec_step(name, counts, recording, inputs[0]);
        let rest = spec_run(name, first.counts, first.recording_active, inputs.skip(1));
        ControllerRun {
            counts: rest.counts,
            recording_active: rest.recording_active,
            to_view: first.to_view + rest.to_view,
            to_network: first.to_network + rest.to_network,
        }
    }
}

/// How many clicks a batch of inputs holds for `target`: local clicks count
/// for the controller's own name, remote clicks for the name they carry.
pub open spec fn spec_clicks_for(
    name: &'static str,
    inputs: Seq<ControllerInput>,
    target: Seq<char>,
) -> nat
    decreases inputs.len(),
{
    if inputs.len() == 0 {
        0
    } else {
        (match inputs[0] {
            ControllerInput::FromView(ViewToControllerEvent::Click) => if name@ == target {
                1nat
            } else {
                0nat
            },
            ControllerInput::FromNetwork(NetworkEvent::Click(n)) => if n@ == target {
                1nat
            } else {
                0nat
            },
            _ => 0nat,
        }) + spec_clicks_for(name, inputs.skip(1), target)
    }
}

/// How many local clicks a batch of inputs holds.
pub open spec fn spec_local_click_count(inputs: Seq<ControllerInput>) -> nat
    decreases inputs.len(),
{
    if inputs.len() == 0 {
        0
    } else {
        (if inputs[0] is FromView && inputs[0]->FromView_0 is Click {
            1nat
        } else {
            0nat
        }) + spec_local_click_count(inputs.skip(1))
    }
}

/// Recording toggles exactly once per local click: over any batch, the flag
/// ends up as it began, flipped once per local click, whatever remote
/// events arrive in between.
pub proof fn lemma_recording_toggles_per_local_click(
    name: &'static str,
    counts: Seq<(&'static str, usize)>,
    recording: bool,
    inputs: Seq<ControllerInput>,
)
    ensures
        spec_run(name, counts, recording, inputs).recording_active == if spec_local_click_count(
            inputs,
        ) % 2 == 0 {
            recording
        } else {
            !recording
        },
    decreases inputs.len(),
{
    if inputs.len() > 0 {
        let first = spec_step(name, counts, recording, inputs[0]);
        lemma_recording_toggles_per_local_click(
            name,
            first.counts,
            first.recording_active,
            inputs.skip(1),
        );
    }
}

/// Click counting, in full: over any batch, each name's count grows by
/// exactly the clicks the batch holds for it — one per local click when the
/// name is the controller's own, one per remote click carrying the name —
/// and never shrinks.
pub proof fn lemma_counts_grow_by_clicks(
    name: &'static str,
    counts: Seq<(&'static str, usize)>,
    recording: bool,
    inputs: Seq<ControllerInput>,
    target: Seq<char>,
)
    requires
        spec_count(counts, target) + spec_clicks_for(name, inputs, target) <= usize::MAX,
    ensures
        spec_count(spec_run(name, counts, recording, inputs).counts, target) == spec_count(
            counts,
            target,
        ) + spec_clicks_for(name, inputs, target),
    decreases inputs.len(),
{
    if inputs.len() > 0 {
        let first = spec_step(name, counts, recording, inputs[0]);
        match inputs[0] {
            ControllerInput::FromView(ViewToControllerEvent::Click) => {
                lemma_bump_count(counts, name, target);
            },
            ControllerInput::FromNetwork(NetworkEvent::Click(n)) => {
                lemma_bump_count(counts, n, target);
            },
            _ => {},
        }
        lemma_counts_grow_by_clicks(
            name,
            first.counts,
            first.recording_active,
            inputs.skip(1),
            target,
        );
    }
}

/// A batch of `n` local clicks, as a controller receives them from its view.
pub open spec fn spec_local_clicks(n: nat) -> Seq<ControllerInput> {
    Seq::new(n, |i: int| ControllerInput::FromView(ViewToControllerEvent::Click))
}

/// Network events, as a controller receives them from the relay.
pub open spec fn spec_from_network(events: Seq<NetworkEvent>) -> Seq<ControllerInput> {
    events.map_values(|e: NetworkEvent| ControllerInput::FromNetwork(e))
}

/// A batch of local clicks puts exactly one click announcement per click on
/// the network, whatever state the controller is in.
proof fn lemma_local_clicks_to_network(
    name: &'static str,
    counts: Seq<(&'static str, usize)>,
    recording: bool,
    n: nat,
)
    ensures
        spec_run(name, counts, recording, spec_local_clicks(n)).to_network == Seq::new(
            n,
            |i: int| NetworkEvent::Click(name),
        ),
    decreases n,
{
    let inputs = spec_local_clicks(n);
    if n == 0 {
        assert(spec_run(name, counts, recording, inputs).to_network =~= Seq::new(
            0,
            |i: int| NetworkEvent::Click(name),
        ));
    } else {
        assert(inputs[0] == ControllerInput::FromView(ViewToControllerEvent::Click));
        assert(inputs.skip(1) =~= spec_local_clicks((n - 1) as nat));
        lemma_local_clicks_to_network(name, spec_bump(counts, name), !recording, (n - 1) as nat);
        assert(spec_run(name, counts, recording, inputs).to_network =~= Seq::new(
            n,
            |i: int| NetworkEvent::Click(name),
        ));
    }
}

/// Receiving `n` click announcements for `sender` raises exactly the
/// sender's count by `n` and leaves every other count alone.
proof fn lemma_network_clicks_counted(
    peer: &'static str,
    counts: Seq<(&'static str, usize)>,
    recording: bool,
    sender: &'static str,
    n: nat,
)
    requires
        spec_count(counts, sender@) + n <= usize::MAX,
    ensures
        ({
            let r = spec_run(
                peer,
                counts,
                recording,
                spec_from_network(Seq::new(n, |i: int| NetworkEvent::Click(sender))),
            );
            &&& spec_count(r.counts, sender@) == spec_count(counts, sender@) + n
            &&& forall|other: Seq<char>|
                other != sender@ ==> spec_count(r.counts, other) == spec_count(counts, other)
        }),
    decreases n,
{
    let inputs = spec_from_network(Seq::new(n, |i: int| NetworkEvent::Click(sender)));
    if n == 0 {
    } else {
        assert(inputs[0] == ControllerInput::FromNetwork(NetworkEvent::Click(sender)));
        let stepped = spec_bump(counts, sender);
        lemma_bump_count(counts, sender, sender@);
        assert forall|other: Seq<char>| other != sender@ implies spec_count(stepped, other)
            == spec_count(counts, other) by {
            lemma_bump_count(counts, sender, other);
        };
        assert(inputs.skip(1) =~= spec_from_network(
            Seq::new((n - 1) as nat, |i: int| NetworkEvent::Click(sender)),
        ));
        lemma_network_clicks_counted(peer, stepped, recording, sender, (n - 1) as nat);
    }
}

/// Clicks are counted faithfully across the wire.  Give one device `n` local
/// clicks: it announces exactly `n` clicks under its name to the network,
/// and the relay delivers them as they were sent.  The peer controller that
/// processes them then records `n` more clicks for the sender, while every
/// other entry it keeps, its own among them, stands exactly as before.
pub proof fn lemma_peer_observes_local_clicks(
    sender: &'static str,
    sender_counts: Seq<(&'static str, usize)>,
    sender_recording: bool,
    peer: &'static str,
    peer_counts: Seq<(&'static str, usize)>,
    peer_recording: bool,
    n: nat,
)
    requires
        spec_count(peer_counts, sender@) + n <= usize::MAX,
    ensures
        ({
            let sent = spec_run(
                sender,
                sender_counts,
                sender_recording,
                spec_local_clicks(n),
            ).to_network;
            let received = spec_run(peer, peer_counts, peer_recording, spec_from_network(sent));
            &&& sent == Seq::new(n, |i: int| NetworkEvent::Click(sender))
            &&& spec_count(received.counts, sender@) == spec_count(peer_counts, sender@) + n
            &&& forall|other: Seq<char>|
                other != sender@ ==> spec_count(received.counts, other) == spec_count(
                    peer_counts,
                    other,
                )
            &&& peer@ != sender@ ==> spec_count(received.counts, peer@) == spec_count(
                peer_counts,
                peer@,
            )
        }),
{
    lemma_local_clicks_to_network(sender, sender_counts, sender_recording, n);
    lemma_network_clicks_counted(peer, peer_counts, peer_recording, sender, n);
}

/// The single-use network attachment point a controller exposes to the
/// composition root.
pub struct NetworkInterface {
    /// The device the attachment point belongs to.
    pub name: &'static str,
}

/// A device's controller.
pub struct Controller {
    name: &'static str,
    count: Vec<(&'static str, usize)>,
    recording_active: bool,
    network_interface: Option<NetworkInterface>,
}

impl Controller {
    /// The device's name.
    pub closed spec fn spec_name(&self) -> &'static str {
        self.name
    }

    /// The click-count entries, in insertion order.
    pub closed spec fn spec_counts(&self) -> Seq<(&'static str, usize)> {
        self.count@
    }

    /// Whether recording is active.
    pub closed spec fn spec_recording_active(&self) -> bool {
        self.recording_active
    }

    /// The network attachment point, while still in place.
    pub closed spec fn spec_interface(&self) -> Option<NetworkInterface> {
        self.network_interface
    }

    /// Whether the network attachment point is still in place.
    pub open spec fn spec_interface_available(&self) -> bool {
        self.spec_interface() is Some
    }

    /// Count entries never repeat a name, and the attachment point, while
    /// in place, carries the device's own name.
    pub open spec fn wf(&self) -> bool {
        &&& forall|i: int, j: int|
            0 <= i < j < self.spec_counts().len() ==> (#[trigger] self.spec_counts()[i]).0@ != (
            #[trigger] self.spec_counts()[j]).0@
        &&& (self.spec_interface() matches Some(iface) ==> iface.name == self.spec_name())
    }

    /// A fresh controller: no clicks counted, not recording, attachment
    /// point in place.
    pub fn new(name: &'static str) -> (c: Controller)
        ensures
            c.wf(),
            c.spec_name() == name,
            c.spec_counts() == Seq::<(&'static str, usize)>::empty(),
            !c.spec_recording_active(),
            c.spec_interface_available(),
    {
        Controller {
            name,
            count: Vec::new(),
            recording_active: false,
            network_interface: Some(NetworkInterface { name }),
        }
    }

    /// The device's name.
    pub fn name(&self) -> (n: &'static str)
        ensures
            n == self.spec_name(),
    {
        self.name
    }

    /// Whether recording is active.
    pub fn recording_active(&self) -> (r: bool)
        ensures
            r == self.spec_recording_active(),
    {
        self.recording_active
    }

    /// The click count recorded for `name`.
    pub fn click_count(&self, name: &'static str) -> (n: usize)
        ensures
            n == spec_count(self.spec_counts(), name@),
    {
        let mut i: usize = 0;
        proof {
            assert(self.count@.skip(0) =~= self.count@);
        }
        while i < self.count.len()
            invariant
                i <= self.count@.len(),
                spec_count(self.count@, name@) == spec_count(self.count@.skip(i as int), name@),
                forall|j: int| 0 <= j < i ==> (#[trigger] self.count@[j]).0@ != name@,
            decreases self.count@.len() - i,
        {
            let (entry_name, entry_count) = self.count[i];
            if entry_name.eq(name) {
                assert(self.count@.skip(i as int)[0] == self.count@[i as int]);
                return entry_count;
            }
            proof {
                assert(self.count@.skip(i as int).skip(1) =~= self.count@.skip(i as int + 1));
            }
            i = i + 1;
        }
        proof {
            assert(self.count@.skip(i as int).len() == 0);
        }
        0
    }

    /// Record one click for `name`: bump its entry, or open one at one.
    fn bump(&mut self, name: &'static str) -> (new_count: usize)
        requires
            old(self).wf(),
            spec_count(old(self).spec_counts(), name@) < usize::MAX,
        ensures
            final(self).wf(),
            final(self).spec_counts() == spec_bump(old(self).spec_counts(), name),
            new_count == spec_count(old(self).spec_counts(), name@) + 1,
            final(self).spec_name() == old(self).spec_name(),
            final(self).spec_recording_active() == old(self).spec_recording_active(),
            final(self).spec_interface_available() == old(self).spec_interface_available(),
    {
        let ghost entries = self.count@;
        let mut i: usize = 0;
        proof {
            assert(entries.skip(0) =~= entries);
            assert(entries.take(0) + spec_bump(entries, name) =~= spec_bump(entries, name));
        }
        while i < self.count.len()
            invariant
                i <= entries.len(),
                *self == *old(self),
                entries == self.count@,
                old(self).wf(),
                spec_count(entries, name@) < usize::MAX,
                spec_count(entries, name@) == spec_count(entries.skip(i as int), name@),
                spec_bump(entries, name) == entries.take(i as int) + spec_bump(
                    entries.skip(i as int),
                    name,
                ),
                forall|j: int| 0 <= j < i ==> (#[trigger] entries[j]).0@ != name@,
            decreases entries.len() - i,
        {
            let (entry_name, entry_count) = self.count[i];
            proof {
                assert(entries.skip(i as int)[0] == entries[i as int]);
            }
            if entry_name.eq(name) {
                proof {
                    assert(spec_count(entries, name@) == entry_count as nat);
                }
                let bumped = entry_count + 1;
                self.count[i] = (entry_name, bumped);
                proof {
                    assert(self.count@ == entries.update(i as int, (entries[i as int].0, bumped)));
                    assert(spec_bump(entries.skip(i as int), name) == seq![
                        (entries[i as int].0, bumped),
                    ] + entries.skip(i as int).skip(1));
                    assert(entries.skip(i as int).skip(1) =~= entries.skip(i as int + 1));
                    assert(self.count@ =~= entries.take(i as int) + (seq![
                        (entries[i as int].0, bumped),
                    ] + entries.skip(i as int + 1)));
                    assert(self.count@ =~= spec_bump(entries, name));
                    // Keys are untouched, so entries still never repeat a name.
                    let updated = self.count@;
                    assert forall|a: int, b: int|
                        0 <= a < b < updated.len() implies (#[trigger] updated[a]).0@ != (
                    #[trigger] updated[b]).0@ by {
                        assert((old(self).spec_counts()[a]).0@ != (old(self).spec_counts()[b]).0@);
                        assert(updated[a].0 == entries[a].0);
                        assert(updated[b].0 == entries[b].0);
                    };
                }
                return bumped;
            }
            proof {
                assert(entries.skip(i as int).skip(1) =~= entries.skip(i as int + 1));
                assert(entries.take(i as int + 1) =~= entries.take(i as int) + seq![
                    entries[i as int],
                ]);
                assert(entries.take(i as int) + (seq![entries[i as int]] + spec_bump(
                    entries.skip(i as int + 1),
                    name,
                )) =~= entries.take(i as int + 1) + spec_bump(entries.skip(i as int + 1), name));
            }
            i = i + 1;
        }
        self.count.push((name, 1));
        proof {
            assert(entries.skip(i as int).len() == 0);
            assert(self.count@ =~= entries.take(i as int) + spec_bump(
                entries.skip(i as int),
                name,
            ));
            assert(self.count@ == entries.push((name, 1usize)));
            let pushed = self.count@;
            assert forall|a: int, b: int|
                0 <= a < b < pushed.len() implies (#[trigger] pushed[a]).0@ != (
            #[trigger] pushed[b]).0@ by {
                if b < entries.len() {
                    assert((old(self).spec_counts()[a]).0@ != (old(self).spec_counts()[b]).0@);
                } else {
                    assert(pushed[b].0@ == name@);
                    assert((entries[a]).0@ != name@);
                }
            };
        }
        1
    }

    /// Handle one event arriving over the network: a click for `name` bumps
    /// that name's count and asks the view to show it; audio is forwarded to
    /// the view for playback, untouched.
    pub fn handle_network(&mut self, event: NetworkEvent) -> (out: ControllerToViewEvent)
        requires
            old(self).wf(),
            event matches NetworkEvent::Click(n) ==> spec_count(old(self).spec_counts(), n@)
                < usize::MAX,
        ensures
            final(self).wf(),
            ({
                let r = spec_step(
                    old(self).spec_name(),
                    old(self).spec_counts(),
                    old(self).spec_recording_active(),
                    ControllerInput::FromNetwork(event),
                );
                &&& final(self).spec_counts() == r.counts
                &&& final(self).spec_recording_active() == r.recording_active
                &&& seq![out] == r.to_view
                &&& out == r.to_view[0]
            }),
            final(self).spec_name() == old(self).spec_name(),
            final(self).spec_interface_available() == old(self).spec_interface_available(),
    {
        let ghost pre = *self;
        let out = match event {
            NetworkEvent::Click(name) => {
                let new_count = self.bump(name);
                ControllerToViewEvent::Show(name, new_count)
            },
            NetworkEvent::Audio(packet) => ControllerToViewEvent::Audio(packet),
        };
        proof {
            let r = spec_step(
                pre.spec_name(),
                pre.spec_counts(),
                pre.spec_recording_active(),
                ControllerInput::FromNetwork(event),
            );
            assert(seq![out] =~= r.to_view);
        }
        out
    }

    /// Handle one event from the device's own view.  A local click is
    /// counted through the same path as a remote one, announced to the peer,
    /// and toggles recording; captured audio is forwarded to the network,
    /// untouched.
    pub fn handle_view(&mut self, event: ViewToControllerEvent) -> (out: (
        Vec<ControllerToViewEvent>,
        Vec<NetworkEvent>,
    ))
        requires
            old(self).wf(),
            event is Click ==> spec_count(old(self).spec_counts(), old(self).spec_name()@)
                < usize::MAX,
        ensures
            final(self).wf(),
            ({
                let r = spec_step(
                    old(self).spec_name(),
                    old(self).spec_counts(),
                    old(self).spec_recording_active(),
                    ControllerInput::FromView(event),
                );
                &&& final(self).spec_counts() == r.counts
                &&& final(self).spec_recording_active() == r.recording_active
                &&& out.0@ == r.to_view
                &&& out.1@ == r.to_network
            }),
            final(self).spec_name() == old(self).spec_name(),
            final(self).spec_interface_available() == old(self).spec_interface_available(),
    {
        let mut to_view: Vec<ControllerToViewEvent> = Vec::new();
        let mut to_network: Vec<NetworkEvent> = Vec::new();
        match event {
            ViewToControllerEvent::Click => {
                // Count the local click through the same path a remote one takes.
                let shown = self.handle_network(NetworkEvent::Click(self.name));
                to_view.push(shown);
                to_network.push(NetworkEvent::Click(self.name));

                // Start or stop recording, as appropriate.
                self.recording_active = !self.recording_active;
                if self.recording_active {
                    to_view.push(ControllerToViewEvent::StartRecording);
                } else {
                    to_view.push(ControllerToViewEvent::StopRecording);
                }
            },
            ViewToControllerEvent::Audio(packet) => {
                to_network.push(NetworkEvent::Audio(packet));
            },
        }
        proof {
            let r = spec_step(
                old(self).spec_name(),
                old(self).spec_counts(),
                old(self).spec_recording_active(),
                ControllerInput::FromView(event),
            );
            assert(to_view@ =~= r.to_view);
            assert(to_network@ =~= r.to_network);
        }
        (to_view, to_network)
    }

    /// Process a whole batch of inputs, already interleaved in the order
    /// they were observed, and gather everything sent each way.
    pub fn run(&mut self, inputs: Vec<ControllerInput>) -> (out: (
        Vec<ControllerToViewEvent>,
        Vec<NetworkEvent>,
    ))
        requires
            old(self).wf(),
            forall|target: Seq<char>|
                spec_count(old(self).spec_counts(), target) + spec_clicks_for(
                    old(self).spec_name(),
                    inputs@,
                    target,
                ) <= usize::MAX,
        ensures
            final(self).wf(),
            ({
                let r = spec_run(
                    old(self).spec_name(),
                    old(self).spec_counts(),
                    old(self).spec_recording_active(),
                    inputs@,
                );
                &&& final(self).spec_counts() == r.counts
                &&& final(self).spec_recording_active() == r.recording_active
                &&& out.0@ == r.to_view
                &&& out.1@ == r.to_network
            }),
            final(self).spec_name() == old(self).spec_name(),
            final(self).spec_interface_available() == old(self).spec_interface_available(),
    {
        let ghost all = inputs@;
        let ghost full = spec_run(
            self.name,
            self.count@,
            self.recording_active,
            all,
        );
        let mut inputs = inputs;
        let mut to_view: Vec<ControllerToViewEvent> = Vec::new();
        let mut to_network: Vec<NetworkEvent> = Vec::new();
        let ghost mut done: int = 0;
        proof {
            assert(all.skip(0) =~= all);
            assert(Seq::<ControllerToViewEvent>::empty() + full.to_view =~= full.to_view);
            assert(Seq::<NetworkEvent>::empty() + full.to_network =~= full.to_network);
        }
        while inputs.len() > 0
            invariant
                self.wf(),
                self.spec_name() == old(self).spec_name(),
                self.spec_interface_available() == old(self).spec_interface_available(),
                0 <= done && done + inputs@.len() == all.len(),
                inputs@ == all.skip(done),
                full == spec_run(old(self).spec_name(), old(self).spec_counts(), old(self).spec_recording_active(), all),
                ({
                    let rest = spec_run(
                        self.spec_name(),
                        self.spec_counts(),
                        self.spec_recording_active(),
                        inputs@,
                    );
                    &&& full.counts == rest.counts
                    &&& full.recording_active == rest.recording_active
                    &&& full.to_view == to_view@ + rest.to_view
                    &&& full.to_network == to_network@ + rest.to_network
                }),
                forall|target: Seq<char>|
                    spec_count(self.spec_counts(), target) + spec_clicks_for(
                        self.spec_name(),
                        inputs@,
                        target,
                    ) <= usize::MAX,
            decreases inputs@.len(),
        {
            let ghost pre = *self;
            let ghost pending = inputs@;
            let event = inputs.remove(0);
            proof {
                assert(pending[0] == event);
                assert(inputs@ =~= pending.skip(1));
                assert(all.skip(done).skip(1) =~= all.skip(done + 1));
            }
            match event {
                ControllerInput::FromView(view_event) => {
                    proof {
                        if view_event is Click {
                            assert(spec_clicks_for(pre.spec_name(), pending, pre.spec_name()@)
                                >= 1);
                        }
                    }
                    let (mut tv, mut tn) = self.handle_view(view_event);
                    to_view.append(&mut tv);
                    to_network.append(&mut tn);
                },
                ControllerInput::FromNetwork(net_event) => {
                    proof {
                        match net_event {
                            NetworkEvent::Click(n) => {
                                assert(spec_clicks_for(pre.spec_name(), pending, n@) >= 1);
                            },
                            _ => {},
                        }
                    }
                    let shown = self.handle_network(net_event);
                    to_view.push(shown);
                },
            }
            proof {
                done = done + 1;
                let stepped = spec_step(
                    pre.spec_name(),
                    pre.spec_counts(),
                    pre.spec_recording_active(),
                    event,
                );
                let rest_pre = spec_run(
                    pre.spec_name(),
                    pre.spec_counts(),
                    pre.spec_recording_active(),
                    pending,
                );
                let rest_post = spec_run(
                    self.spec_name(),
                    self.spec_counts(),
                    self.spec_recording_active(),
                    inputs@,
                );
                assert(self.spec_counts() == stepped.counts);
                assert(rest_pre.to_view =~= stepped.to_view + rest_post.to_view);
                assert(rest_pre.to_network =~= stepped.to_network + rest_post.to_network);
                assert(full.to_view =~= to_view@ + rest_post.to_view);
                assert(full.to_network =~= to_network@ + rest_post.to_network);
                // The overflow budget shrinks with the clicks just consumed.
                assert forall|target: Seq<char>|
                    spec_count(self.spec_counts(), target) + spec_clicks_for(
                        self.spec_name(),
                        inputs@,
                        target,
                    ) <= usize::MAX by {
                    match event {
                        ControllerInput::FromView(ViewToControllerEvent::Click) => {
                            lemma_bump_count(pre.spec_counts(), pre.spec_name(), target);
                        },
                        ControllerInput::FromNetwork(NetworkEvent::Click(n)) => {
                            lemma_bump_count(pre.spec_counts(), n, target);
                        },
                        _ => {},
                    }
                }
            }
        }
        proof {
            assert(all.skip(done).len() == 0);
            let rest = spec_run(
                self.spec_name(),
                self.spec_counts(),
                self.spec_recording_active(),
                inputs@,
            );
            assert(full.to_view =~= to_view@);
            assert(full.to_network =~= to_network@);
        }
        (to_view, to_network)
    }

    /// Hand out the single-use network attachment point.  The first call
    /// takes it; any later call finds it gone and gets nothing.
    pub fn network_interface(&mut self) -> (r: Option<NetworkInterface>)
        requires
            old(self).wf(),
        ensures
            final(self).wf(),
            old(self).spec_interface_available() ==> (r matches Some(iface) && iface.name == old(
                self,
            ).spec_name()),
            !old(self).spec_interface_available() ==> r is None,
            !final(self).spec_interface_available(),
            final(self).spec_name() == old(self).spec_name(),
            final(self).spec_counts() == old(self).spec_counts(),
            final(self).spec_recording_active() == old(self).spec_recording_active(),
    {
        let r = self.network_interface.take();
        proof {
            assert(self.spec_counts() == old(self).spec_counts());
            assert forall|i: int, j: int|
                0 <= i < j < self.spec_counts().len() implies (#[trigger] self.spec_counts()[i]).0@
                != (#[trigger] self.spec_counts()[j]).0@ by {
                assert((old(self).spec_counts()[i]).0@ != (old(self).spec_counts()[j]).0@);
            };
        }
        r
    }
}

} // verus!
