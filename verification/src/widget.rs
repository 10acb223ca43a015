//! The widget's discrete state: the events handed to the guest each turn,
//! the commands the guest sends back, and the frame budget of a bounded run.

use vstd::prelude::*;

verus! {

use crate::behavior::{TrackingMode, tracking_from_name_spec};

/// An input event delivered to the guest on its next turn.
#[derive(Clone, Copy, Debug, PartialEq, Eq, Structural)]
pub enum TickEvent {
    Click,
    HoverStart,
    HoverEnd,
}

/// The name of an event, as the guest sees it in its `type` field.
pub open spec fn tick_event_name_spec(e: TickEvent) -> Seq<char> {
    match e {
        TickEvent::Click => "click"@,
        TickEvent::HoverStart => "hoverStart"@,
        TickEvent::HoverEnd => "hoverEnd"@,
    }
}

impl TickEvent {
    /// The event's name: `"click"`, `"hoverStart"` or `"hoverEnd"`.
    pub fn name(self) -> (s: &'static str)
        ensures
            s@ == tick_event_name_spec(self),
            self == TickEvent::Click ==> s@ == "click"@,
            self == TickEvent::HoverStart ==> s@ == "hoverStart"@,
            self == TickEvent::HoverEnd ==> s@ == "hoverEnd"@,
    {
        match self {
            TickEvent::Click => "click",
            TickEvent::HoverStart => "hoverStart",
            TickEvent::HoverEnd => "hoverEnd",
        }
    }
}

/// The hover event that reports the cursor's arrival (`true`) or departure.
pub open spec fn hover_event(hovered: bool) -> TickEvent {
    if hovered {
        TickEvent::HoverStart
    } else {
        TickEvent::HoverEnd
    }
}

/// The events queued by observing `now` when the cursor was `before`: one
/// hover event on a change, none otherwise.
pub open spec fn hover_step(before: bool, now: bool) -> Seq<TickEvent> {
    if before != now {
        seq![hover_event(now)]
    } else {
        seq![]
    }
}

/// Whether the cursor is over the widget after observations `obs`, starting
/// from `start`.
pub open spec fn hover_after(start: bool, obs: Seq<bool>) -> bool {
    if obs.len() == 0 {
        start
    } else {
        obs.last()
    }
}

/// Every event queued by a sequence of cursor observations, in order.
pub open spec fn hover_events(start: bool, obs: Seq<bool>) -> Seq<TickEvent>
    decreases obs.len(),
{
    if obs.len() == 0 {
        seq![]
    } else {
        hover_events(start, obs.drop_last()) + hover_step(
            hover_after(start, obs.drop_last()),
            obs.last(),
        )
    }
}

/// Tracks whether the cursor is over the widget, and queues the hover
/// events for the guest's next turn.
pub struct HoverTracker {
    pub hovered: bool,
    pub pending: Vec<TickEvent>,
}

impl HoverTracker {
    /// No cursor over the widget, nothing queued.
    pub fn new() -> (h: HoverTracker)
        ensures
            !h.hovered,
            h.pending@ == Seq::<TickEvent>::empty(),
    {
        HoverTracker { hovered: false, pending: Vec::new() }
    }

    /// Observes whether the cursor is over the widget this frame; a change
    /// queues `HoverStart` (arrival) or `HoverEnd` (departure).
    pub fn observe(&mut self, hovered: bool)
        ensures
            final(self).hovered == hovered,
            final(self).pending@ == old(self).pending@ + hover_step(old(self).hovered, hovered),
            hovered != old(self).hovered ==> final(self).pending@ == old(self).pending@.push(
                if hovered {
                    TickEvent::HoverStart
                } else {
                    TickEvent::HoverEnd
                },
            ),
            hovered == old(self).hovered ==> final(self).pending@ == old(self).pending@,
    {
        if hovered != self.hovered {
            self.hovered = hovered;
            let e = if hovered {
                TickEvent::HoverStart
            } else {
                TickEvent::HoverEnd
            };
            self.pending.push(e);
            assert(final(self).pending@ =~= old(self).pending@ + hover_step(old(self).hovered, hovered));
        } else {
            assert(self.pending@ =~= old(self).pending@ + hover_step(old(self).hovered, hovered));
        }
    }

    /// Hands over the events of one guest turn: everything queued since the
    /// last turn, then `Click` when the button was pressed. The queue is
    /// left empty.
    pub fn take_events(&mut self, clicked: bool) -> (events: Vec<TickEvent>)
        ensures
            events@ == (if clicked {
                old(self).pending@.push(TickEvent::Click)
            } else {
                old(self).pending@
            }),
            final(self).pending@ == Seq::<TickEvent>::empty(),
            final(self).hovered == old(self).hovered,
    {
        let mut events = Vec::new();
        std::mem::swap(&mut events, &mut self.pending);
        if clicked {
            events.push(TickEvent::Click);
        }
        events
    }
}

/// Hover events alternate: starting from `start`, the `i`-th event reports
/// an arrival exactly when `i` is even and the cursor started outside, so no
/// two arrivals (or departures) come in a row; the last event reports where
/// the cursor is now, and an even number of events means it is where it
/// started.
pub proof fn lemma_hover_events_alternate(start: bool, obs: Seq<bool>)
    ensures
        forall|i: int|
            0 <= i < hover_events(start, obs).len() ==> #[trigger] hover_events(start, obs)[i]
                == hover_event(if i % 2 == 0 { !start } else { start }),
        hover_events(start, obs).len() > 0 ==> hover_events(start, obs).last() == hover_event(
            hover_after(start, obs),
        ),
        (hover_events(start, obs).len() % 2 == 0) == (hover_after(start, obs) == start),
    decreases obs.len(),
{
    if obs.len() > 0 {
        let prev = obs.drop_last();
        lemma_hover_events_alternate(start, prev);
        let before = hover_after(start, prev);
        let ev = hover_events(start, prev);
        assert(hover_events(start, obs) == ev + hover_step(before, obs.last()));
        if before != obs.last() {
            let n = ev.len() as int;
            assert(hover_events(start, obs)[n] == hover_event(obs.last()));
            assert forall|i: int| 0 <= i < hover_events(start, obs).len() implies #[trigger] hover_events(start, obs)[i]
                == hover_event(if i % 2 == 0 { !start } else { start }) by {
                if i < n {
                    assert(hover_events(start, obs)[i] == ev[i]);
                }
            }
        } else {
            assert(hover_events(start, obs) =~= ev);
        }
    }
}

/// The position of the first of `names` that equals `name`, searching from
/// `i` on.
pub open spec fn position_from(names: Seq<Seq<char>>, name: Seq<char>, i: int) -> Option<int>
    decreases names.len() - i,
{
    if i < 0 || i >= names.len() {
        None
    } else if names[i] == name {
        Some(i)
    } else {
        position_from(names, name, i + 1)
    }
}

/// The position of the first of `names` that equals `name`.
pub open spec fn position_of(names: Seq<Seq<char>>, name: Seq<char>) -> Option<int> {
    position_from(names, name, 0)
}

/// The characters of each string.
pub open spec fn names_view(names: Seq<String>) -> Seq<Seq<char>> {
    names.map_values(|s: String| s@)
}

pub proof fn lemma_position_from(names: Seq<Seq<char>>, name: Seq<char>, i: int)
    requires
        0 <= i,
    ensures
        position_from(names, name, i) matches Some(p) ==> i <= p < names.len() && names[p] == name
            && forall|j: int| i <= j < p ==> names[j] != name,
        position_from(names, name, i) is None ==> forall|j: int|
            i <= j < names.len() ==> names[j] != name,
    decreases names.len() - i,
{
    if i < names.len() && names[i] != name {
        lemma_position_from(names, name, i + 1);
    }
}

/// The first of `names` that equals `name`, if any: its position, with no
/// equal name before it; `None` when no name equals it.
pub fn find_name(names: &Vec<String>, name: &String) -> (r: Option<usize>)
    ensures
        r matches Some(i) ==> position_of(names_view(names@), name@) == Some(i as int),
        r is None ==> position_of(names_view(names@), name@) is None,
        r matches Some(i) ==> i < names.len() && names@[i as int]@ == name@,
        r matches Some(i) ==> forall|j: int| 0 <= j < i ==> (#[trigger] names@[j])@ != name@,
        r is None ==> forall|j: int| 0 <= j < names.len() ==> names@[j]@ != name@,
{
    let ghost nv = names_view(names@);
    proof {
        lemma_position_from(nv, name@, 0);
    }
    let mut i: usize = 0;
    while i < names.len()
        invariant
            i <= names.len(),
            nv == names_view(names@),
            position_from(nv, name@, i as int) == position_of(nv, name@),
            forall|j: int| 0 <= j < i ==> names@[j]@ != name@,
        decreases names.len() - i,
    {
        assert(nv[i as int] == names@[i as int]@);
        if names[i] == *name {
            return Some(i);
        }
        i = i + 1;
    }
    None
}

/// The positions of every one of `names` that equals `name`, in increasing
/// order.
pub fn positions_named(names: &Vec<String>, name: &str) -> (r: Vec<usize>)
    ensures
        forall|k: int| 0 <= k < r.len() ==> #[trigger] r@[k] < names.len() && names@[r@[k] as int]@ == name@,
        forall|k: int, l: int| 0 <= k < l < r.len() ==> r@[k] < r@[l],
        forall|j: int| 0 <= j < names.len() && names@[j]@ == name@ ==> r@.contains(j as usize),
{
    let mut r: Vec<usize> = Vec::new();
    let mut i: usize = 0;
    while i < names.len()
        invariant
            i <= names.len(),
            forall|k: int| 0 <= k < r.len() ==> #[trigger] r@[k] < i && names@[r@[k] as int]@ == name@,
            forall|k: int, l: int| 0 <= k < l < r.len() ==> r@[k] < r@[l],
            forall|j: int| 0 <= j < i && names@[j]@ == name@ ==> r@.contains(j as usize),
        decreases names.len() - i,
    {
        if crate::behavior::str_eq(names[i].as_str(), name) {
            let ghost before = r@;
            r.push(i);
            proof {
                assert forall|j: int| 0 <= j < i + 1 && names@[j]@ == name@ implies r@.contains(
                    j as usize,
                ) by {
                    if j < i {
                        let k = choose|k: int| 0 <= k < before.len() && before[k] == j as usize;
                        assert(r@[k] == j as usize);
                    } else {
                        assert(r@[before.len() as int] == j as usize);
                    }
                }
            }
        }
        i = i + 1;
    }
    r
}

/// A command the guest sends for the next tick. Weights and rates are
/// carried as the bit patterns of their `f32` values: this logic only passes
/// them on.
pub enum Command {
    /// Select a tracking mode by name.
    SetTracking(String),
    /// Set a named expression to a weight (the weight's `f32` bits).
    SetExpression(String, u32),
    /// Start the named clip from its beginning.
    PlayClip { name: String, looping: bool },
    /// Change the frame-rate cap (the cap's `f32` bits).
    SetMaxFps(u32),
    /// End the run.
    Quit,
}

/// What the host still has to do after a command was applied to the
/// controls.
#[derive(Debug)]
pub enum CommandEffect {
    /// Nothing beyond the change to the controls.
    Applied,
    /// Set the named expression's morph weights to this weight (its `f32`
    /// bits).
    Expression { name: String, weight_bits: u32 },
    /// The selected clip starts over: its clock goes back to zero.
    ClipRestarted,
    /// No clip has this name; nothing changed.
    UnknownClip(String),
    /// The frame rate is fixed at launch; nothing changed.
    MaxFpsFixed,
}

/// The settings the guest's commands steer.
#[derive(Clone, Copy, Debug, PartialEq, Eq, Structural)]
pub struct PlaybackControls {
    pub tracking: TrackingMode,
    pub clip_index: usize,
    pub clip_looping: bool,
    pub exit: bool,
}

/// The controls after one command, with the clips' names `names`.
pub open spec fn apply_spec(c: PlaybackControls, cmd: Command, names: Seq<Seq<char>>) -> PlaybackControls {
    match cmd {
        Command::SetTracking(mode) => PlaybackControls {
            tracking: tracking_from_name_spec(mode@),
            ..c
        },
        Command::PlayClip { name, looping } => match position_of(names, name@) {
            Some(i) => PlaybackControls { clip_index: i as usize, clip_looping: looping, ..c },
            None => c,
        },
        Command::Quit => PlaybackControls { exit: true, ..c },
        _ => c,
    }
}

/// What is left to the host after one command, with the clips' names
/// `names`.
pub open spec fn effect_spec(cmd: Command, names: Seq<Seq<char>>) -> CommandEffect {
    match cmd {
        Command::SetExpression(name, w) => CommandEffect::Expression { name, weight_bits: w },
        Command::PlayClip { name, looping } => match position_of(names, name@) {
            Some(i) => CommandEffect::ClipRestarted,
            None => CommandEffect::UnknownClip(name),
        },
        Command::SetMaxFps(_) => CommandEffect::MaxFpsFixed,
        _ => CommandEffect::Applied,
    }
}

/// The controls after a sequence of commands, applied in order.
pub open spec fn apply_all_spec(
    c: PlaybackControls,
    cmds: Seq<Command>,
    names: Seq<Seq<char>>,
) -> PlaybackControls
    decreases cmds.len(),
{
    if cmds.len() == 0 {
        c
    } else {
        apply_spec(apply_all_spec(c, cmds.drop_last(), names), cmds.last(), names)
    }
}

impl PlaybackControls {
    /// Idle tracking, the first clip, looping, no exit requested.
    pub fn new() -> (c: PlaybackControls)
        ensures
            c.tracking == TrackingMode::Idle,
            c.clip_index == 0,
            c.clip_looping,
            !c.exit,
    {
        PlaybackControls {
            tracking: TrackingMode::Idle,
            clip_index: 0,
            clip_looping: true,
            exit: false,
        }
    }

    /// Applies one command: `SetTracking` selects the named mode;
    /// `PlayClip` selects the first clip of that name with its looping flag
    /// and restarts it, or changes nothing when no clip has the name;
    /// `Quit` requests the exit; `SetExpression` and `SetMaxFps` are left to
    /// the host.
    pub fn apply(&mut self, cmd: &Command, clip_names: &Vec<String>) -> (effect: CommandEffect)
        ensures
            *final(self) == apply_spec(*old(self), *cmd, names_view(clip_names@)),
            effect == effect_spec(*cmd, names_view(clip_names@)),
            cmd matches Command::SetTracking(m) ==> final(self).tracking == (if m@ == "mouse"@ {
                TrackingMode::Mouse
            } else {
                TrackingMode::Idle
            }) && final(self).clip_index == old(self).clip_index && final(self).clip_looping
                == old(self).clip_looping && final(self).exit == old(self).exit,
            cmd matches Command::SetExpression(n, w) ==> *final(self) == *old(self) && (effect
                matches CommandEffect::Expression { name, weight_bits } && name == n
                && weight_bits == w),
            cmd matches Command::SetMaxFps(_) ==> *final(self) == *old(self) && effect is MaxFpsFixed,
            cmd is Quit ==> final(self).exit && final(self).tracking == old(self).tracking
                && final(self).clip_index == old(self).clip_index && final(self).clip_looping
                == old(self).clip_looping,
            match *cmd {
                Command::PlayClip { name, looping } => if exists|j: int|
                    0 <= j < clip_names.len() && (#[trigger] clip_names@[j])@ == name@ {
                    &&& final(self).clip_index < clip_names.len()
                    &&& clip_names@[final(self).clip_index as int]@ == name@
                    &&& forall|j: int|
                        0 <= j < final(self).clip_index ==> (#[trigger] clip_names@[j])@ != name@
                    &&& final(self).clip_looping == looping
                    &&& final(self).tracking == old(self).tracking
                    &&& final(self).exit == old(self).exit
                    &&& effect is ClipRestarted
                } else {
                    &&& *final(self) == *old(self)
                    &&& (effect matches CommandEffect::UnknownClip(n) && n == name)
                },
                _ => true,
            },
            old(self).exit ==> final(self).exit,
    {
        match cmd {
            Command::SetTracking(mode) => {
                self.tracking = TrackingMode::from_name(mode.as_str());
                CommandEffect::Applied
            },
            Command::SetExpression(name, w) => CommandEffect::Expression {
                name: name.clone(),
                weight_bits: *w,
            },
            Command::PlayClip { name, looping } => {
                match find_name(clip_names, name) {
                    Some(i) => {
                        self.clip_index = i;
                        self.clip_looping = *looping;
                        CommandEffect::ClipRestarted
                    },
                    None => CommandEffect::UnknownClip(name.clone()),
                }
            },
            Command::SetMaxFps(_) => CommandEffect::MaxFpsFixed,
            Command::Quit => {
                self.exit = true;
                CommandEffect::Applied
            },
        }
    }

    /// Applies commands in order, returning what each leaves to the host.
    pub fn apply_all(&mut self, cmds: &Vec<Command>, clip_names: &Vec<String>) -> (effects: Vec<
        CommandEffect,
    >)
        ensures
            *final(self) == apply_all_spec(*old(self), cmds@, names_view(clip_names@)),
            effects.len() == cmds.len(),
            forall|i: int|
                0 <= i < cmds.len() ==> #[trigger] effects@[i] == effect_spec(
                    cmds@[i],
                    names_view(clip_names@),
                ),
    {
        let mut effects: Vec<CommandEffect> = Vec::new();
        let mut i: usize = 0;
        while i < cmds.len()
            invariant
                i <= cmds.len(),
                effects.len() == i,
                *self == apply_all_spec(*old(self), cmds@.take(i as int), names_view(clip_names@)),
                forall|j: int|
                    0 <= j < i ==> #[trigger] effects@[j] == effect_spec(
                        cmds@[j],
                        names_view(clip_names@),
                    ),
            decreases cmds.len() - i,
        {
            let e = self.apply(&cmds[i], clip_names);
            effects.push(e);
            proof {
                assert(cmds@.take(i + 1).drop_last() =~= cmds@.take(i as int));
            }
            i = i + 1;
        }
        assert(cmds@.take(cmds.len() as int) =~= cmds@);
        effects
    }
}

/// An exit, once requested, stays requested, whatever commands follow.
pub proof fn lemma_exit_is_final(c: PlaybackControls, cmds: Seq<Command>, names: Seq<Seq<char>>)
    requires
        c.exit,
    ensures
        apply_all_spec(c, cmds, names).exit,
    decreases cmds.len(),
{
    if cmds.len() > 0 {
        lemma_exit_is_final(c, cmds.drop_last(), names);
    }
}

/// A sequence of commands that holds `Quit` anywhere ends with the exit
/// requested.
pub proof fn lemma_quit_requests_exit(
    c: PlaybackControls,
    cmds: Seq<Command>,
    names: Seq<Seq<char>>,
    i: int,
)
    requires
        0 <= i < cmds.len(),
        cmds[i] is Quit,
    ensures
        apply_all_spec(c, cmds, names).exit,
    decreases cmds.len(),
{
    if i == cmds.len() - 1 {
    } else {
        lemma_quit_requests_exit(c, cmds.drop_last(), names, i);
        let prefix = apply_all_spec(c, cmds.drop_last(), names);
        lemma_exit_is_final(prefix, seq![cmds.last()], names);
        assert(seq![cmds.last()].drop_last() =~= Seq::<Command>::empty());
    }
}

/// After `PlayClip` with a name that some clip has, the selected clip is
/// one with that name, and its looping flag is the command's.
pub proof fn lemma_play_clip_selects_named(
    c: PlaybackControls,
    name: String,
    looping: bool,
    names: Seq<Seq<char>>,
)
    requires
        names.len() <= usize::MAX,
        exists|j: int| 0 <= j < names.len() && names[j] == name@,
    ensures
        ({
            let after = apply_spec(c, Command::PlayClip { name, looping }, names);
            &&& after.clip_index < names.len()
            &&& names[after.clip_index as int] == name@
            &&& after.clip_looping == looping
            &&& after.tracking == c.tracking
            &&& after.exit == c.exit
        }),
{
    lemma_position_from(names, name@, 0);
    let j = choose|j: int| 0 <= j < names.len() && names[j] == name@;
    assert(position_of(names, name@) is Some);
}

/// A filesystem path, carried through as it is.
#[verifier::external_type_specification]
#[verifier::external_body]
pub struct ExPathBuf(std::path::PathBuf);

/// What the widget loads and how it runs.
pub struct WidgetConfig {
    pub model_path: std::path::PathBuf,
    pub vrma_path: std::path::PathBuf,
    pub bundle_path: std::path::PathBuf,
    pub size: (u32, u32),
    /// Render this many frames, then exit.
    pub frames: Option<u32>,
}

/// Selecting a tracking mode by name: `"mouse"` selects cursor tracking and
/// any other name idle saccades, whatever was selected before; so naming a
/// mode selects that mode. Nothing else changes.
pub proof fn lemma_set_tracking_by_name(
    c: PlaybackControls,
    mode: String,
    names: Seq<Seq<char>>,
)
    ensures
        mode@ == "mouse"@ ==> apply_spec(c, Command::SetTracking(mode), names).tracking
            == TrackingMode::Mouse,
        mode@ != "mouse"@ ==> apply_spec(c, Command::SetTracking(mode), names).tracking
            == TrackingMode::Idle,
        mode@ == "none"@ ==> apply_spec(c, Command::SetTracking(mode), names).tracking
            == TrackingMode::Idle,
        apply_spec(c, Command::SetTracking(mode), names).clip_index == c.clip_index,
        apply_spec(c, Command::SetTracking(mode), names).clip_looping == c.clip_looping,
        apply_spec(c, Command::SetTracking(mode), names).exit == c.exit,
{
    reveal_strlit("none");
    reveal_strlit("mouse");
    if mode@ == "none"@ {
        assert("none"@[0] != "mouse"@[0]);
    }
}

/// Counts the frames a bounded run has rendered.
pub struct FrameCounter {
    pub rendered: u32,
}

impl FrameCounter {
    /// No frame rendered yet.
    pub fn new() -> (f: FrameCounter)
        ensures
            f.rendered == 0,
    {
        FrameCounter { rendered: 0 }
    }

    /// Counts one rendered frame; the run is over once the count reaches the
    /// limit, when there is one.
    pub fn record(&mut self, limit: Option<u32>) -> (done: bool)
        requires
            old(self).rendered < u32::MAX,
        ensures
            final(self).rendered == old(self).rendered + 1,
            done == (limit matches Some(n) && final(self).rendered >= n),
    {
        self.rendered = self.rendered + 1;
        match limit {
            Some(n) => self.rendered >= n,
            None => false,
        }
    }
}

} // verus!
