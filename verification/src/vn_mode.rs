//! The visual novel: who speaks, what is said, and who stands on stage.

use crate::knights::name_of;
use crate::knights::Knight;
use vstd::prelude::*;
use vstd::string::*;

verus! {

/// The side of the stage.
#[derive(Clone, Copy, Debug, PartialEq, Eq, Structural)]
pub enum Side {
    Left,
    Right,
}

/// What happens to a speaker's portrait.
#[derive(Clone, Copy, Debug, PartialEq, Eq, Structural)]
pub enum SpeakerEvent {
    Appear(Side),
    Hide,
}

/// Someone who speaks.
#[derive(Clone, Debug, PartialEq, Hash, Eq)]
pub struct Speaker {
    name: String,
}

impl View for Speaker {
    type V = Seq<char>;

    closed spec fn view(&self) -> Seq<char> {
        self.name@
    }
}

/// One step of a scene.
#[derive(Clone, Debug, PartialEq)]
pub enum VNEvent {
    Dialogue(Speaker, String),
    ChangeSpeakerDisplay(Speaker, SpeakerEvent),
    ChangeBackground(String),
}

/// One step of a scene as contracts see it: texts as their characters.
pub enum EventView {
    Dialogue(Seq<char>, Seq<char>),
    ChangeSpeakerDisplay(Seq<char>, SpeakerEvent),
    ChangeBackground(Seq<char>),
}

impl View for VNEvent {
    type V = EventView;

    open spec fn view(&self) -> EventView {
        match *self {
            VNEvent::Dialogue(speaker, line) => EventView::Dialogue(speaker@, line@),
            VNEvent::ChangeSpeakerDisplay(speaker, event) => EventView::ChangeSpeakerDisplay(
                speaker@,
                event,
            ),
            VNEvent::ChangeBackground(key) => EventView::ChangeBackground(key@),
        }
    }
}

/// Whether two texts are the same.
pub fn same_text(a: &str, b: &str) -> (r: bool)
    ensures
        r == (a@ == b@),
{
    let x = String::from_str(a);
    let y = String::from_str(b);
    x == y
}

impl Speaker {
    /// The speaker by the given name.
    pub fn named(name: &str) -> (s: Self)
        ensures
            s@ == name@,
    {
        Self { name: String::from_str(name) }
    }

    /// The speaker's name.
    pub fn name(&self) -> (r: &str)
        ensures
            r@ == self@,
    {
        self.name.as_str()
    }

    /// A copy of the speaker.
    pub fn duplicate(&self) -> (s: Self)
        ensures
            s == *self,
    {
        Self { name: self.name.clone() }
    }

    /// The knight as a speaker, under the name he is known by.
    pub fn from_knight(knight: Knight) -> (s: Self)
        ensures
            s@ == name_of(knight),
    {
        Self { name: String::from_str(knight.get_name()) }
    }

    /// The player.
    pub fn player() -> (s: Self)
        ensures
            s@ == "Me"@,
    {
        Self { name: String::from_str("Me") }
    }

    /// A speaker who has not been introduced.
    pub fn unknown() -> (s: Self)
        ensures
            s@ == "???"@,
    {
        Self { name: String::from_str("???") }
    }

    /// The narrator.
    pub fn narrator() -> (s: Self)
        ensures
            s@ == "Narrator"@,
    {
        Self { name: String::from_str("Narrator") }
    }

    /// The name of the speaker that a script calls `key`, if it calls anyone
    /// so.
    pub open spec fn name_for_key(key: Seq<char>) -> Option<Seq<char>> {
        if key == "PLAYER"@ {
            Some("Me"@)
        } else if key == "NARRATOR"@ {
            Some("Narrator"@)
        } else if key == "AVERAGE_KNIGHT"@ {
            Some(name_of(Knight::Normal))
        } else {
            None
        }
    }

    /// The speaker that a script calls `key`. Any other key is refused with
    /// a note.
    pub fn from_key(key: &str) -> (r: Result<Self, String>)
        ensures
            match Self::name_for_key(key@) {
                Some(name) => r is Ok && r->Ok_0@ == name,
                None => r is Err && r->Err_0@ == "Unrecognized Character Code: {key}"@,
            },
    {
        if same_text(key, "PLAYER") {
            Ok(Self::player())
        } else if same_text(key, "NARRATOR") {
            Ok(Self::narrator())
        } else if same_text(key, "AVERAGE_KNIGHT") {
            Ok(Self::from_knight(Knight::Normal))
        } else {
            Err(String::from_str("Unrecognized Character Code: {key}"))
        }
    }
}

impl VNEvent {
    /// A copy of the event.
    pub fn duplicate(&self) -> (e: Self)
        ensures
            e == *self,
    {
        match self {
            VNEvent::Dialogue(speaker, line) => VNEvent::Dialogue(
                speaker.duplicate(),
                line.clone(),
            ),
            VNEvent::ChangeSpeakerDisplay(speaker, event) => VNEvent::ChangeSpeakerDisplay(
                speaker.duplicate(),
                *event,
            ),
            VNEvent::ChangeBackground(key) => VNEvent::ChangeBackground(key.clone()),
        }
    }
}

/// A speaker on stage.
#[derive(Clone, Debug)]
pub struct DisplayedSpeaker {
    pub speaker: Speaker,
    pub side: Side,
}

/// A speaker on stage as contracts see him: his name and his side.
pub struct Shown {
    pub name: Seq<char>,
    pub side: Side,
}

/// The speakers on stage as contracts see them.
pub open spec fn shown_of(displayed: Seq<DisplayedSpeaker>) -> Seq<Shown> {
    displayed.map_values(|d: DisplayedSpeaker| Shown { name: d.speaker@, side: d.side })
}

/// The place of the first of the first `n` speakers on stage who goes by
/// `name`.
pub open spec fn first_shown(shown: Seq<Shown>, name: Seq<char>, n: nat) -> Option<int>
    decreases n,
{
    if n == 0 {
        None
    } else {
        match first_shown(shown, name, (n - 1) as nat) {
            Some(i) => Some(i),
            None => if shown[n - 1].name == name {
                Some(n - 1)
            } else {
                None
            },
        }
    }
}

/// The stage after a speaker appeared: one who is on stage already changes
/// sides where he stands; anyone else joins at the end.
pub open spec fn with_speaker(shown: Seq<Shown>, name: Seq<char>, side: Side) -> Seq<Shown> {
    match first_shown(shown, name, shown.len()) {
        Some(i) => shown.update(i, Shown { name: shown[i].name, side }),
        None => shown.push(Shown { name, side }),
    }
}

/// The first `n` speakers on stage without those who go by `name`.
pub open spec fn without_speaker(shown: Seq<Shown>, name: Seq<char>, n: nat) -> Seq<Shown>
    decreases n,
{
    if n == 0 {
        seq![]
    } else if shown[n - 1].name == name {
        without_speaker(shown, name, (n - 1) as nat)
    } else {
        without_speaker(shown, name, (n - 1) as nat).push(shown[n - 1])
    }
}

proof fn lemma_first_shown_stays(shown: Seq<Shown>, name: Seq<char>, n: nat, m: nat)
    requires
        n <= m,
        first_shown(shown, name, n) is Some,
    ensures
        first_shown(shown, name, m) == first_shown(shown, name, n),
    decreases m,
{
    if m > n {
        lemma_first_shown_stays(shown, name, n, (m - 1) as nat);
    }
}

/// A scene: its events, the one it has come to, and who stands on stage.
pub struct VNScene {
    current_event: usize,
    events: Vec<VNEvent>,
    displayed_speakers: Vec<DisplayedSpeaker>,
}

impl VNScene {
    /// The events of the scene.
    pub closed spec fn events(&self) -> Seq<VNEvent> {
        self.events@
    }

    /// The number of the event the scene has come to.
    pub closed spec fn position(&self) -> nat {
        self.current_event as nat
    }

    /// Who stands on stage, in the order of their arrival.
    pub closed spec fn stage(&self) -> Seq<Shown> {
        shown_of(self.displayed_speakers@)
    }

    /// The scene never points past its last event.
    pub closed spec fn wf(&self) -> bool {
        self.events@.len() == 0 || self.current_event < self.events@.len()
    }

    /// A scene without events and with an empty stage.
    pub fn new() -> (s: Self)
        ensures
            s.wf(),
            s.events() == Seq::<VNEvent>::empty(),
            s.position() == 0,
            s.stage() == Seq::<Shown>::empty(),
    {
        let s = Self { current_event: 0, events: Vec::new(), displayed_speakers: Vec::new() };
        assert(s.stage() =~= Seq::<Shown>::empty());
        s
    }

    /// A scene that plays `events` from the first, on an empty stage.
    pub fn from_events(events: Vec<VNEvent>) -> (s: Self)
        ensures
            s.wf(),
            s.events() == events@,
            s.position() == 0,
            s.stage() == Seq::<Shown>::empty(),
    {
        let s = Self { current_event: 0, events, displayed_speakers: Vec::new() };
        assert(s.stage() =~= Seq::<Shown>::empty());
        s
    }

    /// The event the scene has come to; none where the scene has no events.
    pub fn current(&self) -> (r: Option<VNEvent>)
        requires
            self.wf(),
        ensures
            self.events().len() == 0 ==> r is None,
            self.events().len() > 0 ==> r == Some(self.events()[self.position() as int]),
    {
        if self.events.len() == 0 {
            return None;
        }
        Some(self.events[self.current_event].duplicate())
    }

    /// Moves on to the next event and hands it out. At the last event, and
    /// in a scene without events, the scene stays where it is and hands out
    /// nothing.
    pub fn next(&mut self) -> (r: Option<VNEvent>)
        requires
            old(self).wf(),
        ensures
            final(self).wf(),
            final(self).events() == old(self).events(),
            final(self).stage() == old(self).stage(),
            old(self).position() + 1 < old(self).events().len() ==> final(self).position() == old(
                self,
            ).position() + 1 && r == Some(old(self).events()[old(self).position() as int + 1]),
            old(self).position() + 1 >= old(self).events().len() ==> final(self).position() == old(
                self,
            ).position() && r is None,
    {
        if self.events.len() == 0 || self.current_event == self.events.len() - 1 {
            return None;
        }
        self.current_event += 1;
        Some(self.events[self.current_event].duplicate())
    }

    /// Lets `speaker` appear on `side`. A speaker who is on stage already
    /// changes sides where he stands; anyone else joins at the end.
    pub fn show_speaker(&mut self, speaker: Speaker, side: Side)
        ensures
            final(self).stage() == with_speaker(old(self).stage(), speaker@, side),
            final(self).events() == old(self).events(),
            final(self).position() == old(self).position(),
            final(self).wf() == old(self).wf(),
    {
        let ghost stage = self.stage();
        let mut i: usize = 0;
        while i < self.displayed_speakers.len()
            invariant
                i <= self.displayed_speakers@.len(),
                self.displayed_speakers@ == old(self).displayed_speakers@,
                self.events@ == old(self).events@,
                self.current_event == old(self).current_event,
                stage == shown_of(self.displayed_speakers@),
                first_shown(stage, speaker@, i as nat) is None,
            decreases self.displayed_speakers@.len() - i,
        {
            if same_text(self.displayed_speakers[i].speaker.name(), speaker.name()) {
                proof {
                    assert(stage[i as int].name == speaker@);
                    lemma_first_shown_stays(stage, speaker@, (i + 1) as nat, stage.len());
                }
                let existing = self.displayed_speakers[i].speaker.duplicate();
                self.displayed_speakers.set(i, DisplayedSpeaker { speaker: existing, side });
                assert(self.stage() =~= with_speaker(stage, speaker@, side));
                return ;
            }
            i += 1;
        }
        self.displayed_speakers.push(DisplayedSpeaker { speaker, side });
        assert(self.stage() =~= with_speaker(stage, speaker@, side));
    }

    /// Takes everyone who goes by the name of `speaker` off the stage. The
    /// others keep their order.
    pub fn remove_speaker(&mut self, speaker: Speaker)
        ensures
            final(self).stage() == without_speaker(
                old(self).stage(),
                speaker@,
                old(self).stage().len(),
            ),
            final(self).events() == old(self).events(),
            final(self).position() == old(self).position(),
            final(self).wf() == old(self).wf(),
    {
        let ghost stage = self.stage();
        let mut kept: Vec<DisplayedSpeaker> = Vec::new();
        let mut i: usize = 0;
        while i < self.displayed_speakers.len()
            invariant
                i <= self.displayed_speakers@.len(),
                self.displayed_speakers@ == old(self).displayed_speakers@,
                self.events@ == old(self).events@,
                self.current_event == old(self).current_event,
                stage == shown_of(self.displayed_speakers@),
                shown_of(kept@) == without_speaker(stage, speaker@, i as nat),
            decreases self.displayed_speakers@.len() - i,
        {
            let d = &self.displayed_speakers[i];
            let ghost before = shown_of(kept@);
            if !same_text(d.speaker.name(), speaker.name()) {
                kept.push(DisplayedSpeaker { speaker: d.speaker.duplicate(), side: d.side });
                assert(shown_of(kept@) =~= before.push(stage[i as int]));
            }
            i += 1;
        }
        self.displayed_speakers = kept;
    }

    /// The number of speakers on stage.
    pub fn speaker_count(&self) -> (n: usize)
        ensures
            n == self.stage().len(),
    {
        self.displayed_speakers.len()
    }

    /// The speakers on stage, in the order of their arrival.
    pub fn speakers(&self) -> (r: &Vec<DisplayedSpeaker>)
        ensures
            shown_of(r@) == self.stage(),
    {
        &self.displayed_speakers
    }
}


/// Where a scene has come to rest: the event it shows, who stands on
/// stage, and the background that was asked for on the way.
pub struct Rest {
    pub position: nat,
    pub stage: Seq<Shown>,
    pub background: Option<Seq<char>>,
}

/// The stage after an event: a speaker appears or leaves; anything else
/// leaves the stage as it is.
pub open spec fn stage_after(stage: Seq<Shown>, event: EventView) -> Seq<Shown> {
    match event {
        EventView::ChangeSpeakerDisplay(name, SpeakerEvent::Appear(side)) => with_speaker(
            stage,
            name,
            side,
        ),
        EventView::ChangeSpeakerDisplay(name, SpeakerEvent::Hide) => without_speaker(
            stage,
            name,
            stage.len(),
        ),
        _ => stage,
    }
}

/// The background after an event: the one it asks for, if it asks for
/// one.
pub open spec fn background_after(background: Option<Seq<char>>, event: EventView) -> Option<
    Seq<char>,
> {
    match event {
        EventView::ChangeBackground(key) => Some(key),
        _ => background,
    }
}

/// Where a scene comes to rest from the event at `position`: events that
/// change the stage or the background are carried out one after the other,
/// up to the first line of dialogue or the last event.
pub open spec fn rest_from(
    events: Seq<VNEvent>,
    position: nat,
    stage: Seq<Shown>,
    background: Option<Seq<char>>,
) -> Rest
    decreases events.len() - position,
{
    if position >= events.len() || events[position as int] is Dialogue {
        Rest { position, stage, background }
    } else if position + 1 >= events.len() {
        Rest {
            position,
            stage: stage_after(stage, events[position as int]@),
            background: background_after(background, events[position as int]@),
        }
    } else {
        rest_from(
            events,
            position + 1,
            stage_after(stage, events[position as int]@),
            background_after(background, events[position as int]@),
        )
    }
}

/// Where the portrait of a speaker is put: so far from the middle of the
/// stage, to the right where positive, and mirrored or not.
#[derive(Clone, Copy, Debug, PartialEq, Eq, Structural)]
pub struct PortraitPlace {
    pub x: i128,
    pub mirrored: bool,
}

/// How many of the first `n` speakers on stage stand on `side`.
pub open spec fn on_side(stage: Seq<Shown>, side: Side, n: nat) -> nat
    decreases n,
{
    if n == 0 {
        0
    } else {
        on_side(stage, side, (n - 1) as nat) + if stage[n - 1].side == side {
            1nat
        } else {
            0nat
        }
    }
}

/// The place of the portrait of the speaker at `i`: the speakers of a side
/// line up from its edge towards the middle, in the order of their
/// arrival, and those on the right are mirrored.
pub open spec fn place_of(stage: Seq<Shown>, i: int) -> PortraitPlace {
    match stage[i].side {
        Side::Left => PortraitPlace {
            x: (-500 + 200 * on_side(stage, Side::Left, i as nat)) as i128,
            mirrored: false,
        },
        Side::Right => PortraitPlace {
            x: (500 - 200 * on_side(stage, Side::Right, i as nat)) as i128,
            mirrored: true,
        },
    }
}

proof fn lemma_on_side_bound(stage: Seq<Shown>, side: Side, n: nat)
    ensures
        on_side(stage, side, n) <= n,
    decreases n,
{
    if n > 0 {
        lemma_on_side_bound(stage, side, (n - 1) as nat);
    }
}

impl VNScene {
    /// Lets the scene play up to the next line of dialogue: events that
    /// change the stage or the background are carried out on the way. The
    /// scene stops at the first line of dialogue, or at its last event. The
    /// result is the background that was asked for last on the way, if one
    /// was.
    pub fn render_scene(&mut self) -> (background: Option<String>)
        requires
            old(self).wf(),
        ensures
            final(self).wf(),
            final(self).events() == old(self).events(),
            ({
                let rest = rest_from(
                    old(self).events(),
                    old(self).position(),
                    old(self).stage(),
                    None,
                );
                &&& final(self).position() == rest.position
                &&& final(self).stage() == rest.stage
                &&& match rest.background {
                    Some(key) => background is Some && background->Some_0@ == key,
                    None => background is None,
                }
            }),
    {
        let mut background: Option<String> = None;
        let ghost mut asked: Option<Seq<char>> = None;
        if self.events.len() == 0 {
            return background;
        }
        loop
            invariant
                self.wf(),
                self.events@ == old(self).events@,
                self.events@.len() > 0,
                self.current_event < self.events@.len(),
                match asked {
                    Some(key) => background is Some && background->Some_0@ == key,
                    None => background is None,
                },
                rest_from(old(self).events(), old(self).position(), old(self).stage(), None)
                    == rest_from(self.events@, self.current_event as nat, self.stage(), asked),
            decreases self.events@.len() - self.current_event,
        {
            let ghost stage = self.stage();
            let ghost here = self.events@[self.current_event as int];
            match &self.events[self.current_event] {
                VNEvent::Dialogue(_, _) => {
                    return background;
                },
                VNEvent::ChangeBackground(key) => {
                    background = Some(key.clone());
                    proof {
                        asked = Some(key@);
                    }
                },
                VNEvent::ChangeSpeakerDisplay(speaker, event) => {
                    let who = speaker.duplicate();
                    match *event {
                        SpeakerEvent::Appear(side) => {
                            self.show_speaker(who, side);
                        },
                        SpeakerEvent::Hide => {
                            self.remove_speaker(who);
                        },
                    }
                },
            }
            assert(self.stage() == stage_after(stage, here@));
            assert(asked == background_after(asked, here@) || here is ChangeBackground);
            assert(self.events@ == old(self).events@);
            assert(self.current_event < self.events@.len());
            if self.current_event >= self.events.len() - 1 {
                return background;
            }
            self.current_event += 1;
        }
    }

    /// Where the portraits of the speakers on stage are put, speaker by
    /// speaker.
    pub fn update_and_position_speakers(&self) -> (places: Vec<PortraitPlace>)
        ensures
            places@.len() == self.stage().len(),
            forall|i: int|
                0 <= i < places@.len() ==> #[trigger] places@[i] == place_of(self.stage(), i),
    {
        let ghost stage = self.stage();
        let mut places: Vec<PortraitPlace> = Vec::new();
        let mut count_left: usize = 0;
        let mut count_right: usize = 0;
        let mut i: usize = 0;
        while i < self.displayed_speakers.len()
            invariant
                i <= self.displayed_speakers@.len(),
                stage == shown_of(self.displayed_speakers@),
                places@.len() == i,
                count_left == on_side(stage, Side::Left, i as nat),
                count_right == on_side(stage, Side::Right, i as nat),
                forall|k: int| 0 <= k < i ==> #[trigger] places@[k] == place_of(stage, k),
            decreases self.displayed_speakers@.len() - i,
        {
            proof {
                lemma_on_side_bound(stage, Side::Left, i as nat);
                lemma_on_side_bound(stage, Side::Right, i as nat);
            }
            match self.displayed_speakers[i].side {
                Side::Left => {
                    places.push(
                        PortraitPlace { x: -500 + 200 * (count_left as i128), mirrored: false },
                    );
                    count_left += 1;
                },
                Side::Right => {
                    places.push(
                        PortraitPlace { x: 500 - 200 * (count_right as i128), mirrored: true },
                    );
                    count_right += 1;
                },
            }
            i += 1;
        }
        places
    }
}

} // verus!
