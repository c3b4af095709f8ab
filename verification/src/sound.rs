//! Which sound to ask for, of which player, in which order, and whether a
//! new request may play now, wait, or be dropped.
//!
//! The sound is an event id from the desktop's sound theme, handed first to
//! `canberra-gtk-play`, which looks it up in the user's theme. Only when that
//! fails is the theme searched by hand for a file, which is then handed to
//! the plain file players in turn. An interval with no alarm sound anywhere
//! borrows the completion chime, by every route.
//!
//! Spawning the players, the deadline, and the one-at-a-time queue are the
//! application's; the decisions are here.

pub mod theme;

use vstd::prelude::*;

verus! {

/// Something worth a sound.
#[derive(Clone, Copy, Debug, PartialEq, Eq, Structural)]
pub enum Cue {
    /// A focus or a break ran its full time.
    IntervalFinished,
    /// A task went from not done to done.
    TaskDone,
}

/// The event ids to try for a cue, best first, from the freedesktop sound
/// naming specification.
pub open spec fn event_ids_of(cue: Cue) -> Seq<Seq<char>> {
    match cue {
        Cue::IntervalFinished => seq!["alarm-clock-elapsed"@, "complete"@],
        Cue::TaskDone => seq!["complete"@],
    }
}

pub open spec fn description_of(cue: Cue) -> Seq<char> {
    match cue {
        Cue::IntervalFinished => "Interval finished"@,
        Cue::TaskDone => "Task complete"@,
    }
}

impl Cue {
    /// What the sound is, for the audio server's listing of what is playing.
    pub fn description(self) -> (r: &'static str)
        ensures
            r@ == description_of(self),
    {
        match self {
            Cue::IntervalFinished => "Interval finished",
            Cue::TaskDone => "Task complete",
        }
    }

    /// How many event ids the cue may be played by.
    pub fn event_count(self) -> (r: usize)
        ensures
            r == event_ids_of(self).len(),
    {
        match self {
            Cue::IntervalFinished => 2,
            Cue::TaskDone => 1,
        }
    }

    /// The `k`-th event id to try.
    pub fn event_id_at(self, k: usize) -> (r: &'static str)
        requires
            k < event_ids_of(self).len(),
        ensures
            r@ == event_ids_of(self)[k as int],
    {
        match self {
            Cue::IntervalFinished => if k == 0 {
                "alarm-clock-elapsed"
            } else {
                "complete"
            },
            Cue::TaskDone => "complete",
        }
    }

    /// The ids to try, best first: the cue's own, and for an interval the
    /// completion chime it may borrow.
    pub fn event_ids(self) -> (r: Vec<&'static str>)
        ensures
            r@.len() == event_ids_of(self).len(),
            forall|i: int| 0 <= i < r@.len() ==> (#[trigger] r@[i])@ == event_ids_of(self)[i],
    {
        let mut ids: Vec<&'static str> = Vec::new();
        ids.push(self.event_id_at(0));
        if self.event_count() > 1 {
            ids.push(self.event_id_at(1));
        }
        ids
    }

    /// The cue's own event id.
    pub fn event_id(self) -> (r: &'static str)
        ensures
            r@ == event_ids_of(self)[0],
    {
        self.event_id_at(0)
    }
}

/// One way of making the sound: a program, found through `PATH`, and its
/// arguments.
#[derive(Clone, Debug, PartialEq, Eq)]
pub struct Candidate {
    pub program: &'static str,
    pub args: Vec<String>,
}

#[verifier::ext_equal]
pub struct CandidateView {
    pub program: Seq<char>,
    pub args: Seq<Seq<char>>,
}

impl View for Candidate {
    type V = CandidateView;

    open spec fn view(&self) -> CandidateView {
        CandidateView { program: self.program@, args: self.args@.map_values(|a: String| a@) }
    }
}

/// `canberra-gtk-play` asked for an event by id, with the desktop's event
/// sound switch overridden for this one sound.
pub open spec fn theme_candidate_of(event_id: Seq<char>, description: Seq<char>) -> CandidateView {
    CandidateView {
        program: "canberra-gtk-play"@,
        args: seq!["-i"@, event_id, "-d"@, description, "--property=canberra.enable=1"@],
    }
}

/// The players that have to be handed a file, best first: `pw-play` told
/// the stream is a notification, `paplay`, and last `gst-play-1.0`, which
/// reports success even when it played nothing.
pub open spec fn file_candidates_of(file: Seq<char>) -> Seq<CandidateView> {
    seq![
        CandidateView { program: "pw-play"@, args: seq!["--media-role=Notification"@, file] },
        CandidateView { program: "paplay"@, args: seq![file] },
        CandidateView {
            program: "gst-play-1.0"@,
            args: seq!["--no-interactive"@, "-q"@, file],
        },
    ]
}

fn text(s: &str) -> (r: String)
    ensures
        r@ == s@,
{
    s.to_owned()
}

/// The theme player, asked for `event_id`; see [`theme_candidate_of`].
pub fn theme_candidate(event_id: &str, description: &str) -> (r: Candidate)
    ensures
        r@ == theme_candidate_of(event_id@, description@),
{
    let mut args: Vec<String> = Vec::new();
    args.push(text("-i"));
    args.push(text(event_id));
    args.push(text("-d"));
    args.push(text(description));
    args.push(text("--property=canberra.enable=1"));
    let r = Candidate { program: "canberra-gtk-play", args };
    assert(r@ =~= theme_candidate_of(event_id@, description@));
    r
}

/// The file players for `file`, best first; see [`file_candidates_of`].
pub fn file_candidates(file: &str) -> (r: Vec<Candidate>)
    ensures
        r@.len() == 3,
        forall|i: int| 0 <= i < 3 ==> (#[trigger] r@[i])@ == file_candidates_of(file@)[i],
{
    let mut pw: Vec<String> = Vec::new();
    pw.push(text("--media-role=Notification"));
    pw.push(text(file));
    let mut pa: Vec<String> = Vec::new();
    pa.push(text(file));
    let mut gst: Vec<String> = Vec::new();
    gst.push(text("--no-interactive"));
    gst.push(text("-q"));
    gst.push(text(file));
    let mut r: Vec<Candidate> = Vec::new();
    r.push(Candidate { program: "pw-play", args: pw });
    r.push(Candidate { program: "paplay", args: pa });
    r.push(Candidate { program: "gst-play-1.0", args: gst });
    proof {
        assert(r@[0]@ =~= file_candidates_of(file@)[0]);
        assert(r@[1]@ =~= file_candidates_of(file@)[1]);
        assert(r@[2]@ =~= file_candidates_of(file@)[2]);
    }
    r
}

/// How a walk over the candidates ended. The index says which candidate.
#[derive(Clone, Copy, Debug, PartialEq, Eq, Structural)]
pub enum Walk {
    /// This one ran and reported success.
    Played(usize),
    /// This one was still running at the deadline and was killed.
    TimedOut(usize),
    /// None could be started, or every one that started reported failure.
    NoneWorked,
}

/// How one candidate's run ended.
#[derive(Clone, Copy, Debug, PartialEq, Eq, Structural)]
pub enum PlayerEnd {
    /// It could not be started: not installed, not executable.
    NotStarted,
    /// It exited, with success or not.
    Exited(bool),
    /// It was still running at the deadline and was killed.
    Killed,
}

/// What the walk does after candidate `index` ended so: a failure to start
/// and a failure reported pass the turn (`None`); success ends the walk;
/// so does a player that hangs, since the sound may already have played and
/// the next player would talk to the same stuck server.
pub fn walk_step(index: usize, end: PlayerEnd) -> (r: Option<Walk>)
    ensures
        r == (match end {
            PlayerEnd::NotStarted => None,
            PlayerEnd::Exited(success) => if success {
                Some(Walk::Played(index))
            } else {
                None
            },
            PlayerEnd::Killed => Some(Walk::TimedOut(index)),
        }),
{
    match end {
        PlayerEnd::NotStarted => None,
        PlayerEnd::Exited(success) => if success {
            Some(Walk::Played(index))
        } else {
            None
        },
        PlayerEnd::Killed => Some(Walk::TimedOut(index)),
    }
}

/// How playing a cue ended.
#[derive(Clone, Copy, Debug, PartialEq, Eq, Structural)]
pub enum Outcome {
    Played,
    /// A player had to be killed. The sound may or may not have been heard.
    TimedOut,
    NoneWorked,
}

/// Where the staged attempt stands. The index is the event id's place in
/// the cue's list.
#[derive(Clone, Copy, Debug, PartialEq, Eq, Structural)]
pub enum Stage {
    /// Ask the theme player for the id.
    ThemePlayer(usize),
    /// Search the theme by hand for the id's file.
    Search(usize),
    /// Hand the file found to the file players.
    FilePlayers(usize),
    /// Finished.
    Done(Outcome),
}

/// The stage after `k`'s routes have all failed: the next id's theme
/// player, or the end.
pub open spec fn after_id(cue: Cue, k: usize) -> Stage {
    if k + 1 < event_ids_of(cue).len() {
        Stage::ThemePlayer((k + 1) as usize)
    } else {
        Stage::Done(Outcome::NoneWorked)
    }
}

/// What comes after a walk ended so, on id `k`, whichever route it was.
pub open spec fn after_walk(cue: Cue, k: usize, walk: Walk, theme_route: bool) -> Stage {
    match walk {
        Walk::Played(_) => Stage::Done(Outcome::Played),
        Walk::TimedOut(_) => Stage::Done(Outcome::TimedOut),
        Walk::NoneWorked => if theme_route {
            Stage::Search(k)
        } else {
            after_id(cue, k)
        },
    }
}

fn next_id(cue: Cue, k: usize) -> (r: Stage)
    requires
        k < event_ids_of(cue).len(),
    ensures
        r == after_id(cue, k),
{
    if k + 1 < cue.event_count() {
        Stage::ThemePlayer(k + 1)
    } else {
        Stage::Done(Outcome::NoneWorked)
    }
}

/// The stage after the theme player's walk on id `k`: only its failure
/// leads to the search, so the theme is never searched by hand when the
/// theme player works.
pub fn after_theme_player(cue: Cue, k: usize, walk: Walk) -> (r: Stage)
    requires
        k < event_ids_of(cue).len(),
    ensures
        r == after_walk(cue, k, walk, true),
{
    match walk {
        Walk::Played(_) => Stage::Done(Outcome::Played),
        Walk::TimedOut(_) => Stage::Done(Outcome::TimedOut),
        Walk::NoneWorked => Stage::Search(k),
    }
}

/// The stage after searching for id `k`'s file: the file players if one
/// was found, otherwise the next id.
pub fn after_search(cue: Cue, k: usize, found: bool) -> (r: Stage)
    requires
        k < event_ids_of(cue).len(),
    ensures
        r == (if found {
            Stage::FilePlayers(k)
        } else {
            after_id(cue, k)
        }),
{
    if found {
        Stage::FilePlayers(k)
    } else {
        next_id(cue, k)
    }
}

/// The stage after the file players' walk on id `k`: a played or hung
/// route ends the attempt, a failed one moves to the next id.
pub fn after_file_players(cue: Cue, k: usize, walk: Walk) -> (r: Stage)
    requires
        k < event_ids_of(cue).len(),
    ensures
        r == after_walk(cue, k, walk, false),
{
    match walk {
        Walk::Played(_) => Stage::Done(Outcome::Played),
        Walk::TimedOut(_) => Stage::Done(Outcome::TimedOut),
        Walk::NoneWorked => next_id(cue, k),
    }
}

/// How far along the attempt a stage is: later stages, and later ids,
/// count more.
pub open spec fn progress(stage: Stage) -> int {
    match stage {
        Stage::ThemePlayer(k) => 3 * k,
        Stage::Search(k) => 3 * k + 1,
        Stage::FilePlayers(k) => 3 * k + 2,
        Stage::Done(_) => 9int,
    }
}

/// The index a stage is on, where it has one.
pub open spec fn stage_id(stage: Stage) -> Option<usize> {
    match stage {
        Stage::ThemePlayer(k) => Some(k),
        Stage::Search(k) => Some(k),
        Stage::FilePlayers(k) => Some(k),
        Stage::Done(_) => None,
    }
}

/// The stages only ever move forward: every route for an id is tried
/// before any route for the next, so for an interval the alarm by any route
/// comes before the chime by any route; and within an id the theme player
/// comes first.
pub proof fn stages_only_move_forward(cue: Cue, k: usize, walk: Walk, found: bool)
    requires
        k < event_ids_of(cue).len(),
    ensures
        progress(after_walk(cue, k, walk, true)) > progress(Stage::ThemePlayer(k)),
        progress(
            if found {
                Stage::FilePlayers(k)
            } else {
                after_id(cue, k)
            },
        ) > progress(Stage::Search(k)),
        progress(after_walk(cue, k, walk, false)) > progress(Stage::FilePlayers(k)),
        after_walk(cue, k, walk, true) is Search ==> walk == Walk::NoneWorked,
        after_id(cue, k) matches Stage::ThemePlayer(j) ==> j == k + 1,
{
}

/// What a walk makes of the attempt: a sound, a hung player, or nothing.
pub open spec fn walk_outcome(walk: Walk) -> Outcome {
    match walk {
        Walk::Played(_) => Outcome::Played,
        Walk::TimedOut(_) => Outcome::TimedOut,
        Walk::NoneWorked => Outcome::NoneWorked,
    }
}

/// `run`, handed a list of players that reads `players`, may answer `walk`.
pub open spec fn may_walk<R: FnMut(&[Candidate]) -> Walk>(
    run: R,
    players: Seq<CandidateView>,
    walk: Walk,
) -> bool {
    exists|list: &[Candidate]|
        #[trigger] call_ensures(run, (list,), walk) && list@.map_values(|c: Candidate| c@)
            == players
}

/// `find_file`, asked for the id `id`, may answer `found`.
pub open spec fn may_find<F: FnMut(&str) -> Option<String>>(
    find_file: F,
    id: Seq<char>,
    found: Option<String>,
) -> bool {
    exists|asked: &str| #[trigger] call_ensures(find_file, (asked,), found) && asked@ == id
}

/// Every answer `run` may give, as a relation from the players handed to it
/// to the walk answered.
pub open spec fn walks_of<R: FnMut(&[Candidate]) -> Walk>(run: R) -> spec_fn(
    Seq<CandidateView>,
    Walk,
) -> bool {
    |players: Seq<CandidateView>, walk: Walk| may_walk(run, players, walk)
}

/// Every answer `find_file` may give, as a relation from the id asked for
/// to the file answered.
pub open spec fn finds_of<F: FnMut(&str) -> Option<String>>(find_file: F) -> spec_fn(
    Seq<char>,
    Option<String>,
) -> bool {
    |id: Seq<char>, found: Option<String>| may_find(find_file, id, found)
}

/// How the routes for the cue's `k`-th id may end, for answers drawn from
/// `walks` and `finds`: by the theme player's sound or hang; failing that,
/// by the file players on the file found for the id; with no file, in
/// nothing.
pub open spec fn id_may_end(
    cue: Cue,
    k: int,
    walks: spec_fn(Seq<CandidateView>, Walk) -> bool,
    finds: spec_fn(Seq<char>, Option<String>) -> bool,
    outcome: Outcome,
) -> bool {
    let id = event_ids_of(cue)[k];
    exists|walk: Walk|
        #[trigger] walks(seq![theme_candidate_of(id, description_of(cue))], walk) && if walk
            == Walk::NoneWorked {
            exists|found: Option<String>|
                #[trigger] finds(id, found) && match found {
                    None => outcome == Outcome::NoneWorked,
                    Some(file) => exists|last: Walk|
                        #[trigger] walks(file_candidates_of(file@), last) && outcome
                            == walk_outcome(last),
                }
        } else {
            outcome == walk_outcome(walk)
        }
}

/// How the attempt may end from the cue's `k`-th id on: the first id whose
/// routes end in a sound or a hung player decides; if none does, nothing
/// worked.
pub open spec fn may_end_from(
    cue: Cue,
    k: int,
    walks: spec_fn(Seq<CandidateView>, Walk) -> bool,
    finds: spec_fn(Seq<char>, Option<String>) -> bool,
    outcome: Outcome,
) -> bool
    decreases event_ids_of(cue).len() - k,
{
    if k < 0 || k >= event_ids_of(cue).len() {
        outcome == Outcome::NoneWorked
    } else {
        ||| outcome != Outcome::NoneWorked && id_may_end(cue, k, walks, finds, outcome)
        ||| id_may_end(cue, k, walks, finds, Outcome::NoneWorked) && may_end_from(
            cue,
            k + 1,
            walks,
            finds,
            outcome,
        )
    }
}

/// Every outcome the attempt may reach from id `k` on is one it may reach
/// from the start: the ids before `k` all ended in nothing.
pub open spec fn settled_before(
    cue: Cue,
    k: int,
    walks: spec_fn(Seq<CandidateView>, Walk) -> bool,
    finds: spec_fn(Seq<char>, Option<String>) -> bool,
) -> bool {
    forall|o: Outcome|
        #[trigger] may_end_from(cue, k, walks, finds, o) ==> may_end_from(cue, 0, walks, finds, o)
}

/// Plays `cue` by the first route that works, asking `run` to walk a list
/// of candidates and `find_file` for an id's file only once the theme
/// player has failed on it. Each decision is taken by the stage functions
/// above; a route that hangs ends the whole attempt. The outcome is the one
/// the answers given decide; see [`may_end_from`].
pub fn play_by_stages<F, R>(cue: Cue, find_file: F, run: R) -> (r: Outcome) where
    F: FnMut(&str) -> Option<String>,
    R: FnMut(&[Candidate]) -> Walk,

    requires
        forall|id: &str| call_requires(find_file, (id,)),
        forall|list: &[Candidate]| call_requires(run, (list,)),
    ensures
        may_end_from(cue, 0, walks_of(run), finds_of(find_file), r),
{
    let ghost find0 = find_file;
    let ghost run0 = run;
    let ghost walks = walks_of(run);
    let ghost finds = finds_of(find_file);
    let mut finder = find_file;
    let mut runner = run;
    let description = cue.description();
    let mut stage = Stage::ThemePlayer(0);
    let mut file: String = String::new();
    loop
        invariant
            finder == find0,
            runner == run0,
            find0 == find_file,
            run0 == run,
            walks == walks_of(run0),
            finds == finds_of(find0),
            forall|id: &str| call_requires(finder, (id,)),
            forall|list: &[Candidate]| call_requires(runner, (list,)),
            description@ == description_of(cue),
            stage_id(stage) matches Some(k) ==> k < event_ids_of(cue).len(),
            event_ids_of(cue).len() <= 2,
            stage_id(stage) matches Some(k) ==> settled_before(cue, k as int, walks, finds),
            stage is Search || stage is FilePlayers ==> walks(
                seq![
                    theme_candidate_of(
                        event_ids_of(cue)[stage_id(stage)->0 as int],
                        description_of(cue),
                    ),
                ],
                Walk::NoneWorked,
            ),
            stage is FilePlayers ==> finds(
                event_ids_of(cue)[stage_id(stage)->0 as int],
                Some(file),
            ),
            stage matches Stage::Done(o) ==> may_end_from(cue, 0, walks, finds, o),
        decreases 9 - progress(stage),
    {
        match stage {
            Stage::ThemePlayer(k) => {
                let mut player: Vec<Candidate> = Vec::new();
                player.push(theme_candidate(cue.event_id_at(k), description));
                let list = player.as_slice();
                let walk = runner(list);
                let ghost views = seq![
                    theme_candidate_of(event_ids_of(cue)[k as int], description_of(cue)),
                ];
                assert(list@.map_values(|c: Candidate| c@) =~= views);
                assert(may_walk(run0, views, walk));
                assert(walks(views, walk));
                let next = after_theme_player(cue, k, walk);
                proof {
                    if walk != Walk::NoneWorked {
                        assert(id_may_end(cue, k as int, walks, finds, walk_outcome(walk)));
                        assert(may_end_from(cue, k as int, walks, finds, walk_outcome(walk)));
                    }
                }
                stage = next;
            },
            Stage::Search(k) => {
                let id = cue.event_id_at(k);
                let found = finder(id);
                assert(may_find(find0, id@, found));
                assert(finds(id@, found));
                let next = after_search(cue, k, found.is_some());
                proof {
                    if found is None {
                        assert(id_may_end(cue, k as int, walks, finds, Outcome::NoneWorked));
                        lemma_next_id_settled(cue, k as int, walks, finds);
                    }
                }
                if let Some(path) = found {
                    file = path;
                }
                stage = next;
            },
            Stage::FilePlayers(k) => {
                let players = file_candidates(file.as_str());
                let list = players.as_slice();
                let ended = runner(list);
                let ghost views = file_candidates_of(file@);
                assert(list@.map_values(|c: Candidate| c@) =~= views);
                assert(may_walk(run0, views, ended));
                assert(walks(views, ended));
                let next = after_file_players(cue, k, ended);
                proof {
                    let id = event_ids_of(cue)[k as int];
                    let found = Some(file);
                    assert(found matches Some(f) && f@ == file@);
                    assert(finds(id, found));
                    assert(id_may_end(cue, k as int, walks, finds, walk_outcome(ended)));
                    if ended == Walk::NoneWorked {
                        lemma_next_id_settled(cue, k as int, walks, finds);
                    } else {
                        assert(may_end_from(cue, k as int, walks, finds, walk_outcome(ended)));
                    }
                }
                stage = next;
            },
            Stage::Done(outcome) => {
                return outcome;
            },
        }
    }
}

/// Once id `k` has ended in nothing, what may follow it is settled: the
/// next id starts with everything before it settled, and after the last id
/// the attempt ends in nothing.
proof fn lemma_next_id_settled(
    cue: Cue,
    k: int,
    walks: spec_fn(Seq<CandidateView>, Walk) -> bool,
    finds: spec_fn(Seq<char>, Option<String>) -> bool,
)
    requires
        0 <= k < event_ids_of(cue).len(),
        settled_before(cue, k, walks, finds),
        id_may_end(cue, k, walks, finds, Outcome::NoneWorked),
    ensures
        settled_before(cue, k + 1, walks, finds),
        k + 1 >= event_ids_of(cue).len() ==> may_end_from(
            cue,
            0,
            walks,
            finds,
            Outcome::NoneWorked,
        ),
{
    assert forall|o: Outcome| #[trigger] may_end_from(cue, k + 1, walks, finds, o) implies may_end_from(
        cue,
        0,
        walks,
        finds,
        o,
    ) by {
        assert(may_end_from(cue, k, walks, finds, o));
    }
    if k + 1 >= event_ids_of(cue).len() {
        assert(may_end_from(cue, k + 1, walks, finds, Outcome::NoneWorked));
    }
}

/// What becomes of a new request for a sound.
#[derive(Clone, Copy, Debug, PartialEq, Eq, Structural)]
pub enum Admission {
    /// Nothing is playing: play it.
    Start,
    /// It waits for the sound now playing and goes next.
    Wait,
    /// It is dropped.
    Drop,
}

/// Decides what becomes of a request for `cue` while `playing` plays and,
/// if `something_waiting`, another request waits. The end of an interval
/// waits behind a lesser sound rather than being lost to it; everything
/// else that arrives mid-sound is dropped.
pub fn admission_for(playing: Option<Cue>, something_waiting: bool, cue: Cue) -> (r: Admission)
    ensures
        r == admission_spec(playing, something_waiting, cue),
        playing == Some(Cue::TaskDone) && cue == Cue::IntervalFinished && !something_waiting
            ==> r != Admission::Drop,
{
    match (playing, cue) {
        (None, _) => Admission::Start,
        (Some(Cue::TaskDone), Cue::IntervalFinished) if !something_waiting => Admission::Wait,
        _ => Admission::Drop,
    }
}


/// What is playing, and the one request allowed to wait behind it. Who to
/// tell how a request went is the application's to keep beside it.
pub struct SoundSlot {
    pub playing: Option<Cue>,
    pub waiting: Option<Cue>,
}

impl SoundSlot {
    /// Only an alarm ever waits, and only behind a chime.
    pub open spec fn well_formed(&self) -> bool {
        self.waiting is Some ==> self.playing == Some(Cue::TaskDone) && self.waiting == Some(
            Cue::IntervalFinished,
        )
    }

    pub fn new() -> (r: Self)
        ensures
            r.playing is None,
            r.waiting is None,
            r.well_formed(),
    {
        SoundSlot { playing: None, waiting: None }
    }

    /// Admits a request for `cue`: it starts playing, waits, or is dropped,
    /// as [`admission_for`] decides.
    pub fn request(&mut self, cue: Cue) -> (r: Admission)
        requires
            old(self).well_formed(),
        ensures
            final(self).well_formed(),
            r == (match old(self).playing {
                None => Admission::Start,
                Some(Cue::TaskDone) => if cue == Cue::IntervalFinished && old(self).waiting is None {
                    Admission::Wait
                } else {
                    Admission::Drop
                },
                Some(Cue::IntervalFinished) => Admission::Drop,
            }),
            r == Admission::Start ==> final(self).playing == Some(cue) && final(self).waiting
                == old(self).waiting,
            r == Admission::Wait ==> final(self).playing == old(self).playing
                && final(self).waiting == Some(cue),
            r == Admission::Drop ==> final(self).playing == old(self).playing
                && final(self).waiting == old(self).waiting,
    {
        let a = admission_for(self.playing, self.waiting.is_some(), cue);
        match a {
            Admission::Start => self.playing = Some(cue),
            Admission::Wait => self.waiting = Some(cue),
            Admission::Drop => {},
        }
        a
    }

    /// The sound playing has ended: what waited plays next, or the slot is
    /// free.
    pub fn finished(&mut self) -> (r: Option<Cue>)
        requires
            old(self).well_formed(),
        ensures
            final(self).well_formed(),
            r == old(self).waiting,
            final(self).playing == old(self).waiting,
            final(self).waiting is None,
    {
        let next = self.waiting;
        self.waiting = None;
        self.playing = next;
        next
    }

    /// The playing thread ended abnormally: the slot is emptied, and the
    /// request that waited, if any, is given up; `true` if there was one.
    pub fn abandon(&mut self) -> (r: bool)
        ensures
            final(self).playing is None,
            final(self).waiting is None,
            r == old(self).waiting is Some,
    {
        let dropped = self.waiting.is_some();
        self.playing = None;
        self.waiting = None;
        dropped
    }
}

/// The slot after a request for `cue`: `(playing, waiting)`.
pub open spec fn slot_after_request(playing: Option<Cue>, waiting: Option<Cue>, cue: Cue) -> (
    Option<Cue>,
    Option<Cue>,
) {
    match admission_spec(playing, waiting is Some, cue) {
        Admission::Start => (Some(cue), waiting),
        Admission::Wait => (playing, Some(cue)),
        Admission::Drop => (playing, waiting),
    }
}

/// An alarm asked for while a chime plays is the very next sound once the
/// chime ends, and no request ever starts while something is playing: two
/// sounds never play over one another.
pub proof fn an_alarm_mid_chime_plays_next(
    playing: Option<Cue>,
    waiting: Option<Cue>,
    cue: Cue,
)
    ensures
        playing == Some(Cue::TaskDone) && waiting is None ==> slot_after_request(
            playing,
            waiting,
            Cue::IntervalFinished,
        ).1 == Some(Cue::IntervalFinished),
        playing is Some ==> slot_after_request(playing, waiting, cue).0 == playing,
        playing is None ==> slot_after_request(playing, waiting, cue).0 == Some(cue),
{
}

/// [`admission_for`] as a function of its arguments.
pub open spec fn admission_spec(playing: Option<Cue>, something_waiting: bool, cue: Cue) -> Admission {
    match playing {
        None => Admission::Start,
        Some(Cue::TaskDone) => if cue == Cue::IntervalFinished && !something_waiting {
            Admission::Wait
        } else {
            Admission::Drop
        },
        Some(Cue::IntervalFinished) => Admission::Drop,
    }
}

} // verus!
