use vstd::prelude::*;

verus! {

/// The coarse mode of the application; exactly one is active at a time.
#[derive(Clone, Copy, Debug, PartialEq, Eq, Structural, Hash)]
pub enum AppState {
    Loading,
    MainMenu,
    InGame,
    Paused,
    EndGame,
}

impl Default for AppState {
    fn default() -> (r: AppState)
        ensures
            r == AppState::Loading,
    {
        AppState::Loading
    }
}

/// The edges of the phase graph: `Loading -> MainMenu -> InGame <-> Paused`,
/// and `InGame -> EndGame -> MainMenu`.
pub open spec fn is_edge(from: AppState, to: AppState) -> bool {
    match (from, to) {
        (AppState::Loading, AppState::MainMenu) => true,
        (AppState::MainMenu, AppState::InGame) => true,
        (AppState::InGame, AppState::Paused) => true,
        (AppState::Paused, AppState::InGame) => true,
        (AppState::InGame, AppState::EndGame) => true,
        (AppState::EndGame, AppState::MainMenu) => true,
        _ => false,
    }
}

/// Whether `from -> to` is an edge of the phase graph.
pub fn is_transition(from: AppState, to: AppState) -> (r: bool)
    ensures
        r == is_edge(from, to),
{
    match (from, to) {
        (AppState::Loading, AppState::MainMenu) => true,
        (AppState::MainMenu, AppState::InGame) => true,
        (AppState::InGame, AppState::Paused) => true,
        (AppState::Paused, AppState::InGame) => true,
        (AppState::InGame, AppState::EndGame) => true,
        (AppState::EndGame, AppState::MainMenu) => true,
        _ => false,
    }
}

/// One-shot work bound to a phase transition.
#[derive(Clone, Copy, Debug, PartialEq, Eq, Structural)]
pub enum Hook {
    /// Nothing runs.
    Nothing,
    /// Spawn the ship, then the first batch of asteroids.
    SetupGame,
    /// Destroy every entity tagged for mass despawn.
    Teardown,
}

pub open spec fn hook_of(from: AppState, to: AppState) -> Hook {
    if from == AppState::MainMenu && to == AppState::InGame {
        Hook::SetupGame
    } else if from == AppState::InGame && to == AppState::EndGame {
        Hook::Teardown
    } else {
        Hook::Nothing
    }
}

/// The hook that runs on the transition `from -> to`.
pub fn transition_hook(from: AppState, to: AppState) -> (r: Hook)
    ensures
        r == hook_of(from, to),
{
    if from == AppState::MainMenu && to == AppState::InGame {
        Hook::SetupGame
    } else if from == AppState::InGame && to == AppState::EndGame {
        Hook::Teardown
    } else {
        Hook::Nothing
    }
}

/// Keys just pressed in the current frame, and the ship's heading.
#[derive(Clone, Copy, Debug, PartialEq, Eq, Structural, Default)]
pub struct Keys {
    /// New game.
    pub n: bool,
    /// Quit.
    pub q: bool,
    /// Back to the main menu.
    pub m: bool,
    /// Unpause.
    pub u: bool,
    pub escape: bool,
    /// Thrust forward.
    pub w: bool,
    /// Thrust backward.
    pub s: bool,
    /// Fire.
    pub space: bool,
    /// Raise the shield.
    pub f: bool,
}

/// What the keys of a frame ask of the phase machine.
#[derive(Clone, Copy, Debug, PartialEq, Eq, Structural)]
pub struct PhaseRequest {
    pub next: Option<AppState>,
    pub exit: bool,
}

pub open spec fn requested(state: AppState, keys: Keys) -> PhaseRequest {
    match state {
        AppState::MainMenu => PhaseRequest {
            next: if keys.n { Some(AppState::InGame) } else { None },
            exit: keys.q,
        },
        AppState::InGame => PhaseRequest {
            next: if keys.escape { Some(AppState::Paused) } else { None },
            exit: false,
        },
        AppState::Paused => PhaseRequest {
            next: if keys.escape || keys.u { Some(AppState::InGame) } else { None },
            exit: keys.q,
        },
        AppState::EndGame => PhaseRequest {
            next: if keys.m { Some(AppState::MainMenu) } else { None },
            exit: keys.q,
        },
        AppState::Loading => PhaseRequest { next: None, exit: false },
    }
}

/// The transition and exit that `keys` request in `state`.
pub fn phase_keys(state: AppState, keys: Keys) -> (r: PhaseRequest)
    ensures
        r == requested(state, keys),
        r.next.is_some() ==> is_edge(state, r.next.unwrap()),
{
    match state {
        AppState::MainMenu => PhaseRequest {
            next: if keys.n { Some(AppState::InGame) } else { None },
            exit: keys.q,
        },
        AppState::InGame => PhaseRequest {
            next: if keys.escape { Some(AppState::Paused) } else { None },
            exit: false,
        },
        AppState::Paused => PhaseRequest {
            next: if keys.escape || keys.u { Some(AppState::InGame) } else { None },
            exit: keys.q,
        },
        AppState::EndGame => PhaseRequest {
            next: if keys.m { Some(AppState::MainMenu) } else { None },
            exit: keys.q,
        },
        AppState::Loading => PhaseRequest { next: None, exit: false },
    }
}

/// The four stages of a tick, in the order in which they run.
#[derive(Clone, Copy, Debug, PartialEq, Eq, Structural, Hash)]
pub enum InGameSet {
    UserInput,
    EntityUpdates,
    CollisionDetection,
    DespawnEntities,
}

pub open spec fn stage_rank(s: InGameSet) -> nat {
    match s {
        InGameSet::UserInput => 0,
        InGameSet::EntityUpdates => 1,
        InGameSet::CollisionDetection => 2,
        InGameSet::DespawnEntities => 3,
    }
}

impl InGameSet {
    /// Position of the stage in a tick.
    pub fn rank(self) -> (r: u8)
        ensures
            r == stage_rank(self),
    {
        match self {
            InGameSet::UserInput => 0,
            InGameSet::EntityUpdates => 1,
            InGameSet::CollisionDetection => 2,
            InGameSet::DespawnEntities => 3,
        }
    }

    /// Whether every system of `self` completes before any of `other` starts.
    pub fn runs_before(self, other: InGameSet) -> (r: bool)
        ensures
            r == (stage_rank(self) < stage_rank(other)),
    {
        self.rank() < other.rank()
    }

    /// All stages, in order.
    pub fn pipeline() -> (r: Vec<InGameSet>)
        ensures
            r@.len() == 4,
            forall|i: int| 0 <= i < 4 ==> stage_rank(#[trigger] r@[i]) == i,
    {
        vec![
            InGameSet::UserInput,
            InGameSet::EntityUpdates,
            InGameSet::CollisionDetection,
            InGameSet::DespawnEntities,
        ]
    }
}

} // verus!
