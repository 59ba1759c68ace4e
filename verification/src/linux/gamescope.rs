//! Steam Deck / Gamescope game-state detection: the focus snapshot read from
//! the Gamescope X atoms, the derivation of the active game, and the
//! classification into a game state.

use vstd::prelude::*;

use crate::config::SteamDeckGameStateConfig;
use crate::text::{
    chars_eq, chars_of, contains, contains_chars, find, find_chars, first_match, leading_run,
    leading_run_end, lemma_first_match_from, lower_seq, lines, lines_of, matches_at,
    matches_at_exec, parse_u32_chars, parse_unsigned, parse_unsigned_chars, runs, runs_of,
    slice_chars, split_once, split_once_chars, starts_with, starts_with_chars, string_of,
    to_lower_chars, trim, trim_chars, CharClass,
};

verus! {

broadcast use vstd::string::group_string_axioms;

/// The app id of the Steam client UI.
pub const STEAM_UI_APP_ID: u32 = 769;

/// The arguments of the `xprop` call that reads Gamescope's focus atoms
/// from the root window.
pub open spec fn gamescope_xprop_args_spec() -> Seq<Seq<char>> {
    seq![
        "-root"@,
        "GAMESCOPE_FOCUSED_APP_GFX"@,
        "GAMESCOPE_FOCUSED_APP"@,
        "GAMESCOPE_FOCUSED_WINDOW"@,
        "GAMESCOPE_FOCUSABLE_WINDOWS"@,
        "STEAM_GAMES_RUNNING"@,
        "GAMESCOPE_FOCUSABLE_APPS"@,
        "GAMESCOPE_FOCUSED_PID"@,
    ]
}

pub fn gamescope_xprop_args() -> (r: Vec<&'static str>)
    ensures
        r@.len() == gamescope_xprop_args_spec().len(),
        forall|k: int| 0 <= k < r@.len() ==> (#[trigger] r@[k])@ == gamescope_xprop_args_spec()[k],
{
    let mut v: Vec<&'static str> = Vec::new();
    v.push("-root");
    v.push("GAMESCOPE_FOCUSED_APP_GFX");
    v.push("GAMESCOPE_FOCUSED_APP");
    v.push("GAMESCOPE_FOCUSED_WINDOW");
    v.push("GAMESCOPE_FOCUSABLE_WINDOWS");
    v.push("STEAM_GAMES_RUNNING");
    v.push("GAMESCOPE_FOCUSABLE_APPS");
    v.push("GAMESCOPE_FOCUSED_PID");
    v
}

#[derive(Debug, Clone, Copy, PartialEq, Eq, Structural)]
pub enum DeckGameState {
    Idle,
    SteamUiOnly,
    GameRunningBackground,
    GameFocusedVisible,
    UnknownGameProcess,
}

impl DeckGameState {
    /// The label of the state.
    pub open spec fn label(self) -> Seq<char> {
        match self {
            DeckGameState::Idle => "idle"@,
            DeckGameState::SteamUiOnly => "steam_ui_only"@,
            DeckGameState::GameRunningBackground => "game_running_background"@,
            DeckGameState::GameFocusedVisible => "game_focused_visible"@,
            DeckGameState::UnknownGameProcess => "unknown_game_process"@,
        }
    }

    pub fn as_str(self) -> (r: &'static str)
        ensures
            r@ == self.label(),
    {
        match self {
            DeckGameState::Idle => "idle",
            DeckGameState::SteamUiOnly => "steam_ui_only",
            DeckGameState::GameRunningBackground => "game_running_background",
            DeckGameState::GameFocusedVisible => "game_focused_visible",
            DeckGameState::UnknownGameProcess => "unknown_game_process",
        }
    }

    pub open spec fn running(self) -> bool {
        self is GameRunningBackground || self is GameFocusedVisible
    }

    pub fn is_game_running(self) -> (r: bool)
        ensures
            r == self.running(),
    {
        match self {
            DeckGameState::GameRunningBackground | DeckGameState::GameFocusedVisible => true,
            _ => false,
        }
    }
}

#[derive(Debug, Clone, Copy, Default, PartialEq, Eq, Structural)]
pub struct GamescopeFocusableWindow {
    pub window_id: u32,
    pub app_id: u32,
    pub pid: u32,
}

#[derive(Debug, Clone, PartialEq, Eq)]
pub struct GamescopeFocusSnapshot {
    pub focused_app_id: Option<u32>,
    pub steam_focused: Option<bool>,
    pub focusable_app_ids: Vec<u32>,
    pub focused_pid: Option<u32>,
    pub focused_graphics_app_id: Option<u32>,
    pub focused_input_app_id: Option<u32>,
    pub focused_window_id: Option<u32>,
    pub steam_games_running: Option<u32>,
    pub focusable_windows: Vec<GamescopeFocusableWindow>,
    pub active_game_app_id: Option<u32>,
    pub active_game_pid: Option<u32>,
    pub detection_source: Option<String>,
}

impl Default for GamescopeFocusSnapshot {
    fn default() -> (r: Self)
        ensures
            r.is_empty_snapshot(),
    {
        GamescopeFocusSnapshot {
            focused_app_id: None,
            steam_focused: None,
            focusable_app_ids: Vec::new(),
            focused_pid: None,
            focused_graphics_app_id: None,
            focused_input_app_id: None,
            focused_window_id: None,
            steam_games_running: None,
            focusable_windows: Vec::new(),
            active_game_app_id: None,
            active_game_pid: None,
            detection_source: None,
        }
    }
}

/// Whether `app_id` can be a game: neither 0 nor the Steam UI.
pub open spec fn probable_game(app_id: u32) -> bool {
    app_id != 0 && app_id != STEAM_UI_APP_ID
}

pub fn is_probable_game_app_id(app_id: u32) -> (r: bool)
    ensures
        r == probable_game(app_id),
{
    app_id != 0 && app_id != STEAM_UI_APP_ID
}

pub open spec fn opt_str_view(o: Option<String>) -> Option<Seq<char>> {
    match o {
        Some(s) => Some(s@),
        None => None,
    }
}

pub open spec fn is_some_and_probable(o: Option<u32>) -> bool {
    o matches Some(a) && probable_game(a)
}

pub open spec fn any_probable(ids: Seq<u32>) -> bool {
    exists|i: int| 0 <= i < ids.len() && probable_game(#[trigger] ids[i])
}

pub open spec fn window_has(ws: Seq<GamescopeFocusableWindow>, window_id: u32, app_id: u32) -> bool {
    exists|i: int|
        0 <= i < ws.len() && (#[trigger] ws[i]).window_id == window_id && ws[i].app_id == app_id
}

impl GamescopeFocusSnapshot {
    pub open spec fn is_empty_snapshot(self) -> bool {
        &&& self.focused_app_id is None
        &&& self.steam_focused is None
        &&& self.focusable_app_ids@.len() == 0
        &&& self.focused_pid is None
        &&& self.focused_graphics_app_id is None
        &&& self.focused_input_app_id is None
        &&& self.focused_window_id is None
        &&& self.steam_games_running is None
        &&& self.focusable_windows@.len() == 0
        &&& self.active_game_app_id is None
        &&& self.active_game_pid is None
        &&& self.detection_source is None
    }

    /// The game state this snapshot shows.
    pub open spec fn classify_spec(self) -> DeckGameState {
        if let Some(app_id) = self.active_game_app_id {
            if !probable_game(app_id) {
                DeckGameState::SteamUiOnly
            } else if self.active_game_pid is None {
                DeckGameState::UnknownGameProcess
            } else if self.focused_graphics_app_id == Some(app_id) || self.focused_input_app_id
                == Some(app_id) || (self.focused_window_id matches Some(w) && window_has(
                self.focusable_windows@,
                w,
                app_id,
            )) || opt_str_view(self.detection_source) == Some("desktop_active_window"@) {
                DeckGameState::GameFocusedVisible
            } else {
                DeckGameState::GameRunningBackground
            }
        } else if is_some_and_probable(self.focused_graphics_app_id) || is_some_and_probable(
            self.focused_input_app_id,
        ) || is_some_and_probable(self.focused_app_id) || any_probable(self.focusable_app_ids@) {
            DeckGameState::UnknownGameProcess
        } else if self.focused_app_id == Some(STEAM_UI_APP_ID) || self.focused_input_app_id == Some(
            STEAM_UI_APP_ID,
        ) || self.focused_graphics_app_id == Some(STEAM_UI_APP_ID) || self.steam_focused == Some(
            true,
        ) || self.steam_games_running == Some(0u32) {
            DeckGameState::SteamUiOnly
        } else if self.focused_pid is Some {
            DeckGameState::UnknownGameProcess
        } else {
            DeckGameState::Idle
        }
    }

    pub fn classify(&self) -> (r: DeckGameState)
        ensures
            r == self.classify_spec(),
    {
        if let Some(app_id) = self.active_game_app_id {
            if !is_probable_game_app_id(app_id) {
                return DeckGameState::SteamUiOnly;
            }
            if self.active_game_pid.is_none() {
                return DeckGameState::UnknownGameProcess;
            }
            let by_window = match self.focused_window_id {
                Some(window_id) => self.window_has_game(window_id, app_id),
                None => false,
            };
            let by_desktop = match &self.detection_source {
                Some(source) => chars_eq(
                    &chars_of(source.as_str()),
                    &chars_of("desktop_active_window"),
                ),
                None => false,
            };
            if self.focused_graphics_app_id == Some(app_id) || self.focused_input_app_id == Some(
                app_id,
            ) || by_window || by_desktop {
                return DeckGameState::GameFocusedVisible;
            }
            return DeckGameState::GameRunningBackground;
        }
        let gfx = match self.focused_graphics_app_id {
            Some(a) => is_probable_game_app_id(a),
            None => false,
        };
        let input = match self.focused_input_app_id {
            Some(a) => is_probable_game_app_id(a),
            None => false,
        };
        let focused = match self.focused_app_id {
            Some(a) => is_probable_game_app_id(a),
            None => false,
        };
        if gfx || input || focused || any_probable_id(&self.focusable_app_ids) {
            return DeckGameState::UnknownGameProcess;
        }
        if self.focused_app_id == Some(STEAM_UI_APP_ID) || self.focused_input_app_id == Some(
            STEAM_UI_APP_ID,
        ) || self.focused_graphics_app_id == Some(STEAM_UI_APP_ID) || self.steam_focused == Some(
            true,
        ) || self.steam_games_running == Some(0u32) {
            return DeckGameState::SteamUiOnly;
        }
        if self.focused_pid.is_some() {
            return DeckGameState::UnknownGameProcess;
        }
        DeckGameState::Idle
    }

    pub fn window_has_game(&self, window_id: u32, app_id: u32) -> (r: bool)
        ensures
            r == window_has(self.focusable_windows@, window_id, app_id),
    {
        let mut i: usize = 0;
        while i < self.focusable_windows.len()
            invariant
                0 <= i <= self.focusable_windows@.len(),
                forall|j: int|
                    0 <= j < i ==> !((#[trigger] self.focusable_windows@[j]).window_id == window_id
                        && self.focusable_windows@[j].app_id == app_id),
            decreases self.focusable_windows.len() - i,
        {
            let w = self.focusable_windows[i];
            if w.window_id == window_id && w.app_id == app_id {
                return true;
            }
            i += 1;
        }
        false
    }

    /// Whether any Gamescope atom was read into this snapshot.
    pub open spec fn has_signal(self) -> bool {
        ||| self.focused_app_id is Some
        ||| self.focused_graphics_app_id is Some
        ||| self.focused_input_app_id is Some
        ||| self.focused_window_id is Some
        ||| self.steam_games_running is Some
        ||| self.focusable_windows@.len() > 0
        ||| self.focusable_app_ids@.len() > 0
        ||| self.focused_pid is Some
    }

    pub fn has_gamescope_signal(&self) -> (r: bool)
        ensures
            r == self.has_signal(),
    {
        self.focused_app_id.is_some() || self.focused_graphics_app_id.is_some()
            || self.focused_input_app_id.is_some() || self.focused_window_id.is_some()
            || self.steam_games_running.is_some() || self.focusable_windows.len() > 0
            || self.focusable_app_ids.len() > 0 || self.focused_pid.is_some()
    }
}

pub fn any_probable_id(ids: &Vec<u32>) -> (r: bool)
    ensures
        r == any_probable(ids@),
{
    let mut i: usize = 0;
    while i < ids.len()
        invariant
            0 <= i <= ids@.len(),
            forall|j: int| 0 <= j < i ==> !probable_game(#[trigger] ids@[j]),
        decreases ids.len() - i,
    {
        if is_probable_game_app_id(ids[i]) {
            return true;
        }
        i += 1;
    }
    false
}

// ---------------------------------------------------------------------------
// Deriving the active game
// ---------------------------------------------------------------------------

pub open spec fn focus_window_pred(ws: Seq<GamescopeFocusableWindow>, w: u32) -> spec_fn(int) -> bool {
    |i: int| ws[i].window_id == w && probable_game(ws[i].app_id)
}

pub open spec fn live_app_pred(ws: Seq<GamescopeFocusableWindow>, live: Seq<bool>, a: u32) -> spec_fn(
    int,
) -> bool {
    |i: int| ws[i].app_id == a && ws[i].pid != 0 && live[i]
}

pub open spec fn live_game_pred(ws: Seq<GamescopeFocusableWindow>, live: Seq<bool>) -> spec_fn(
    int,
) -> bool {
    |i: int| probable_game(ws[i].app_id) && live[i]
}

pub open spec fn probable_pred(ids: Seq<u32>) -> spec_fn(int) -> bool {
    |i: int| probable_game(ids[i])
}

/// The live pid of the first focusable window of app `a` (pid not 0).
pub open spec fn pid_for(ws: Seq<GamescopeFocusableWindow>, live: Seq<bool>, a: u32) -> Option<u32> {
    match first_match(ws.len() as int, live_app_pred(ws, live, a)) {
        Some(i) => Some(ws[i].pid),
        None => None,
    }
}

/// The active game derived from a snapshot, given for each focusable window
/// whether its process exists: `(app id, pid, detection source)`.
pub open spec fn derived_game(s: GamescopeFocusSnapshot, live: Seq<bool>) -> (
    Option<u32>,
    Option<u32>,
    Option<Seq<char>>,
) {
    let ws = s.focusable_windows@;
    let ids = s.focusable_app_ids@;
    let n = ws.len() as int;
    let by_window = match s.focused_window_id {
        Some(w) => first_match(n, focus_window_pred(ws, w)),
        None => None,
    };
    if let Some(i) = by_window {
        (
            Some(ws[i].app_id),
            if ws[i].pid != 0 && live[i] {
                Some(ws[i].pid)
            } else {
                None
            },
            Some("gamescope_focused_window"@),
        )
    } else if is_some_and_probable(s.focused_graphics_app_id) {
        let a = s.focused_graphics_app_id->0;
        (Some(a), pid_for(ws, live, a), Some("gamescope_focused_app_gfx"@))
    } else if is_some_and_probable(s.focused_input_app_id) {
        let a = s.focused_input_app_id->0;
        (Some(a), pid_for(ws, live, a), Some("gamescope_focused_app"@))
    } else if (s.steam_games_running matches Some(k) && k > 0) && first_match(
        n,
        live_game_pred(ws, live),
    ) is Some {
        let i = first_match(n, live_game_pred(ws, live))->0;
        (Some(ws[i].app_id), Some(ws[i].pid), Some("gamescope_focusable_window"@))
    } else if first_match(ids.len() as int, probable_pred(ids)) is Some {
        let k = first_match(ids.len() as int, probable_pred(ids))->0;
        (Some(ids[k]), None, Some("gamescope_focusable_app_legacy"@))
    } else {
        (None, None, None)
    }
}

/// Whether `liveness` holds, for each focusable window, what `pid_exists`
/// answered for its pid.
pub open spec fn liveness_of<F: Fn(u32) -> bool>(
    pid_exists: F,
    ws: Seq<GamescopeFocusableWindow>,
    liveness: Seq<bool>,
) -> bool {
    &&& liveness.len() == ws.len()
    &&& forall|i: int| 0 <= i < ws.len() ==> pid_exists.ensures((ws[i].pid,), #[trigger] liveness[i])
}

impl GamescopeFocusSnapshot {
    /// Whether the two snapshots agree on everything read from Gamescope.
    pub open spec fn same_observation(self, other: Self) -> bool {
        &&& self.focused_app_id == other.focused_app_id
        &&& self.steam_focused == other.steam_focused
        &&& self.focusable_app_ids@ == other.focusable_app_ids@
        &&& self.focused_pid == other.focused_pid
        &&& self.focused_graphics_app_id == other.focused_graphics_app_id
        &&& self.focused_input_app_id == other.focused_input_app_id
        &&& self.focused_window_id == other.focused_window_id
        &&& self.steam_games_running == other.steam_games_running
        &&& self.focusable_windows@ == other.focusable_windows@
    }

    /// Whether `self` is `old` with the active game derived from it.
    pub open spec fn derived_from(self, old: Self, live: Seq<bool>) -> bool {
        &&& self.same_observation(old)
        &&& (self.active_game_app_id, self.active_game_pid, opt_str_view(self.detection_source))
            == derived_game(old, live)
    }

    fn first_focused_window(&self, window_id: u32) -> (r: Option<usize>)
        ensures
            r matches Some(i) ==> i < self.focusable_windows@.len(),
            r matches Some(i) ==> first_match(
                self.focusable_windows@.len() as int,
                focus_window_pred(self.focusable_windows@, window_id),
            ) == Some(i as int),
            r is None ==> first_match(
                self.focusable_windows@.len() as int,
                focus_window_pred(self.focusable_windows@, window_id),
            ) is None,
    {
        let ghost ws = self.focusable_windows@;
        let ghost p = focus_window_pred(ws, window_id);
        let mut i: usize = 0;
        while i < self.focusable_windows.len()
            invariant
                ws == self.focusable_windows@,
                p == focus_window_pred(ws, window_id),
                0 <= i <= ws.len(),
                forall|j: int| 0 <= j < i ==> !#[trigger] p(j),
            decreases ws.len() - i,
        {
            let w = self.focusable_windows[i];
            if w.window_id == window_id && is_probable_game_app_id(w.app_id) {
                proof {
                    lemma_first_match_from(0, ws.len() as int, p, i as int);
                }
                return Some(i);
            }
            i += 1;
        }
        proof {
            lemma_first_match_from(0, ws.len() as int, p, ws.len() as int);
        }
        None
    }

    fn pid_for_app_id(&self, app_id: u32, live: &Vec<bool>) -> (r: Option<u32>)
        requires
            live@.len() == self.focusable_windows@.len(),
        ensures
            r == pid_for(self.focusable_windows@, live@, app_id),
    {
        let ghost ws = self.focusable_windows@;
        let ghost p = live_app_pred(ws, live@, app_id);
        let mut i: usize = 0;
        while i < self.focusable_windows.len()
            invariant
                ws == self.focusable_windows@,
                live@.len() == ws.len(),
                p == live_app_pred(ws, live@, app_id),
                0 <= i <= ws.len(),
                forall|j: int| 0 <= j < i ==> !#[trigger] p(j),
            decreases ws.len() - i,
        {
            let w = self.focusable_windows[i];
            if w.app_id == app_id && w.pid != 0 && live[i] {
                proof {
                    lemma_first_match_from(0, ws.len() as int, p, i as int);
                }
                return Some(w.pid);
            }
            i += 1;
        }
        proof {
            lemma_first_match_from(0, ws.len() as int, p, ws.len() as int);
        }
        None
    }

    fn first_live_game_window(&self, live: &Vec<bool>) -> (r: Option<usize>)
        requires
            live@.len() == self.focusable_windows@.len(),
        ensures
            r matches Some(i) ==> i < self.focusable_windows@.len(),
            r matches Some(i) ==> first_match(
                self.focusable_windows@.len() as int,
                live_game_pred(self.focusable_windows@, live@),
            ) == Some(i as int),
            r is None ==> first_match(
                self.focusable_windows@.len() as int,
                live_game_pred(self.focusable_windows@, live@),
            ) is None,
    {
        let ghost ws = self.focusable_windows@;
        let ghost p = live_game_pred(ws, live@);
        let mut i: usize = 0;
        while i < self.focusable_windows.len()
            invariant
                ws == self.focusable_windows@,
                live@.len() == ws.len(),
                p == live_game_pred(ws, live@),
                0 <= i <= ws.len(),
                forall|j: int| 0 <= j < i ==> !#[trigger] p(j),
            decreases ws.len() - i,
        {
            let w = self.focusable_windows[i];
            if is_probable_game_app_id(w.app_id) && live[i] {
                proof {
                    lemma_first_match_from(0, ws.len() as int, p, i as int);
                }
                return Some(i);
            }
            i += 1;
        }
        proof {
            lemma_first_match_from(0, ws.len() as int, p, ws.len() as int);
        }
        None
    }

    fn first_probable_app(&self) -> (r: Option<usize>)
        ensures
            r matches Some(i) ==> i < self.focusable_app_ids@.len(),
            r matches Some(i) ==> first_match(
                self.focusable_app_ids@.len() as int,
                probable_pred(self.focusable_app_ids@),
            ) == Some(i as int),
            r is None ==> first_match(
                self.focusable_app_ids@.len() as int,
                probable_pred(self.focusable_app_ids@),
            ) is None,
    {
        let ghost ids = self.focusable_app_ids@;
        let ghost p = probable_pred(ids);
        let mut i: usize = 0;
        while i < self.focusable_app_ids.len()
            invariant
                ids == self.focusable_app_ids@,
                p == probable_pred(ids),
                0 <= i <= ids.len(),
                forall|j: int| 0 <= j < i ==> !#[trigger] p(j),
            decreases ids.len() - i,
        {
            if is_probable_game_app_id(self.focusable_app_ids[i]) {
                proof {
                    lemma_first_match_from(0, ids.len() as int, p, i as int);
                }
                return Some(i);
            }
            i += 1;
        }
        proof {
            lemma_first_match_from(0, ids.len() as int, p, ids.len() as int);
        }
        None
    }

    /// Derives the active game, given for each focusable window whether its
    /// process exists (`live[i]` for `focusable_windows[i]`).
    pub fn derive_active_game_with_liveness(&mut self, live: &Vec<bool>)
        requires
            live@.len() == old(self).focusable_windows@.len(),
        ensures
            final(self).derived_from(*old(self), live@),
    {
        self.active_game_app_id = None;
        self.active_game_pid = None;
        self.detection_source = None;

        if let Some(window_id) = self.focused_window_id {
            if let Some(i) = self.first_focused_window(window_id) {
                let window = self.focusable_windows[i];
                self.active_game_app_id = Some(window.app_id);
                if window.pid != 0 && live[i] {
                    self.active_game_pid = Some(window.pid);
                }
                self.detection_source = Some("gamescope_focused_window".to_string());
                return;
            }
        }
        if let Some(app_id) = self.focused_graphics_app_id {
            if is_probable_game_app_id(app_id) {
                self.active_game_app_id = Some(app_id);
                self.active_game_pid = self.pid_for_app_id(app_id, live);
                self.detection_source = Some("gamescope_focused_app_gfx".to_string());
                return;
            }
        }
        if let Some(app_id) = self.focused_input_app_id {
            if is_probable_game_app_id(app_id) {
                self.active_game_app_id = Some(app_id);
                self.active_game_pid = self.pid_for_app_id(app_id, live);
                self.detection_source = Some("gamescope_focused_app".to_string());
                return;
            }
        }
        let running = match self.steam_games_running {
            Some(k) => k > 0,
            None => false,
        };
        if running {
            if let Some(i) = self.first_live_game_window(live) {
                let window = self.focusable_windows[i];
                self.active_game_app_id = Some(window.app_id);
                self.active_game_pid = Some(window.pid);
                self.detection_source = Some("gamescope_focusable_window".to_string());
                return;
            }
        }
        if let Some(k) = self.first_probable_app() {
            self.active_game_app_id = Some(self.focusable_app_ids[k]);
            self.detection_source = Some("gamescope_focusable_app_legacy".to_string());
        }
    }

    /// Derives the active game, asking `pid_exists` once per focusable
    /// window whether its process exists.
    pub fn derive_active_game<F: Fn(u32) -> bool>(&mut self, pid_exists: F)
        requires
            forall|pid: u32| pid_exists.requires((pid,)),
        ensures
            exists|live: Seq<bool>|
                #[trigger] liveness_of(pid_exists, old(self).focusable_windows@, live)
                    && final(self).derived_from(*old(self), live),
    {
        let mut live: Vec<bool> = Vec::new();
        let mut i: usize = 0;
        while i < self.focusable_windows.len()
            invariant
                forall|pid: u32| pid_exists.requires((pid,)),
                0 <= i <= self.focusable_windows@.len(),
                live@.len() == i,
                forall|j: int|
                    0 <= j < i ==> pid_exists.ensures(
                        (self.focusable_windows@[j].pid,),
                        #[trigger] live@[j],
                    ),
            decreases self.focusable_windows.len() - i,
        {
            let alive = pid_exists(self.focusable_windows[i].pid);
            live.push(alive);
            i += 1;
        }
        let ghost old_self = *self;
        self.derive_active_game_with_liveness(&live);
        assert(liveness_of(pid_exists, old_self.focusable_windows@, live@));
        assert(self.derived_from(old_self, live@));
    }
}

// ---------------------------------------------------------------------------
// Parsing `xprop -root` output
// ---------------------------------------------------------------------------

/// The numbers of the runs `rs` that parse as `u32`, in order.
pub open spec fn parsed_u32s(rs: Seq<Seq<char>>) -> Seq<u32>
    decreases rs.len(),
{
    if rs.len() == 0 {
        seq![]
    } else {
        let head = parsed_u32s(rs.drop_last());
        match parse_unsigned(rs.last(), 10, u32::MAX as nat) {
            Some(v) => head.push(v as u32),
            None => head,
        }
    }
}

/// The `u32` values after the first `'='` of `line`: its runs of ASCII
/// digits that parse as `u32`.
pub open spec fn u32s_after_equals(line: Seq<char>) -> Seq<u32> {
    match split_once(line, '=') {
        Some((_, rhs)) => parsed_u32s(runs(rhs, CharClass::AsciiDigit)),
        None => seq![],
    }
}

pub open spec fn first_u32_after(line: Seq<char>) -> Option<u32> {
    let v = u32s_after_equals(line);
    if v.len() > 0 {
        Some(v[0])
    } else {
        None
    }
}

/// Consecutive triples `(window id, app id, pid)`; a trailing partial
/// triple is dropped.
pub open spec fn windows_from_ids(ids: Seq<u32>) -> Seq<GamescopeFocusableWindow> {
    Seq::new(
        ids.len() / 3,
        |i: int|
            GamescopeFocusableWindow {
                window_id: ids[3 * i],
                app_id: ids[3 * i + 1],
                pid: ids[3 * i + 2],
            },
    )
}

pub open spec fn app_ids_of(ws: Seq<GamescopeFocusableWindow>) -> Seq<u32> {
    Seq::new(ws.len(), |i: int| ws[i].app_id)
}

/// What the atoms read so far hold: focused app (graphics), focused app
/// (input), focused window, focusable windows, focusable app ids, games
/// running, focused pid.
pub type XpropAtoms = (
    Option<u32>,
    Option<u32>,
    Option<u32>,
    Seq<GamescopeFocusableWindow>,
    Seq<u32>,
    Option<u32>,
    Option<u32>,
);

/// The atoms after reading one more line of `xprop` output.
pub open spec fn apply_xprop_line(st: XpropAtoms, line: Seq<char>) -> XpropAtoms {
    if starts_with(line, "GAMESCOPE_FOCUSED_APP_GFX"@) {
        (first_u32_after(line), st.1, st.2, st.3, st.4, st.5, st.6)
    } else if starts_with(line, "GAMESCOPE_FOCUSED_APP"@) {
        (st.0, first_u32_after(line), st.2, st.3, st.4, st.5, st.6)
    } else if starts_with(line, "GAMESCOPE_FOCUSED_WINDOW"@) {
        (st.0, st.1, first_u32_after(line), st.3, st.4, st.5, st.6)
    } else if starts_with(line, "GAMESCOPE_FOCUSABLE_WINDOWS"@) {
        let ws = windows_from_ids(u32s_after_equals(line));
        (st.0, st.1, st.2, ws, app_ids_of(ws), st.5, st.6)
    } else if starts_with(line, "STEAM_GAMES_RUNNING"@) {
        (st.0, st.1, st.2, st.3, st.4, first_u32_after(line), st.6)
    } else if starts_with(line, "GAMESCOPE_FOCUSABLE_APPS"@) {
        (st.0, st.1, st.2, st.3, u32s_after_equals(line), st.5, st.6)
    } else if starts_with(line, "GAMESCOPE_FOCUSED_PID"@) {
        (st.0, st.1, st.2, st.3, st.4, st.5, first_u32_after(line))
    } else {
        st
    }
}

/// The atoms read from the lines `ls`, in order.
pub open spec fn xprop_atoms(ls: Seq<Seq<char>>) -> XpropAtoms
    decreases ls.len(),
{
    if ls.len() == 0 {
        (None, None, None, seq![], seq![], None, None)
    } else {
        apply_xprop_line(xprop_atoms(ls.drop_last()), ls.last())
    }
}

impl GamescopeFocusSnapshot {
    /// Whether `self` is the snapshot that `xprop -root` output `text` shows.
    pub open spec fn parsed_from_xprop(self, text: Seq<char>) -> bool {
        let a = xprop_atoms(lines(text));
        let focused = match a.1 {
            Some(x) => Some(x),
            None => a.0,
        };
        let steam = match a.1 {
            Some(x) => Some(x),
            None => focused,
        };
        &&& self.focused_graphics_app_id == a.0
        &&& self.focused_input_app_id == a.1
        &&& self.focused_window_id == a.2
        &&& self.focusable_windows@ == a.3
        &&& self.focusable_app_ids@ == a.4
        &&& self.steam_games_running == a.5
        &&& self.focused_pid == a.6
        &&& self.focused_app_id == focused
        &&& self.steam_focused == (match steam {
            Some(x) => Some(x == STEAM_UI_APP_ID),
            None => None,
        })
        &&& self.active_game_app_id is None
        &&& self.active_game_pid is None
        &&& self.detection_source is None
    }
}

/// The `u32` values after the first `'='` of `line`.
pub fn all_u32_after_equals(line: &[char]) -> (r: Vec<u32>)
    ensures
        r@ == u32s_after_equals(line@),
{
    match split_once_chars(line, '=') {
        None => Vec::new(),
        Some((_, rhs)) => {
            let rs = runs_of(&rhs, CharClass::AsciiDigit);
            let ghost spec_runs = runs(rhs@, CharClass::AsciiDigit);
            let mut out: Vec<u32> = Vec::new();
            let mut i: usize = 0;
            while i < rs.len()
                invariant
                    0 <= i <= rs@.len(),
                    rs@.len() == spec_runs.len(),
                    forall|k: int| 0 <= k < rs@.len() ==> (#[trigger] rs@[k])@ == spec_runs[k],
                    out@ == parsed_u32s(spec_runs.take(i as int)),
                decreases rs.len() - i,
            {
                let v = parse_u32_chars(&rs[i]);
                assert(spec_runs.take(i + 1).drop_last() =~= spec_runs.take(i as int));
                assert(rs@[i as int]@ == spec_runs.take(i + 1).last());
                if let Some(x) = v {
                    out.push(x);
                }
                i += 1;
            }
            assert(spec_runs.take(rs.len() as int) =~= spec_runs);
            out
        },
    }
}

/// The first `u32` value after the first `'='` of `line`.
pub fn first_u32_after_equals(line: &[char]) -> (r: Option<u32>)
    ensures
        r == first_u32_after(line@),
{
    let v = all_u32_after_equals(line);
    if v.len() > 0 {
        Some(v[0])
    } else {
        None
    }
}

/// The focusable windows listed on a `GAMESCOPE_FOCUSABLE_WINDOWS` line.
pub fn parse_focusable_windows(line: &[char]) -> (r: Vec<GamescopeFocusableWindow>)
    ensures
        r@ == windows_from_ids(u32s_after_equals(line@)),
{
    let ids = all_u32_after_equals(line);
    let mut out: Vec<GamescopeFocusableWindow> = Vec::new();
    let mut i: usize = 0;
    let mut j: usize = 0;
    let n = ids.len() / 3;
    while i < n
        invariant
            n == ids@.len() / 3,
            0 <= i <= n,
            j == 3 * i,
            j <= ids@.len(),
            out@ =~= windows_from_ids(ids@).take(i as int),
        decreases n - i,
    {
        assert(j + 3 <= ids@.len()) by (nonlinear_arith)
            requires
                i < n,
                n == ids@.len() / 3,
                j == 3 * i,
        ;
        assert(ids@.len() == ids.len());
        let w = GamescopeFocusableWindow { window_id: ids[j], app_id: ids[j + 1], pid: ids[j + 2] };
        out.push(w);
        i += 1;
        j += 3;
    }
    out
}

fn app_ids_of_windows(ws: &Vec<GamescopeFocusableWindow>) -> (r: Vec<u32>)
    ensures
        r@ == app_ids_of(ws@),
{
    let mut out: Vec<u32> = Vec::new();
    let mut i: usize = 0;
    while i < ws.len()
        invariant
            0 <= i <= ws@.len(),
            out@ =~= app_ids_of(ws@).take(i as int),
        decreases ws.len() - i,
    {
        out.push(ws[i].app_id);
        i += 1;
    }
    out
}

/// Reads the Gamescope atoms from the output of `xprop -root`.
pub fn parse_xprop_output(output: &str) -> (r: GamescopeFocusSnapshot)
    ensures
        r.parsed_from_xprop(output@),
{
    let text = chars_of(output);
    let ls = lines_of(&text);
    let ghost spec_lines = lines(text@);
    let gfx_key = chars_of("GAMESCOPE_FOCUSED_APP_GFX");
    let app_key = chars_of("GAMESCOPE_FOCUSED_APP");
    let window_key = chars_of("GAMESCOPE_FOCUSED_WINDOW");
    let windows_key = chars_of("GAMESCOPE_FOCUSABLE_WINDOWS");
    let running_key = chars_of("STEAM_GAMES_RUNNING");
    let apps_key = chars_of("GAMESCOPE_FOCUSABLE_APPS");
    let pid_key = chars_of("GAMESCOPE_FOCUSED_PID");
    let mut snapshot = GamescopeFocusSnapshot::default();
    let mut i: usize = 0;
    while i < ls.len()
        invariant
            0 <= i <= ls@.len(),
            ls@.len() == spec_lines.len(),
            forall|k: int| 0 <= k < ls@.len() ==> (#[trigger] ls@[k])@ == spec_lines[k],
            gfx_key@ == "GAMESCOPE_FOCUSED_APP_GFX"@,
            app_key@ == "GAMESCOPE_FOCUSED_APP"@,
            window_key@ == "GAMESCOPE_FOCUSED_WINDOW"@,
            windows_key@ == "GAMESCOPE_FOCUSABLE_WINDOWS"@,
            running_key@ == "STEAM_GAMES_RUNNING"@,
            apps_key@ == "GAMESCOPE_FOCUSABLE_APPS"@,
            pid_key@ == "GAMESCOPE_FOCUSED_PID"@,
            xprop_atoms(spec_lines.take(i as int)) == (
                snapshot.focused_graphics_app_id,
                snapshot.focused_input_app_id,
                snapshot.focused_window_id,
                snapshot.focusable_windows@,
                snapshot.focusable_app_ids@,
                snapshot.steam_games_running,
                snapshot.focused_pid,
            ),
            snapshot.focused_app_id is None,
            snapshot.steam_focused is None,
            snapshot.active_game_app_id is None,
            snapshot.active_game_pid is None,
            snapshot.detection_source is None,
        decreases ls.len() - i,
    {
        let line = &ls[i];
        assert(spec_lines.take(i + 1).drop_last() =~= spec_lines.take(i as int));
        assert(line@ == spec_lines.take(i + 1).last());
        if starts_with_chars(line, &gfx_key) {
            snapshot.focused_graphics_app_id = first_u32_after_equals(line);
        } else if starts_with_chars(line, &app_key) {
            snapshot.focused_input_app_id = first_u32_after_equals(line);
        } else if starts_with_chars(line, &window_key) {
            snapshot.focused_window_id = first_u32_after_equals(line);
        } else if starts_with_chars(line, &windows_key) {
            let ws = parse_focusable_windows(line);
            snapshot.focusable_app_ids = app_ids_of_windows(&ws);
            snapshot.focusable_windows = ws;
        } else if starts_with_chars(line, &running_key) {
            snapshot.steam_games_running = first_u32_after_equals(line);
        } else if starts_with_chars(line, &apps_key) {
            snapshot.focusable_app_ids = all_u32_after_equals(line);
        } else if starts_with_chars(line, &pid_key) {
            snapshot.focused_pid = first_u32_after_equals(line);
        }
        i += 1;
    }
    assert(spec_lines.take(ls.len() as int) =~= spec_lines);
    snapshot.focused_app_id = match snapshot.focused_input_app_id {
        Some(x) => Some(x),
        None => snapshot.focused_graphics_app_id,
    };
    let steam = match snapshot.focused_input_app_id {
        Some(x) => Some(x),
        None => snapshot.focused_app_id,
    };
    snapshot.steam_focused = match steam {
        Some(x) => Some(x == STEAM_UI_APP_ID),
        None => None,
    };
    snapshot
}

// ---------------------------------------------------------------------------
// Window ids, pids and Steam app ids found in text
// ---------------------------------------------------------------------------

pub open spec fn opt_u32(o: Option<nat>) -> Option<u32> {
    match o {
        Some(v) => Some(v as u32),
        None => None,
    }
}

/// The index of the first line starting with `p`.
pub open spec fn first_line_with_prefix(ls: Seq<Seq<char>>, p: Seq<char>) -> Option<int> {
    first_match(ls.len() as int, prefix_pred(ls, p))
}

pub open spec fn prefix_pred(ls: Seq<Seq<char>>, p: Seq<char>) -> spec_fn(int) -> bool {
    |i: int| starts_with(ls[i], p)
}

/// A window id: the first token (split at whitespace and `','`), in hex
/// after a `"0x"` prefix, else in decimal.
pub open spec fn window_id_value(v: Seq<char>) -> Option<u32> {
    let toks = runs(v, CharClass::NonWhitespaceNorComma);
    if toks.len() == 0 {
        None
    } else if starts_with(toks[0], "0x"@) {
        opt_u32(parse_unsigned(toks[0].skip(2), 16, u32::MAX as nat))
    } else {
        opt_u32(parse_unsigned(toks[0], 10, u32::MAX as nat))
    }
}

/// The active window id in the output of `xprop -root _NET_ACTIVE_WINDOW`.
pub open spec fn active_window_id(text: Seq<char>) -> Option<u32> {
    let ls = lines(text);
    match first_line_with_prefix(ls, "_NET_ACTIVE_WINDOW"@) {
        Some(i) => match split_once(ls[i], '#') {
            Some((_, rhs)) => window_id_value(trim(rhs)),
            None => None,
        },
        None => None,
    }
}

/// The pid in the output of `xprop -id <window> _NET_WM_PID`.
pub open spec fn wm_pid(text: Seq<char>) -> Option<u32> {
    let ls = lines(text);
    match first_line_with_prefix(ls, "_NET_WM_PID"@) {
        Some(i) => first_u32_after(ls[i]),
        None => None,
    }
}

fn first_line_with(ls: &Vec<Vec<char>>, p: &Vec<char>, Ghost(spec_ls): Ghost<Seq<Seq<char>>>) -> (r:
    Option<usize>)
    requires
        ls@.len() == spec_ls.len(),
        forall|k: int| 0 <= k < ls@.len() ==> (#[trigger] ls@[k])@ == spec_ls[k],
    ensures
        r matches Some(i) ==> i < ls@.len() && first_line_with_prefix(spec_ls, p@) == Some(i as int),
        r is None ==> first_line_with_prefix(spec_ls, p@) is None,
{
    let ghost pred = prefix_pred(spec_ls, p@);
    let mut i: usize = 0;
    while i < ls.len()
        invariant
            0 <= i <= ls@.len(),
            ls@.len() == spec_ls.len(),
            forall|k: int| 0 <= k < ls@.len() ==> (#[trigger] ls@[k])@ == spec_ls[k],
            pred == prefix_pred(spec_ls, p@),
            forall|j: int| 0 <= j < i ==> !#[trigger] pred(j),
        decreases ls.len() - i,
    {
        if starts_with_chars(&ls[i], p) {
            proof {
                lemma_first_match_from(0, ls@.len() as int, pred, i as int);
            }
            return Some(i);
        }
        i += 1;
    }
    proof {
        lemma_first_match_from(0, ls@.len() as int, pred, ls@.len() as int);
    }
    None
}

/// Parses a window id (decimal, or hex after `"0x"`).
pub fn parse_window_id(value: &[char]) -> (r: Option<u32>)
    ensures
        r == window_id_value(value@),
{
    let toks = runs_of(value, CharClass::NonWhitespaceNorComma);
    if toks.len() == 0 {
        return None;
    }
    let tok = &toks[0];
    let prefix = chars_of("0x");
    proof {
        reveal_strlit("0x");
    }
    if starts_with_chars(tok, &prefix) {
        let hex = slice_chars(tok, 2, tok.len());
        assert(hex@ =~= tok@.skip(2));
        match parse_unsigned_chars(&hex, 16, u32::MAX as u64) {
            Some(v) => Some(v as u32),
            None => None,
        }
    } else {
        parse_u32_chars(tok)
    }
}

/// The active window id in the output of `xprop -root _NET_ACTIVE_WINDOW`.
pub fn parse_active_window_id(output: &str) -> (r: Option<u32>)
    ensures
        r == active_window_id(output@),
{
    let text = chars_of(output);
    let ls = lines_of(&text);
    let key = chars_of("_NET_ACTIVE_WINDOW");
    match first_line_with(&ls, &key, Ghost(lines(text@))) {
        Some(i) => match split_once_chars(&ls[i], '#') {
            Some((_, rhs)) => parse_window_id(&trim_chars(&rhs)),
            None => None,
        },
        None => None,
    }
}

/// The pid in the output of `xprop -id <window> _NET_WM_PID`.
pub fn parse_wm_pid(output: &str) -> (r: Option<u32>)
    ensures
        r == wm_pid(output@),
{
    let text = chars_of(output);
    let ls = lines_of(&text);
    let key = chars_of("_NET_WM_PID");
    match first_line_with(&ls, &key, Ghost(lines(text@))) {
        Some(i) => first_u32_after_equals(&ls[i]),
        None => None,
    }
}

/// The app id written after `"steam_app_"` at position `i`.
pub open spec fn app_id_after_marker(v: Seq<char>, i: int) -> Option<nat> {
    parse_unsigned(leading_run(v.skip(i + 10), CharClass::AsciiDigit), 10, u32::MAX as nat)
}

pub open spec fn steam_app_marker_pred(v: Seq<char>) -> spec_fn(int) -> bool {
    |i: int|
        matches_at(v, "steam_app_"@, i) && (app_id_after_marker(v, i) matches Some(a)
            && probable_game(a as u32))
}

/// The first game app id written as `steam_app_<digits>` in `v`.
pub open spec fn steam_app_id_in_text(v: Seq<char>) -> Option<u32> {
    match first_match(v.len() as int, steam_app_marker_pred(v)) {
        Some(i) => opt_u32(app_id_after_marker(v, i)),
        None => None,
    }
}

/// The app id after `"AppId="` in a Steam launch command line.
pub open spec fn steam_launch_app_id_spec(cmdline: Seq<char>) -> Option<u32> {
    if !contains(cmdline, "SteamLaunch"@) {
        None
    } else {
        match find(cmdline, "AppId="@) {
            Some(k) => opt_u32(
                parse_unsigned(leading_run(cmdline.skip(k + 6), CharClass::AsciiDigit), 10, u32::MAX as nat),
            ),
            None => None,
        }
    }
}

/// The digits at `v[from..]`, parsed as a `u32`.
fn u32_digits_at(v: &[char], from: usize) -> (r: Option<u32>)
    requires
        from <= v.len(),
    ensures
        r == opt_u32(
            parse_unsigned(leading_run(v@.skip(from as int), CharClass::AsciiDigit), 10, u32::MAX as nat),
        ),
{
    let end = leading_run_end(v, from, CharClass::AsciiDigit);
    let digits = slice_chars(v, from, end);
    parse_u32_chars(&digits)
}

/// The first game app id written as `steam_app_<digits>` in `value`.
pub fn steam_app_id_from_text(value: &str) -> (r: Option<u32>)
    ensures
        r == steam_app_id_in_text(value@),
{
    let v = chars_of(value);
    let marker = chars_of("steam_app_");
    proof {
        reveal_strlit("steam_app_");
    }
    let ghost pred = steam_app_marker_pred(v@);
    let mut i: usize = 0;
    while i < v.len()
        invariant
            0 <= i <= v@.len(),
            marker@ == "steam_app_"@,
            marker@.len() == 10,
            v@ == value@,
            pred == steam_app_marker_pred(v@),
            forall|j: int| 0 <= j < i ==> !#[trigger] pred(j),
        decreases v.len() - i,
    {
        if matches_at_exec(&v, &marker, i) {
            let id = u32_digits_at(&v, i + 10);
            if let Some(a) = id {
                if is_probable_game_app_id(a) {
                    assert(matches_at(v@, "steam_app_"@, i as int));
                    assert(app_id_after_marker(v@, i as int) is Some);
                    assert(pred(i as int));
                    proof {
                        lemma_first_match_from(0, v@.len() as int, pred, i as int);
                    }
                    return Some(a);
                }
            }
        }
        i += 1;
    }
    proof {
        lemma_first_match_from(0, v@.len() as int, pred, v@.len() as int);
    }
    None
}

/// The app id after `"AppId="` in a Steam launch command line.
pub fn steam_launch_app_id(cmdline: &str) -> (r: Option<u32>)
    ensures
        r == steam_launch_app_id_spec(cmdline@),
{
    let v = chars_of(cmdline);
    if !contains_chars(&v, &chars_of("SteamLaunch")) {
        return None;
    }
    let key = chars_of("AppId=");
    proof {
        reveal_strlit("AppId=");
    }
    match find_chars(&v, &key) {
        Some(k) => {
            proof {
                crate::text::lemma_find_from_bounds(v@, key@, 0);
                assert(key@.len() == 6);
                assert(matches_at(v@, key@, k as int));
                assert(v@.len() == v.len());
            }
            u32_digits_at(&v, k + 6)
        },
        None => None,
    }
}

/// `Some(value.trim())`, unless that is empty.
pub open spec fn non_empty_trimmed(v: Seq<char>) -> Option<Seq<char>> {
    if trim(v).len() == 0 {
        None
    } else {
        Some(trim(v))
    }
}

pub fn non_empty_string(value: &str) -> (r: Option<String>)
    ensures
        opt_str_view(r) == non_empty_trimmed(value@),
{
    let t = trim_chars(&chars_of(value));
    if t.len() == 0 {
        None
    } else {
        Some(string_of(&t))
    }
}

// ---------------------------------------------------------------------------
// Processes that are not games
// ---------------------------------------------------------------------------

/// The last component of a Unix path, as `Path::file_name` gives it.
pub open spec fn last_name(segs: Seq<Seq<char>>) -> Option<Seq<char>>
    decreases segs.len(),
{
    if segs.len() == 0 {
        None
    } else if segs.last() == "."@ {
        last_name(segs.drop_last())
    } else {
        Some(segs.last())
    }
}

pub open spec fn path_file_name(p: Seq<char>) -> Option<Seq<char>> {
    match last_name(runs(p, CharClass::NonSlash)) {
        Some(n) => if n == ".."@ {
            None
        } else {
            Some(n)
        },
        None => None,
    }
}

/// The lower-cased name of the process: its `comm`, else the file name of
/// the first word of its command line.
pub open spec fn process_name(comm: Seq<char>, cmdline: Seq<char>) -> Seq<char> {
    let c = lower_seq(trim(comm));
    let toks = runs(cmdline, CharClass::NonWhitespace);
    let exe = if toks.len() == 0 {
        seq![]
    } else {
        match path_file_name(toks[0]) {
            Some(n) => n,
            None => seq![],
        }
    };
    if c.len() == 0 {
        lower_seq(exe)
    } else {
        c
    }
}

/// Whether a process of this name belongs to Steam, the compositor or the
/// desktop rather than to a game.
pub open spec fn ignored_name(name: Seq<char>) -> bool {
    ||| name == "steam"@
    ||| name == "steamwebhelper"@
    ||| name == "vrwebhelper"@
    ||| name == "gamescope"@
    ||| name == "reaper"@
    ||| name == "kwin"@
    ||| name == "kwin_x11"@
    ||| name == "kwin_wayland"@
    ||| name == "plasmashell"@
    ||| name == "steam-runtime-supervisor"@
    ||| starts_with(name, "steamwebhelper"@)
    ||| starts_with(name, "steam-runtime"@)
}

pub open spec fn ignored_process(comm: Seq<char>, cmdline: Seq<char>) -> bool {
    ignored_name(process_name(comm, cmdline))
}

/// `Path::file_name` of a Unix path.
pub fn file_name_of(p: &[char]) -> (r: Option<Vec<char>>)
    ensures
        match r {
            Some(n) => path_file_name(p@) == Some(n@),
            None => path_file_name(p@) is None,
        },
{
    let segs = runs_of(p, CharClass::NonSlash);
    let ghost ss = runs(p@, CharClass::NonSlash);
    let dot = chars_of(".");
    let dotdot = chars_of("..");
    let mut j = segs.len();
    assert(ss.take(j as int) =~= ss);
    while j > 0
        invariant
            0 <= j <= segs@.len(),
            segs@.len() == ss.len(),
            forall|k: int| 0 <= k < segs@.len() ==> (#[trigger] segs@[k])@ == ss[k],
            ss == runs(p@, CharClass::NonSlash),
            dot@ == "."@,
            dotdot@ == ".."@,
            last_name(ss) == last_name(ss.take(j as int)),
        decreases j,
    {
        assert(ss.take(j as int).last() == segs@[j - 1]@);
        if !chars_eq(&segs[j - 1], &dot) {
            assert(ss.take(j as int).len() > 0);
            assert(last_name(ss.take(j as int)) == Some(segs@[j - 1]@));
            assert(last_name(ss) == Some(segs@[j - 1]@));
            if chars_eq(&segs[j - 1], &dotdot) {
                return None;
            }
            return Some(slice_chars(&segs[j - 1], 0, segs[j - 1].len()));
        }
        assert(ss.take(j as int).drop_last() =~= ss.take(j - 1));
        j -= 1;
    }
    None
}

/// Whether the process with this `comm` and command line is not a game.
pub fn is_ignored_game_process_text(comm: &str, cmdline: &str) -> (r: bool)
    ensures
        r == ignored_process(comm@, cmdline@),
{
    let c = to_lower_chars(&trim_chars(&chars_of(comm)));
    let toks = runs_of(&chars_of(cmdline), CharClass::NonWhitespace);
    let exe: Vec<char> = if toks.len() == 0 {
        Vec::new()
    } else {
        match file_name_of(&toks[0]) {
            Some(n) => n,
            None => Vec::new(),
        }
    };
    let name = if c.len() == 0 {
        to_lower_chars(&exe)
    } else {
        c
    };
    proof {
        assert(Seq::<char>::empty() =~= lower_seq(Seq::<char>::empty()));
    }
    chars_eq(&name, &chars_of("steam")) || chars_eq(&name, &chars_of("steamwebhelper")) || chars_eq(
        &name,
        &chars_of("vrwebhelper"),
    ) || chars_eq(&name, &chars_of("gamescope")) || chars_eq(&name, &chars_of("reaper"))
        || chars_eq(&name, &chars_of("kwin")) || chars_eq(&name, &chars_of("kwin_x11"))
        || chars_eq(&name, &chars_of("kwin_wayland")) || chars_eq(&name, &chars_of("plasmashell"))
        || chars_eq(&name, &chars_of("steam-runtime-supervisor")) || starts_with_chars(
        &name,
        &chars_of("steamwebhelper"),
    ) || starts_with_chars(&name, &chars_of("steam-runtime"))
}

// ---------------------------------------------------------------------------
// Finding a game under a Steam launch process
// ---------------------------------------------------------------------------

/// One entry of the process table.
#[derive(Debug, Clone, PartialEq, Eq)]
pub struct ProcessInfo {
    pub pid: u32,
    pub ppid: u32,
    pub comm: String,
    pub cmdline: String,
}

/// A game found by a fallback detector.
#[derive(Debug, Clone, PartialEq, Eq)]
pub struct GameCandidate {
    pub app_id: u32,
    pub pid: u32,
    pub state: DeckGameState,
    pub detection_source: String,
}

/// The index of the entry that stands for `pid` (the last one with it).
pub open spec fn proc_index_upto(ps: Seq<ProcessInfo>, pid: u32, n: int) -> Option<int>
    decreases n,
{
    if n <= 0 {
        None
    } else if ps[n - 1].pid == pid {
        Some(n - 1)
    } else {
        proc_index_upto(ps, pid, n - 1)
    }
}

pub open spec fn proc_index(ps: Seq<ProcessInfo>, pid: u32) -> Option<int> {
    proc_index_upto(ps, pid, ps.len() as int)
}

/// Whether `pid` is not a game process (or has no entry).
pub open spec fn ignored_pid(ps: Seq<ProcessInfo>, pid: u32) -> bool {
    match proc_index(ps, pid) {
        Some(i) => ignored_process(ps[i].comm@, ps[i].cmdline@),
        None => true,
    }
}

pub open spec fn is_child(ps: Seq<ProcessInfo>, parent: u32, c: u32) -> bool {
    exists|i: int| 0 <= i < ps.len() && (#[trigger] ps[i]).ppid == parent && ps[i].pid == c
}

/// A chain of processes below `root`, each the child of the one before,
/// all but the last of them not games.
pub open spec fn descent_path(ps: Seq<ProcessInfo>, root: u32, path: Seq<u32>) -> bool {
    &&& path.len() >= 1
    &&& is_child(ps, root, path[0])
    &&& forall|k: int|
        0 <= k < path.len() - 1 ==> is_child(ps, #[trigger] path[k], path[k + 1]) && ignored_pid(
            ps,
            path[k],
        )
}

/// Whether `d` is a game process reached from `root` through processes
/// that are not games.
pub open spec fn game_descendant(ps: Seq<ProcessInfo>, root: u32, d: u32) -> bool {
    &&& !ignored_pid(ps, d)
    &&& exists|path: Seq<u32>| #[trigger] descent_path(ps, root, path) && path.last() == d
}

/// The pids of the children of `parent`, in table order.
pub open spec fn children_of(ps: Seq<ProcessInfo>, parent: u32) -> Seq<u32>
    decreases ps.len(),
{
    if ps.len() == 0 {
        seq![]
    } else {
        let head = children_of(ps.drop_last(), parent);
        if ps.last().ppid == parent {
            head.push(ps.last().pid)
        } else {
            head
        }
    }
}

/// The number of table entries whose pid is not in `seen`.
pub open spec fn count_unseen(ps: Seq<ProcessInfo>, seen: Seq<u32>) -> nat
    decreases ps.len(),
{
    if ps.len() == 0 {
        0
    } else {
        count_unseen(ps.drop_last(), seen) + if seen.contains(ps.last().pid) {
            0nat
        } else {
            1nat
        }
    }
}

pub proof fn lemma_children_of(ps: Seq<ProcessInfo>, parent: u32)
    ensures
        forall|c: u32| children_of(ps, parent).contains(c) <==> is_child(ps, parent, c),
    decreases ps.len(),
{
    if ps.len() > 0 {
        let init = ps.drop_last();
        let last = ps.last();
        let head = children_of(init, parent);
        lemma_children_of(init, parent);
        assert forall|c: u32| children_of(ps, parent).contains(c) implies is_child(ps, parent, c) by {
            if head.contains(c) {
                assert(is_child(init, parent, c));
                let i = choose|i: int|
                    0 <= i < init.len() && (#[trigger] init[i]).ppid == parent && init[i].pid == c;
                assert(ps[i] == init[i]);
            } else {
                assert(last.ppid == parent && last.pid == c);
                assert(ps[ps.len() - 1] == last);
            }
        }
        assert forall|c: u32| is_child(ps, parent, c) implies children_of(ps, parent).contains(c) by {
            let i = choose|i: int|
                0 <= i < ps.len() && (#[trigger] ps[i]).ppid == parent && ps[i].pid == c;
            if i < ps.len() - 1 {
                assert(init[i] == ps[i]);
                assert(is_child(init, parent, c));
                assert(head.contains(c));
                let k = choose|k: int| 0 <= k < head.len() && head[k] == c;
                if last.ppid == parent {
                    assert(head.push(last.pid)[k] == c);
                }
            } else {
                assert(last == ps[i]);
                assert(head.push(last.pid)[head.len() as int] == c);
            }
        }
    }
}

pub proof fn lemma_proc_index_upto(ps: Seq<ProcessInfo>, pid: u32, n: int, i: int)
    requires
        0 <= i < n <= ps.len(),
        ps[i].pid == pid,
    ensures
        proc_index_upto(ps, pid, n) matches Some(k) && i <= k < n && ps[k].pid == pid,
    decreases n,
{
    if ps[n - 1].pid != pid {
        lemma_proc_index_upto(ps, pid, n - 1, i);
    }
}

pub proof fn lemma_child_has_entry(ps: Seq<ProcessInfo>, parent: u32, c: u32)
    requires
        is_child(ps, parent, c),
    ensures
        proc_index(ps, c) is Some,
{
    let i = choose|i: int| 0 <= i < ps.len() && (#[trigger] ps[i]).ppid == parent && ps[i].pid == c;
    lemma_proc_index_upto(ps, c, ps.len() as int, i);
}

pub proof fn lemma_count_unseen_push(ps: Seq<ProcessInfo>, seen: Seq<u32>, p: u32)
    ensures
        count_unseen(ps, seen.push(p)) <= count_unseen(ps, seen),
        !seen.contains(p) && (exists|i: int| 0 <= i < ps.len() && (#[trigger] ps[i]).pid == p)
            ==> count_unseen(ps, seen.push(p)) < count_unseen(ps, seen),
    decreases ps.len(),
{
    if ps.len() > 0 {
        let init = ps.drop_last();
        lemma_count_unseen_push(init, seen, p);
        assert(seen.push(p)[seen.len() as int] == p);
        assert(seen.push(p).contains(p));
        assert forall|x: u32| seen.contains(x) implies seen.push(p).contains(x) by {
            let k = choose|k: int| 0 <= k < seen.len() && seen[k] == x;
            assert(seen.push(p)[k] == x);
        }
        assert forall|x: u32| seen.push(p).contains(x) && x != p implies seen.contains(x) by {
            let k = choose|k: int| 0 <= k < seen.push(p).len() && seen.push(p)[k] == x;
            assert(k < seen.len());
            assert(seen[k] == x);
        }
        if !seen.contains(p) && (exists|i: int| 0 <= i < ps.len() && (#[trigger] ps[i]).pid == p) {
            let i = choose|i: int| 0 <= i < ps.len() && (#[trigger] ps[i]).pid == p;
            if i < ps.len() - 1 {
                assert(init[i] == ps[i]);
            } else {
                assert(ps.last().pid == p);
            }
        }
    }
}

/// The entry that stands for `pid` (the last one with it).
fn last_proc_index(ps: &[ProcessInfo], pid: u32) -> (r: Option<usize>)
    ensures
        match r {
            Some(i) => proc_index(ps@, pid) == Some(i as int) && i < ps@.len(),
            None => proc_index(ps@, pid) is None,
        },
{
    let mut n = ps.len();
    while n > 0
        invariant
            0 <= n <= ps@.len(),
            proc_index(ps@, pid) == proc_index_upto(ps@, pid, n as int),
        decreases n,
    {
        if ps[n - 1].pid == pid {
            return Some(n - 1);
        }
        n -= 1;
    }
    None
}

/// Appends the pids of the children of `parent` to `q`.
fn push_children(ps: &[ProcessInfo], parent: u32, q: &mut Vec<u32>)
    ensures
        final(q)@ == old(q)@ + children_of(ps@, parent),
{
    let ghost start = q@;
    let mut i: usize = 0;
    while i < ps.len()
        invariant
            0 <= i <= ps@.len(),
            q@ == start + children_of(ps@.take(i as int), parent),
        decreases ps.len() - i,
    {
        assert(ps@.take(i + 1).drop_last() =~= ps@.take(i as int));
        if ps[i].ppid == parent {
            q.push(ps[i].pid);
            assert(start + children_of(ps@.take(i + 1), parent) =~= (start + children_of(
                ps@.take(i as int),
                parent,
            )).push(ps@[i as int].pid));
        }
        i += 1;
    }
    assert(ps@.take(ps.len() as int) =~= ps@);
}

fn contains_u32(v: &Vec<u32>, x: u32) -> (r: bool)
    ensures
        r == v@.contains(x),
{
    let mut i: usize = 0;
    while i < v.len()
        invariant
            0 <= i <= v@.len(),
            forall|k: int| 0 <= k < i ==> v@[k] != x,
        decreases v.len() - i,
    {
        if v[i] == x {
            return true;
        }
        i += 1;
    }
    false
}

/// Every process on a chain below `root` is in `seen`, when `seen` and the
/// children of `root` are closed under taking the children of processes that
/// are not games.
pub proof fn lemma_path_in_seen(ps: Seq<ProcessInfo>, root: u32, path: Seq<u32>, seen: Seq<u32>, k: int)
    requires
        descent_path(ps, root, path),
        0 <= k < path.len(),
        forall|c: u32| is_child(ps, root, c) ==> seen.contains(c),
        forall|x: u32, c: u32|
            seen.contains(x) && #[trigger] is_child(ps, x, c) ==> seen.contains(c),
    ensures
        seen.contains(path[k]),
    decreases k,
{
    if k > 0 {
        lemma_path_in_seen(ps, root, path, seen, k - 1);
        assert(is_child(ps, path[k - 1], path[k]));
    }
}

/// Where `proc_index` finds an entry, it is one with that pid.
pub proof fn lemma_proc_index_found(ps: Seq<ProcessInfo>, pid: u32, n: int)
    requires
        n <= ps.len(),
    ensures
        proc_index_upto(ps, pid, n) matches Some(k) ==> 0 <= k < n && ps[k].pid == pid,
    decreases n,
{
    if n > 0 && ps[n - 1].pid != pid {
        lemma_proc_index_found(ps, pid, n - 1);
    }
}

/// The breadth-first walk below a Steam launch process, from position
/// `head` of the queue `q` with the pids in `seen` already visited: the
/// first pid taken from the queue that has an entry and is not a
/// game-launcher helper. A pid already visited is passed over, as is one
/// with no entry in the table; the children of a helper (in table order)
/// join the end of the queue.
pub open spec fn bfs_from(ps: Seq<ProcessInfo>, q: Seq<u32>, head: int, seen: Seq<u32>) -> Option<u32>
    decreases count_unseen(ps, seen), q.len() - head,
{
    if head < 0 || head >= q.len() {
        None
    } else {
        let pid = q[head];
        if seen.contains(pid) {
            bfs_from(ps, q, head + 1, seen)
        } else {
            match proc_index(ps, pid) {
                None => bfs_from(ps, q, head + 1, seen),
                Some(i) => if !ignored_process(ps[i].comm@, ps[i].cmdline@) {
                    Some(pid)
                } else {
                    proof {
                        lemma_proc_index_found(ps, pid, ps.len() as int);
                        lemma_count_unseen_push(ps, seen, pid);
                    }
                    bfs_from(ps, q + children_of(ps, pid), head + 1, seen.push(pid))
                },
            }
        }
    }
}

/// The game process the walk finds below `root`: breadth-first from the
/// children of `root` in table order.
pub open spec fn first_game_descendant(ps: Seq<ProcessInfo>, root: u32) -> Option<u32> {
    bfs_from(ps, children_of(ps, root), 0, Seq::<u32>::empty())
}

/// The first process below `root` that is not a game-launcher helper, found
/// by a breadth-first walk that only descends through such helpers.
pub fn first_non_steam_descendant(root: u32, ps: &[ProcessInfo]) -> (r: Option<u32>)
    ensures
        r == first_game_descendant(ps@, root),
        match r {
            Some(d) => game_descendant(ps@, root, d),
            None => forall|d: u32| !game_descendant(ps@, root, d),
        },
{
    let mut q: Vec<u32> = Vec::new();
    push_children(ps, root, &mut q);
    proof {
        lemma_children_of(ps@, root);
        assert(q@ =~= children_of(ps@, root));
        assert(q@.subrange(0, q@.len() as int) =~= q@);
        assert forall|k: int| 0 <= k < q@.len() implies is_child(ps@, root, q@[k]) by {
            assert(q@.contains(q@[k]));
        }
    }
    let ghost mut paths: Seq<Seq<u32>> = Seq::new(q@.len(), |k: int| seq![q@[k]]);
    let mut seen: Vec<u32> = Vec::new();
    let mut head: usize = 0;
    assert(seen@ =~= Seq::<u32>::empty());
    while head < q.len()
        invariant
            0 <= head <= q@.len(),
            paths.len() == q@.len(),
            forall|k: int|
                0 <= k < q@.len() ==> descent_path(ps@, root, #[trigger] paths[k]) && paths[k].last()
                    == q@[k],
            forall|k: int| 0 <= k < seen@.len() ==> ignored_pid(ps@, #[trigger] seen@[k]),
            forall|c: u32|
                is_child(ps@, root, c) ==> seen@.contains(c) || q@.subrange(
                    head as int,
                    q@.len() as int,
                ).contains(c),
            forall|x: u32, c: u32|
                seen@.contains(x) && #[trigger] is_child(ps@, x, c) ==> seen@.contains(c)
                    || q@.subrange(head as int, q@.len() as int).contains(c),
            bfs_from(ps@, q@, head as int, seen@) == first_game_descendant(ps@, root),
        decreases count_unseen(ps@, seen@), q@.len() - head,
    {
        let pid = q[head];
        let ghost old_seen = seen@;
        let ghost old_q = q@;
        let ghost old_head = head;
        let ghost old_rest = old_q.subrange(old_head as int, old_q.len() as int);
        let ghost tail_rest = old_q.subrange(old_head + 1, old_q.len() as int);
        proof {
            assert forall|c: u32| old_rest.contains(c) && c != pid implies tail_rest.contains(c) by {
                let k = choose|k: int| 0 <= k < old_rest.len() && #[trigger] old_rest[k] == c;
                assert(k != 0);
                assert(tail_rest[k - 1] == c);
            }
        }
        head += 1;
        if contains_u32(&seen, pid) {
            proof {
                lemma_count_unseen_push(ps@, seen@, pid);
                assert(tail_rest == q@.subrange(head as int, q@.len() as int));
                assert forall|c: u32| is_child(ps@, root, c) implies seen@.contains(c)
                    || tail_rest.contains(c) by {
                    if old_rest.contains(c) && c != pid {
                        assert(tail_rest.contains(c));
                    }
                }
            }
            continue;
        }
        seen.push(pid);
        proof {
            assert(seen@[old_seen.len() as int] == pid);
            lemma_count_unseen_push(ps@, old_seen, pid);
            assert(seen@.contains(pid));
            assert forall|x: u32| old_seen.contains(x) implies seen@.contains(x) by {
                let k = choose|k: int| 0 <= k < old_seen.len() && old_seen[k] == x;
                assert(seen@[k] == x);
            }
            assert forall|x: u32| seen@.contains(x) && x != pid implies old_seen.contains(x) by {
                let k = choose|k: int| 0 <= k < seen@.len() && seen@[k] == x;
                assert(k < old_seen.len());
                assert(old_seen[k] == x);
            }
            let path = paths[old_head as int];
            assert(descent_path(ps@, root, path) && path.last() == pid);
            if path.len() >= 2 {
                assert(is_child(ps@, path[path.len() - 2], path[path.len() - 1]));
                lemma_child_has_entry(ps@, path[path.len() - 2], pid);
            } else {
                lemma_child_has_entry(ps@, root, pid);
            }
        }
        let found = last_proc_index(ps, pid);
        let i = match found {
            Some(i) => i,
            None => {
                proof {
                    assert(false);
                }
                continue;
            },
        };
        if !is_ignored_game_process_text(&ps[i].comm, &ps[i].cmdline) {
            proof {
                let path = paths[old_head as int];
                assert(descent_path(ps@, root, path) && path.last() == pid);
            }
            return Some(pid);
        }
        let ghost base = paths[old_head as int];
        push_children(ps, pid, &mut q);
        proof {
            lemma_children_of(ps@, pid);
            let kids = children_of(ps@, pid);
            paths = paths + Seq::new(kids.len(), |k: int| base.push(kids[k]));
            assert forall|k: int| 0 <= k < q@.len() implies descent_path(
                ps@,
                root,
                #[trigger] paths[k],
            ) && paths[k].last() == q@[k] by {
                if k >= old_q.len() {
                    let j = k - old_q.len();
                    assert(q@[k] == kids[j]);
                    assert(kids.contains(kids[j]));
                    assert(is_child(ps@, pid, kids[j]));
                    let np = base.push(kids[j]);
                    assert(paths[k] == np);
                    assert forall|m: int| 0 <= m < np.len() - 1 implies is_child(
                        ps@,
                        #[trigger] np[m],
                        np[m + 1],
                    ) && ignored_pid(ps@, np[m]) by {
                        if m < base.len() - 1 {
                            assert(np[m] == base[m]);
                            assert(np[m + 1] == base[m + 1]);
                        } else {
                            assert(np[m] == pid);
                        }
                    }
                } else {
                    assert(q@[k] == old_q[k]);
                }
            }
            let new_rest = q@.subrange(head as int, q@.len() as int);
            assert forall|c: u32| tail_rest.contains(c) implies new_rest.contains(c) by {
                let k = choose|k: int| 0 <= k < tail_rest.len() && #[trigger] tail_rest[k] == c;
                assert(new_rest[k] == c);
            }
            assert forall|c: u32| kids.contains(c) implies new_rest.contains(c) by {
                let k = choose|k: int| 0 <= k < kids.len() && #[trigger] kids[k] == c;
                assert(new_rest[old_q.len() - head + k] == c);
            }
            assert forall|c: u32| is_child(ps@, root, c) implies seen@.contains(c)
                || new_rest.contains(c) by {
                assert(old_seen.contains(c) || old_rest.contains(c));
                if old_seen.contains(c) {
                    assert(seen@.contains(c));
                } else if c == pid {
                    assert(seen@.contains(c));
                } else {
                    assert(tail_rest.contains(c));
                    assert(new_rest.contains(c));
                }
            }
            assert forall|x: u32, c: u32|
                seen@.contains(x) && #[trigger] is_child(ps@, x, c) implies seen@.contains(c)
                    || new_rest.contains(c) by {
                if x == pid {
                    assert(kids.contains(c));
                } else {
                    assert(old_seen.contains(x));
                    if old_rest.contains(c) && c != pid {
                        assert(tail_rest.contains(c));
                    }
                }
            }
        }
    }
    proof {
        assert forall|d: u32| !game_descendant(ps@, root, d) by {
            if game_descendant(ps@, root, d) {
                let path = choose|path: Seq<u32>| #[trigger] descent_path(ps@, root, path) && path.last() == d;
                assert forall|c: u32| is_child(ps@, root, c) implies seen@.contains(c) by {
                    assert(q@.subrange(head as int, q@.len() as int).len() == 0);
                }
                assert forall|x: u32, c: u32|
                    seen@.contains(x) && #[trigger] is_child(ps@, x, c) implies seen@.contains(c) by {
                    assert(q@.subrange(head as int, q@.len() as int).len() == 0);
                }
                lemma_path_in_seen(ps@, root, path, seen@, path.len() - 1);
                let k = choose|k: int| 0 <= k < seen@.len() && seen@[k] == d;
                assert(ignored_pid(ps@, seen@[k]));
            }
        }
    }
    None
}

pub open spec fn launch_candidate_pred(ps: Seq<ProcessInfo>) -> spec_fn(int) -> bool {
    |i: int|
        (steam_launch_app_id_spec(ps[i].cmdline@) matches Some(a) && probable_game(a)) && exists|
            d: u32,
        | game_descendant(ps, ps[i].pid, d)
}

/// Finds a game running under a Steam launch (`reaper ... SteamLaunch
/// AppId=<id>`) process: the first such process, in table order, with a game
/// process below it.
pub fn find_steam_process_tree_candidate(processes: &[ProcessInfo]) -> (r: Option<GameCandidate>)
    ensures
        match first_match(processes@.len() as int, launch_candidate_pred(processes@)) {
            Some(i) => r matches Some(c) && Some(c.app_id) == steam_launch_app_id_spec(
                processes@[i].cmdline@,
            ) && game_descendant(processes@, processes@[i].pid, c.pid) && Some(c.pid)
                == first_game_descendant(processes@, processes@[i].pid) && c.state
                == DeckGameState::GameRunningBackground && c.detection_source@
                == "steam_reaper_process"@,
            None => r is None,
        },
{
    let ghost ps = processes@;
    let ghost pred = launch_candidate_pred(ps);
    let mut i: usize = 0;
    while i < processes.len()
        invariant
            0 <= i <= ps.len(),
            ps == processes@,
            pred == launch_candidate_pred(ps),
            forall|j: int| 0 <= j < i ==> !#[trigger] pred(j),
        decreases processes.len() - i,
    {
        let process = &processes[i];
        if let Some(app_id) = steam_launch_app_id(process.cmdline.as_str()) {
            if is_probable_game_app_id(app_id) {
                if let Some(d) = first_non_steam_descendant(process.pid, processes) {
                    proof {
                        lemma_first_match_from(0, ps.len() as int, pred, i as int);
                    }
                    return Some(
                        GameCandidate {
                            app_id,
                            pid: d,
                            state: DeckGameState::GameRunningBackground,
                            detection_source: "steam_reaper_process".to_string(),
                        },
                    );
                }
            }
        }
        i += 1;
    }
    proof {
        lemma_first_match_from(0, ps.len() as int, pred, ps.len() as int);
    }
    None
}

/// Records the candidate as the active game of the snapshot.
pub fn apply_game_candidate(snapshot: &mut GamescopeFocusSnapshot, candidate: &GameCandidate)
    ensures
        final(snapshot).same_observation(*old(snapshot)),
        final(snapshot).active_game_app_id == Some(candidate.app_id),
        final(snapshot).active_game_pid == Some(candidate.pid),
        opt_str_view(final(snapshot).detection_source) == Some(candidate.detection_source@),
{
    snapshot.active_game_app_id = Some(candidate.app_id);
    snapshot.active_game_pid = Some(candidate.pid);
    snapshot.detection_source = Some(candidate.detection_source.clone());
}

// ---------------------------------------------------------------------------
// Detector state and the decisions around running `xprop`
// ---------------------------------------------------------------------------

/// The outcome of one detection.
#[derive(Debug, Clone)]
pub struct GamescopeDetection {
    pub enabled: bool,
    pub supported: bool,
    pub state: DeckGameState,
    pub snapshot: GamescopeFocusSnapshot,
    pub messages: Vec<String>,
}

/// What `inspect` reports of the detector.
#[derive(Debug, Clone)]
pub struct SteamDeckGameStateInspection {
    pub enabled: bool,
    pub xprop_path: String,
    pub display: String,
    pub supported: bool,
    pub state: DeckGameState,
    pub snapshot: GamescopeFocusSnapshot,
    pub messages: Vec<String>,
}

impl SteamDeckGameStateInspection {
    /// The inspection report of a detection made with `config`.
    pub fn from_detection(config: &SteamDeckGameStateConfig, detection: GamescopeDetection) -> (r:
        Self)
        ensures
            r.enabled == config.enabled,
            r.xprop_path@ == config.xprop_path@,
            r.display@ == config.display@,
            r.supported == detection.supported,
            r.state == detection.state,
            r.snapshot == detection.snapshot,
            r.messages == detection.messages,
    {
        SteamDeckGameStateInspection {
            enabled: config.enabled,
            xprop_path: string_of(&chars_of(config.xprop_path.as_str())),
            display: string_of(&chars_of(config.display.as_str())),
            supported: detection.supported,
            state: detection.state,
            snapshot: detection.snapshot,
            messages: detection.messages,
        }
    }
}

/// The detection reported when the detector is disabled.
pub fn disabled_detection() -> (r: GamescopeDetection)
    ensures
        !r.enabled,
        !r.supported,
        r.state == DeckGameState::Idle,
        r.snapshot.is_empty_snapshot(),
        r.messages@.len() == 1,
        r.messages@[0]@ == "disabled"@,
{
    GamescopeDetection {
        enabled: false,
        supported: false,
        state: DeckGameState::Idle,
        snapshot: GamescopeFocusSnapshot::default(),
        messages: vec!["disabled".to_string()],
    }
}

#[derive(Debug, Clone)]
pub struct GamescopeDetector {
    pub config: SteamDeckGameStateConfig,
}

impl GamescopeDetector {
    pub fn new(config: SteamDeckGameStateConfig) -> (r: Self)
        ensures
            r.config == config,
    {
        GamescopeDetector { config }
    }
}

/// The X display and authority `xprop` runs with.
#[derive(Debug, Clone, PartialEq, Eq)]
pub struct XpropEnvironment {
    pub display: Option<String>,
    pub xauthority: Option<String>,
}

/// The environment named by the configuration: its display, if not blank.
pub fn configured_xprop_environment(config: &SteamDeckGameStateConfig) -> (r: XpropEnvironment)
    ensures
        opt_str_view(r.display) == non_empty_trimmed(config.display@),
        r.xauthority is None,
{
    XpropEnvironment { display: non_empty_string(config.display.as_str()), xauthority: None }
}

/// Whether to run `xprop` again with the display of the running Steam
/// client: when configured to, and the first run showed no Gamescope atoms
/// or no display was configured.
pub fn should_retry_with_steam_env(config: &SteamDeckGameStateConfig, supported: bool) -> (r: bool)
    ensures
        r == (config.auto_discover_steam_display && (!supported || trim(config.display@).len()
            == 0)),
{
    config.auto_discover_steam_display && (!supported || trim_chars(
        &chars_of(config.display.as_str()),
    ).len() == 0)
}

/// Whether a line of `xprop` output reports a missing atom or window.
pub open spec fn xprop_problem_line(l: Seq<char>) -> bool {
    contains(l, "not found"@) || contains(l, "no such atom"@)
}

/// The trimmed lines of `ls` that report a missing atom or window.
pub open spec fn problem_lines(ls: Seq<Seq<char>>) -> Seq<Seq<char>>
    decreases ls.len(),
{
    if ls.len() == 0 {
        seq![]
    } else {
        let head = problem_lines(ls.drop_last());
        if xprop_problem_line(ls.last()) {
            head.push(trim(ls.last()))
        } else {
            head
        }
    }
}

/// The messages of one `xprop` run: the exit status message (if it failed),
/// the problem lines of its output and error output, else its trimmed error
/// output if that is not blank.
pub open spec fn xprop_messages_spec(status: Option<Seq<char>>, stdout: Seq<char>, stderr: Seq<
    char,
>) -> Seq<Seq<char>> {
    let first = match status {
        Some(m) => seq![m],
        None => seq![],
    };
    let found = first + problem_lines(lines(stdout) + lines(stderr));
    if trim(stderr).len() > 0 && found.len() == 0 {
        seq![trim(stderr)]
    } else {
        found
    }
}

fn push_problem_lines(ls: &Vec<Vec<char>>, out: &mut Vec<String>, Ghost(spec_ls): Ghost<
    Seq<Seq<char>>,
>)
    requires
        ls@.len() == spec_ls.len(),
        forall|k: int| 0 <= k < ls@.len() ==> (#[trigger] ls@[k])@ == spec_ls[k],
    ensures
        final(out)@.len() == old(out)@.len() + problem_lines(spec_ls).len(),
        forall|k: int|
            0 <= k < old(out)@.len() ==> (#[trigger] final(out)@[k]) == old(out)@[k],
        forall|k: int|
            0 <= k < problem_lines(spec_ls).len() ==> (#[trigger] final(out)@[old(out)@.len() + k])@
                == problem_lines(spec_ls)[k],
{
    let nf = chars_of("not found");
    let nsa = chars_of("no such atom");
    let ghost start = out@;
    let mut i: usize = 0;
    while i < ls.len()
        invariant
            0 <= i <= ls@.len(),
            ls@.len() == spec_ls.len(),
            forall|k: int| 0 <= k < ls@.len() ==> (#[trigger] ls@[k])@ == spec_ls[k],
            nf@ == "not found"@,
            nsa@ == "no such atom"@,
            out@.len() == start.len() + problem_lines(spec_ls.take(i as int)).len(),
            forall|k: int| 0 <= k < start.len() ==> (#[trigger] out@[k]) == start[k],
            forall|k: int|
                0 <= k < problem_lines(spec_ls.take(i as int)).len() ==> (#[trigger] out@[start.len()
                    + k])@ == problem_lines(spec_ls.take(i as int))[k],
        decreases ls.len() - i,
    {
        assert(spec_ls.take(i + 1).drop_last() =~= spec_ls.take(i as int));
        let line = &ls[i];
        if contains_chars(line, &nf) || contains_chars(line, &nsa) {
            out.push(string_of(&trim_chars(line)));
        }
        i += 1;
    }
    assert(spec_ls.take(ls.len() as int) =~= spec_ls);
}

/// The messages of one `xprop` run (see `xprop_messages_spec`).
pub fn xprop_messages(status_message: Option<String>, stdout: &str, stderr: &str) -> (r: Vec<String>)
    ensures
        r@.map_values(|m: String| m@) == xprop_messages_spec(
            opt_str_view(status_message),
            stdout@,
            stderr@,
        ),
{
    let mut out: Vec<String> = Vec::new();
    let ghost first: Seq<Seq<char>> = match opt_str_view(status_message) {
        Some(m) => seq![m],
        None => seq![],
    };
    match status_message {
        Some(m) => out.push(m),
        None => {},
    }
    let out_chars = lines_of(&chars_of(stdout));
    let err_chars = chars_of(stderr);
    let err_lines = lines_of(&err_chars);
    let mut all = out_chars;
    let ghost sl = lines(stdout@) + lines(stderr@);
    let mut j: usize = 0;
    let ghost n0 = all@.len();
    while j < err_lines.len()
        invariant
            0 <= j <= err_lines@.len(),
            n0 == lines(stdout@).len(),
            all@.len() == n0 + j,
            forall|k: int| 0 <= k < n0 ==> (#[trigger] all@[k])@ == lines(stdout@)[k],
            forall|k: int| 0 <= k < j ==> (#[trigger] all@[n0 + k])@ == lines(stderr@)[k],
            err_lines@.len() == lines(stderr@).len(),
            forall|k: int| 0 <= k < err_lines@.len() ==> (#[trigger] err_lines@[k])@ == lines(stderr@)[k],
        decreases err_lines.len() - j,
    {
        all.push(slice_chars(&err_lines[j], 0, err_lines[j].len()));
        j += 1;
    }
    assert forall|k: int| 0 <= k < all@.len() implies (#[trigger] all@[k])@ == sl[k] by {
        if k >= n0 {
            assert(all@[n0 + (k - n0)]@ == lines(stderr@)[k - n0]);
        }
    }
    let ghost before = out@;
    push_problem_lines(&all, &mut out, Ghost(sl));
    let ghost found = first + problem_lines(sl);
    assert(before.len() == first.len());
    assert forall|k: int| 0 <= k < first.len() implies before[k]@ == first[k] by {}
    assert forall|k: int| 0 <= k < found.len() implies out@.map_values(|m: String| m@)[k]
        == found[k] by {
        if k < first.len() {
            assert(out@[k] == before[k]);
        } else {
            assert(out@[before.len() + (k - first.len())]@ == problem_lines(sl)[k - first.len()]);
        }
    }
    assert(out@.map_values(|m: String| m@) =~= found);
    let t = trim_chars(&err_chars);
    if t.len() > 0 && out.len() == 0 {
        out.push(string_of(&t));
        assert(out@.map_values(|m: String| m@) =~= seq![trim(stderr@)]);
    }
    out
}

/// The index of the last occurrence of `n` in `s`.
pub open spec fn rfind(s: Seq<char>, n: Seq<char>) -> Option<int> {
    match first_match(s.len() - n.len() + 1, rfind_pred(s, n)) {
        Some(k) => Some(s.len() - n.len() - k),
        None => None,
    }
}

pub open spec fn rfind_pred(s: Seq<char>, n: Seq<char>) -> spec_fn(int) -> bool {
    |i: int| matches_at(s, n, s.len() - n.len() - i)
}

/// The parent pid in the text of `/proc/<pid>/stat`: the second field
/// after the last `") "`.
pub open spec fn stat_ppid(stat: Seq<char>) -> Option<u32> {
    match rfind(stat, ") "@) {
        Some(close) => {
            let fields = runs(stat.skip(close + 2), CharClass::NonWhitespace);
            if fields.len() > 1 {
                opt_u32(parse_unsigned(fields[1], 10, u32::MAX as nat))
            } else {
                None
            }
        },
        None => None,
    }
}

/// The parent pid in the text of `/proc/<pid>/stat`.
pub fn parse_stat_ppid(stat: &str) -> (r: Option<u32>)
    ensures
        r == stat_ppid(stat@),
{
    let s = chars_of(stat);
    let key = chars_of(") ");
    proof {
        reveal_strlit(") ");
    }
    if s.len() < 2 {
        proof {
            assert(rfind(s@, key@) is None) by {
                crate::text::lemma_first_match_from(0, s@.len() - 2 + 1, rfind_pred(s@, key@), 0);
            }
        }
        return None;
    }
    let ghost p = rfind_pred(s@, key@);
    let last = s.len() - 2;
    let mut k: usize = 0;
    loop
        invariant
            s@.len() == s.len(),
            last == s@.len() - 2,
            key@ == ") "@,
            key@.len() == 2,
            0 <= k <= last + 1,
            p == rfind_pred(s@, key@),
            s@ == stat@,
            forall|j: int| 0 <= j < k ==> !#[trigger] p(j),
        decreases last + 1 - k,
    {
        if k > last {
            proof {
                crate::text::lemma_first_match_from(0, last + 1, p, k as int);
            }
            return None;
        }
        if matches_at_exec(&s, &key, last - k) {
            proof {
                crate::text::lemma_first_match_from(0, last + 1, p, k as int);
            }
            let close = last - k;
            let rest = slice_chars(&s, close + 2, s.len());
            assert(rest@ =~= s@.skip(close + 2));
            let fields = runs_of(&rest, CharClass::NonWhitespace);
            if fields.len() > 1 {
                return parse_u32_chars(&fields[1]);
            } else {
                return None;
            }
        }
        k += 1;
    }
}

/// The real uid in the text of `/proc/<pid>/status`: the second word of
/// its first `Uid:` line.
pub open spec fn status_uid(status: Seq<char>) -> Option<u32> {
    let ls = lines(status);
    match first_line_with_prefix(ls, "Uid:"@) {
        Some(i) => {
            let words = runs(ls[i], CharClass::NonWhitespace);
            if words.len() > 1 {
                opt_u32(parse_unsigned(words[1], 10, u32::MAX as nat))
            } else {
                None
            }
        },
        None => None,
    }
}

/// The real uid in the text of `/proc/<pid>/status`.
pub fn parse_status_uid(status: &str) -> (r: Option<u32>)
    ensures
        r == status_uid(status@),
{
    let text = chars_of(status);
    let ls = lines_of(&text);
    let key = chars_of("Uid:");
    match first_line_with(&ls, &key, Ghost(lines(text@))) {
        Some(i) => {
            let words = runs_of(&ls[i], CharClass::NonWhitespace);
            if words.len() > 1 {
                parse_u32_chars(&words[1])
            } else {
                None
            }
        },
        None => None,
    }
}

} // verus!
