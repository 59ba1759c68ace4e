//! One detection of the Steam Deck game state, as a sequence of steps: the
//! detector says what to run or look up next (an `xprop` query, the Steam
//! client's display, which processes exist, a fallback search) and takes
//! the result back, until the detection is complete.

use vstd::prelude::*;

use crate::config::SteamDeckGameStateConfig;
use crate::linux::gamescope::{
    apply_game_candidate, configured_xprop_environment, disabled_detection, opt_str_view,
    parse_xprop_output, should_retry_with_steam_env, xprop_messages, xprop_messages_spec,
    DeckGameState, GameCandidate, GamescopeDetection, GamescopeDetector, GamescopeFocusSnapshot,
    XpropEnvironment,
};
use crate::text::{chars_eq, chars_of, concat, string_of, trim};

verus! {

/// What one `xprop` run gave: the snapshot read from its output and its
/// messages.
#[derive(Debug, Clone)]
pub struct XpropAttempt {
    pub snapshot: GamescopeFocusSnapshot,
    pub messages: Vec<String>,
}

/// The attempt made of one `xprop` run's exit message (when it failed),
/// output and error output.
pub fn xprop_attempt(status_message: Option<String>, stdout: &str, stderr: &str) -> (r: XpropAttempt)
    ensures
        r.snapshot.parsed_from_xprop(stdout@),
        r.messages@.map_values(|m: String| m@) == xprop_messages_spec(
            opt_str_view(status_message),
            stdout@,
            stderr@,
        ),
{
    XpropAttempt {
        snapshot: parse_xprop_output(stdout),
        messages: xprop_messages(status_message, stdout, stderr),
    }
}

/// What the detector needs done next.
#[derive(Debug, Clone)]
pub enum DetectAction {
    /// Run `xprop` on the root window with this environment; hand the
    /// attempt (or the error's text) to `on_xprop`.
    RunXprop(XpropEnvironment),
    /// Look for the display of the running Steam client; hand it to
    /// `on_steam_environment`.
    DiscoverSteamEnvironment,
    /// Say, for each of these pids in order, whether the process exists;
    /// hand the answers to `on_liveness`.
    CheckProcesses(Vec<u32>),
    /// Look for a game in the desktop's active window, with this
    /// environment; hand what was found to `on_candidate`.
    FindDesktopWindow(XpropEnvironment),
    /// Look for a game in Steam's process tree; hand what was found to
    /// `on_candidate`.
    FindSteamProcessTree,
    /// The detection is complete; take it with `finish`.
    Finished,
}

/// Where a detection stands.
#[derive(Debug, Clone, Copy, PartialEq, Eq, Structural)]
pub enum DetectPhase {
    FirstXprop,
    SteamEnvironment,
    RetryXprop,
    Liveness,
    DesktopFallback,
    ProcessFallback,
    Done,
}

/// A detection in progress: the settings it was started with, where it
/// stands, and what it has found so far.
#[derive(Debug, Clone)]
pub struct DetectionRun {
    pub enabled: bool,
    pub auto_discover_steam_display: bool,
    pub display_blank: bool,
    pub desktop_fallback_enabled: bool,
    pub process_fallback_enabled: bool,
    pub phase: DetectPhase,
    pub initial_env: XpropEnvironment,
    pub used_env: XpropEnvironment,
    pub retry_env: Option<XpropEnvironment>,
    pub snapshot: GamescopeFocusSnapshot,
    pub supported: bool,
    pub state: DeckGameState,
    pub messages: Vec<String>,
}

pub open spec fn env_view(e: XpropEnvironment) -> (Option<Seq<char>>, Option<Seq<char>>) {
    (opt_str_view(e.display), opt_str_view(e.xauthority))
}

pub open spec fn messages_view(m: Seq<String>) -> Seq<Seq<char>> {
    m.map_values(|s: String| s@)
}

/// The pids of the focusable windows, in order.
pub open spec fn window_pids(s: GamescopeFocusSnapshot) -> Seq<u32> {
    s.focusable_windows@.map_values(|w: crate::linux::gamescope::GamescopeFocusableWindow| w.pid)
}

fn opt_eq(a: &Option<String>, b: &Option<String>) -> (r: bool)
    ensures
        r == (opt_str_view(*a) == opt_str_view(*b)),
{
    match (a, b) {
        (Some(x), Some(y)) => chars_eq(&chars_of(x.as_str()), &chars_of(y.as_str())),
        (None, None) => true,
        _ => false,
    }
}

fn same_environment(a: &XpropEnvironment, b: &XpropEnvironment) -> (r: bool)
    ensures
        r == (env_view(*a) == env_view(*b)),
{
    opt_eq(&a.display, &b.display) && opt_eq(&a.xauthority, &b.xauthority)
}

fn copy_text(o: &Option<String>) -> (r: Option<String>)
    ensures
        opt_str_view(r) == opt_str_view(*o),
{
    match o {
        Some(d) => Some(string_of(&chars_of(d.as_str()))),
        None => None,
    }
}

fn clone_env(e: &XpropEnvironment) -> (r: XpropEnvironment)
    ensures
        env_view(r) == env_view(*e),
{
    XpropEnvironment { display: copy_text(&e.display), xauthority: copy_text(&e.xauthority) }
}

fn prefixed(prefix: &str, text: &str) -> (r: String)
    ensures
        r@ == prefix@ + text@,
{
    string_of(&concat(&chars_of(prefix), &chars_of(text)))
}

fn append_messages(out: &mut Vec<String>, more: Vec<String>)
    ensures
        messages_view(final(out)@) == messages_view(old(out)@) + messages_view(more@),
{
    let ghost start = out@;
    let ghost m = more@;
    let mut i: usize = 0;
    assert(messages_view(m.take(0)) =~= Seq::<Seq<char>>::empty());
    assert(messages_view(out@) =~= messages_view(start) + messages_view(m.take(0)));
    while i < more.len()
        invariant
            0 <= i <= more@.len(),
            more@ == m,
            messages_view(out@) == messages_view(start) + messages_view(m.take(i as int)),
        decreases more.len() - i,
    {
        let s = string_of(&chars_of(more[i].as_str()));
        assert(s@ == m[i as int]@);
        assert(messages_view(m.take(i + 1)) =~= messages_view(m.take(i as int)).push(m[i as int]@));
        let ghost prev = out@;
        out.push(s);
        assert(messages_view(out@) =~= messages_view(prev).push(s@));
        assert(messages_view(out@) =~= messages_view(start) + messages_view(m.take(i + 1)));
        i += 1;
    }
    assert(m.take(m.len() as int) =~= m);
}

fn pids_of(s: &GamescopeFocusSnapshot) -> (r: Vec<u32>)
    ensures
        r@ == window_pids(*s),
{
    let mut out: Vec<u32> = Vec::new();
    let mut i: usize = 0;
    while i < s.focusable_windows.len()
        invariant
            0 <= i <= s.focusable_windows@.len(),
            out@ == window_pids(*s).take(i as int),
        decreases s.focusable_windows.len() - i,
    {
        out.push(s.focusable_windows[i].pid);
        assert(out@ =~= window_pids(*s).take(i + 1));
        i += 1;
    }
    assert(window_pids(*s).take(i as int) =~= window_pids(*s));
    out
}

impl DetectionRun {
    /// The fields a step does not change.
    pub open spec fn same_settings(self, other: Self) -> bool {
        &&& self.enabled == other.enabled
        &&& self.auto_discover_steam_display == other.auto_discover_steam_display
        &&& self.display_blank == other.display_blank
        &&& self.desktop_fallback_enabled == other.desktop_fallback_enabled
        &&& self.process_fallback_enabled == other.process_fallback_enabled
        &&& env_view(self.initial_env) == env_view(other.initial_env)
    }

    /// Starts a detection for the detector's configuration: nothing to do
    /// when disabled, else an `xprop` query with the configured display.
    pub fn start(detector: &GamescopeDetector) -> (r: (DetectionRun, DetectAction))
        ensures
            r.0.enabled == detector.config.enabled,
            r.0.auto_discover_steam_display == detector.config.auto_discover_steam_display,
            r.0.display_blank == (trim(detector.config.display@).len() == 0),
            r.0.desktop_fallback_enabled == detector.config.desktop_fallback_enabled,
            r.0.process_fallback_enabled == detector.config.process_fallback_enabled,
            opt_str_view(r.0.initial_env.display) == crate::linux::gamescope::non_empty_trimmed(
                detector.config.display@,
            ),
            r.0.initial_env.xauthority is None,
            env_view(r.0.used_env) == env_view(r.0.initial_env),
            !r.0.supported,
            r.0.messages@.len() == 0,
            r.0.state == DeckGameState::Idle,
            r.0.snapshot.is_empty_snapshot(),
            !detector.config.enabled ==> r.0.phase == DetectPhase::Done && r.1 is Finished,
            detector.config.enabled ==> r.0.phase == DetectPhase::FirstXprop && (r.1 matches DetectAction::RunXprop(e)
                && env_view(e) == env_view(r.0.initial_env)),
    {
        let config = &detector.config;
        let initial = configured_xprop_environment(config);
        let blank = crate::text::trim_chars(&chars_of(config.display.as_str())).len() == 0;
        let run = DetectionRun {
            enabled: config.enabled,
            auto_discover_steam_display: config.auto_discover_steam_display,
            display_blank: blank,
            desktop_fallback_enabled: config.desktop_fallback_enabled,
            process_fallback_enabled: config.process_fallback_enabled,
            phase: if config.enabled {
                DetectPhase::FirstXprop
            } else {
                DetectPhase::Done
            },
            initial_env: clone_env(&initial),
            used_env: clone_env(&initial),
            retry_env: None,
            snapshot: GamescopeFocusSnapshot::default(),
            supported: false,
            state: DeckGameState::Idle,
            messages: Vec::new(),
        };
        if config.enabled {
            (run, DetectAction::RunXprop(initial))
        } else {
            (run, DetectAction::Finished)
        }
    }

    fn to_liveness(&mut self) -> (a: DetectAction)
        ensures
            final(self).phase == DetectPhase::Liveness,
            a matches DetectAction::CheckProcesses(p) && p@ == window_pids(final(self).snapshot),
            final(self).same_settings(*old(self)),
            final(self).snapshot == old(self).snapshot,
            final(self).supported == old(self).supported,
            final(self).messages == old(self).messages,
            final(self).used_env == old(self).used_env,
            final(self).state == old(self).state,
    {
        self.phase = DetectPhase::Liveness;
        DetectAction::CheckProcesses(pids_of(&self.snapshot))
    }

    /// Takes the result of an `xprop` query.
    ///
    /// The first query's attempt becomes the snapshot (supported when it
    /// shows a Gamescope atom) and adds its messages; a failure adds
    /// `failed to run xprop: <error>`. Then the Steam client's display is
    /// looked for when configured to and the query showed nothing or no
    /// display was configured; otherwise the processes are checked.
    ///
    /// A retry's attempt replaces the snapshot (and becomes the environment
    /// used) when it shows an atom or the first showed none; its messages
    /// are added either way; a failure adds `failed to run xprop with Steam
    /// display: <error>`. Then the processes are checked.
    pub fn on_xprop(&mut self, result: Result<XpropAttempt, String>) -> (a: DetectAction)
        requires
            old(self).phase == DetectPhase::FirstXprop || (old(self).phase == DetectPhase::RetryXprop
                && old(self).retry_env is Some),
        ensures
            final(self).same_settings(*old(self)),
            final(self).state == old(self).state,
            old(self).phase == DetectPhase::FirstXprop ==> {
                &&& match result {
                    Ok(att) => {
                        &&& final(self).snapshot == att.snapshot
                        &&& final(self).supported == att.snapshot.has_signal()
                        &&& messages_view(final(self).messages@) == messages_view(old(self).messages@)
                            + messages_view(att.messages@)
                    },
                    Err(e) => {
                        &&& final(self).snapshot == old(self).snapshot
                        &&& final(self).supported == old(self).supported
                        &&& messages_view(final(self).messages@) == messages_view(old(self).messages@).push(
                            "failed to run xprop: "@ + e@,
                        )
                    },
                }
                &&& env_view(final(self).used_env) == env_view(old(self).used_env)
                &&& if final(self).auto_discover_steam_display && (!final(self).supported
                    || final(self).display_blank) {
                    final(self).phase == DetectPhase::SteamEnvironment && a is DiscoverSteamEnvironment
                } else {
                    final(self).phase == DetectPhase::Liveness && (a matches DetectAction::CheckProcesses(p)
                        && p@ == window_pids(final(self).snapshot))
                }
            },
            old(self).phase == DetectPhase::RetryXprop ==> {
                &&& match result {
                    Ok(att) => {
                        &&& if att.snapshot.has_signal() || !old(self).supported {
                            &&& final(self).snapshot == att.snapshot
                            &&& final(self).supported == att.snapshot.has_signal()
                            &&& env_view(final(self).used_env) == env_view(old(self).retry_env->0)
                        } else {
                            &&& final(self).snapshot == old(self).snapshot
                            &&& final(self).supported == old(self).supported
                            &&& env_view(final(self).used_env) == env_view(old(self).used_env)
                        }
                        &&& messages_view(final(self).messages@) == messages_view(old(self).messages@)
                            + messages_view(att.messages@)
                    },
                    Err(e) => {
                        &&& final(self).snapshot == old(self).snapshot
                        &&& final(self).supported == old(self).supported
                        &&& env_view(final(self).used_env) == env_view(old(self).used_env)
                        &&& messages_view(final(self).messages@) == messages_view(old(self).messages@).push(
                            "failed to run xprop with Steam display: "@ + e@,
                        )
                    },
                }
                &&& final(self).phase == DetectPhase::Liveness
                &&& a matches DetectAction::CheckProcesses(p) && p@ == window_pids(final(self).snapshot)
            },
    {
        if self.phase == DetectPhase::FirstXprop {
            match result {
                Ok(att) => {
                    self.supported = att.snapshot.has_gamescope_signal();
                    self.snapshot = att.snapshot;
                    append_messages(&mut self.messages, att.messages);
                },
                Err(e) => {
                    let ghost before = self.messages@;
                    self.messages.push(prefixed("failed to run xprop: ", e.as_str()));
                    assert(messages_view(self.messages@) =~= messages_view(before).push(
                        "failed to run xprop: "@ + e@,
                    ));
                },
            }
            if self.auto_discover_steam_display && (!self.supported || self.display_blank) {
                self.phase = DetectPhase::SteamEnvironment;
                DetectAction::DiscoverSteamEnvironment
            } else {
                self.to_liveness()
            }
        } else {
            let env = match &self.retry_env {
                Some(e) => clone_env(e),
                None => clone_env(&self.used_env),
            };
            match result {
                Ok(att) => {
                    let retry_supported = att.snapshot.has_gamescope_signal();
                    if retry_supported || !self.supported {
                        self.snapshot = att.snapshot;
                        self.supported = retry_supported;
                        self.used_env = env;
                    }
                    append_messages(&mut self.messages, att.messages);
                },
                Err(e) => {
                    let ghost before = self.messages@;
                    self.messages.push(prefixed("failed to run xprop with Steam display: ", e.as_str()));
                    assert(messages_view(self.messages@) =~= messages_view(before).push(
                        "failed to run xprop with Steam display: "@ + e@,
                    ));
                },
            }
            self.to_liveness()
        }
    }

    /// Takes the Steam client's display, if one was found: when it differs
    /// from the configured one, `xprop` is queried again with it; otherwise
    /// the processes are checked.
    pub fn on_steam_environment(&mut self, env: Option<XpropEnvironment>) -> (a: DetectAction)
        requires
            old(self).phase == DetectPhase::SteamEnvironment,
        ensures
            final(self).same_settings(*old(self)),
            final(self).snapshot == old(self).snapshot,
            final(self).supported == old(self).supported,
            final(self).messages == old(self).messages,
            final(self).used_env == old(self).used_env,
            final(self).state == old(self).state,
            match env {
                Some(e) => if env_view(e) != env_view(old(self).initial_env) {
                    &&& final(self).phase == DetectPhase::RetryXprop
                    &&& final(self).retry_env matches Some(r) && env_view(r) == env_view(e)
                    &&& a matches DetectAction::RunXprop(q) && env_view(q) == env_view(e)
                } else {
                    final(self).phase == DetectPhase::Liveness && (a matches DetectAction::CheckProcesses(p)
                        && p@ == window_pids(final(self).snapshot))
                },
                None => final(self).phase == DetectPhase::Liveness && (a matches DetectAction::CheckProcesses(p)
                    && p@ == window_pids(final(self).snapshot)),
            },
    {
        match env {
            Some(e) => {
                if !same_environment(&e, &self.initial_env) {
                    self.retry_env = Some(clone_env(&e));
                    self.phase = DetectPhase::RetryXprop;
                    DetectAction::RunXprop(e)
                } else {
                    self.to_liveness()
                }
            },
            None => self.to_liveness(),
        }
    }

    /// The step after a classification: the desktop fallback when no game
    /// is running and it is enabled, else the process fallback when no
    /// game is running and it is enabled, else done.
    fn after_classification(&mut self, desktop_tried: bool) -> (a: DetectAction)
        ensures
            final(self).same_settings(*old(self)),
            final(self).snapshot == old(self).snapshot,
            final(self).supported == old(self).supported,
            final(self).messages == old(self).messages,
            final(self).used_env == old(self).used_env,
            final(self).state == old(self).state,
            if !desktop_tried && !old(self).state.running() && old(self).desktop_fallback_enabled {
                final(self).phase == DetectPhase::DesktopFallback && (a matches DetectAction::FindDesktopWindow(e)
                    && env_view(e) == env_view(old(self).used_env))
            } else if !old(self).state.running() && old(self).process_fallback_enabled {
                final(self).phase == DetectPhase::ProcessFallback && a is FindSteamProcessTree
            } else {
                final(self).phase == DetectPhase::Done && a is Finished
            },
    {
        if !desktop_tried && !self.state.is_game_running() && self.desktop_fallback_enabled {
            self.phase = DetectPhase::DesktopFallback;
            DetectAction::FindDesktopWindow(clone_env(&self.used_env))
        } else if !self.state.is_game_running() && self.process_fallback_enabled {
            self.phase = DetectPhase::ProcessFallback;
            DetectAction::FindSteamProcessTree
        } else {
            self.phase = DetectPhase::Done;
            DetectAction::Finished
        }
    }

    /// Takes which processes of the focusable windows exist: the active game
    /// is derived and the snapshot classified; then the fallbacks follow
    /// while no game is running.
    pub fn on_liveness(&mut self, live: Vec<bool>) -> (a: DetectAction)
        requires
            old(self).phase == DetectPhase::Liveness,
            live@.len() == old(self).snapshot.focusable_windows@.len(),
        ensures
            final(self).same_settings(*old(self)),
            final(self).snapshot.derived_from(old(self).snapshot, live@),
            final(self).state == final(self).snapshot.classify_spec(),
            final(self).supported == old(self).supported,
            final(self).messages == old(self).messages,
            final(self).used_env == old(self).used_env,
            if !final(self).state.running() && old(self).desktop_fallback_enabled {
                final(self).phase == DetectPhase::DesktopFallback && (a matches DetectAction::FindDesktopWindow(e)
                    && env_view(e) == env_view(old(self).used_env))
            } else if !final(self).state.running() && old(self).process_fallback_enabled {
                final(self).phase == DetectPhase::ProcessFallback && a is FindSteamProcessTree
            } else {
                final(self).phase == DetectPhase::Done && a is Finished
            },
    {
        self.snapshot.derive_active_game_with_liveness(&live);
        self.state = self.snapshot.classify();
        self.after_classification(false)
    }

    /// Takes what a fallback found: a game found becomes the active game,
    /// the state and a message `game state detected by <source>`, and makes
    /// the detection supported. After the desktop fallback the process
    /// fallback follows while no game is running.
    pub fn on_candidate(&mut self, candidate: Option<GameCandidate>) -> (a: DetectAction)
        requires
            old(self).phase == DetectPhase::DesktopFallback || old(self).phase
                == DetectPhase::ProcessFallback,
        ensures
            final(self).same_settings(*old(self)),
            final(self).used_env == old(self).used_env,
            match candidate {
                Some(c) => {
                    &&& final(self).snapshot.same_observation(old(self).snapshot)
                    &&& final(self).snapshot.active_game_app_id == Some(c.app_id)
                    &&& final(self).snapshot.active_game_pid == Some(c.pid)
                    &&& opt_str_view(final(self).snapshot.detection_source) == Some(c.detection_source@)
                    &&& final(self).supported
                    &&& final(self).state == c.state
                    &&& messages_view(final(self).messages@) == messages_view(old(self).messages@).push(
                        "game state detected by "@ + c.detection_source@,
                    )
                },
                None => {
                    &&& final(self).snapshot == old(self).snapshot
                    &&& final(self).supported == old(self).supported
                    &&& final(self).state == old(self).state
                    &&& final(self).messages == old(self).messages
                },
            },
            if old(self).phase == DetectPhase::DesktopFallback && !final(self).state.running()
                && old(self).process_fallback_enabled {
                final(self).phase == DetectPhase::ProcessFallback && a is FindSteamProcessTree
            } else {
                final(self).phase == DetectPhase::Done && a is Finished
            },
    {
        match candidate {
            Some(c) => {
                apply_game_candidate(&mut self.snapshot, &c);
                self.supported = true;
                self.state = c.state;
                let ghost before = self.messages@;
                self.messages.push(prefixed("game state detected by ", c.detection_source.as_str()));
                assert(messages_view(self.messages@) =~= messages_view(before).push(
                    "game state detected by "@ + c.detection_source@,
                ));
            },
            None => {},
        }
        if self.phase == DetectPhase::DesktopFallback {
            self.after_classification(true)
        } else {
            self.phase = DetectPhase::Done;
            DetectAction::Finished
        }
    }

    /// The completed detection: the disabled report when the detector is
    /// off, else what was found.
    pub fn finish(self) -> (r: GamescopeDetection)
        requires
            self.phase == DetectPhase::Done,
        ensures
            !self.enabled ==> !r.enabled && !r.supported && r.state == DeckGameState::Idle
                && r.snapshot.is_empty_snapshot() && messages_view(r.messages@) == seq!["disabled"@],
            self.enabled ==> r.enabled && r.supported == self.supported && r.state == self.state
                && r.snapshot == self.snapshot && r.messages == self.messages,
    {
        if !self.enabled {
            let d = disabled_detection();
            assert(messages_view(d.messages@) =~= seq!["disabled"@]);
            d
        } else {
            GamescopeDetection {
                enabled: true,
                supported: self.supported,
                state: self.state,
                snapshot: self.snapshot,
                messages: self.messages,
            }
        }
    }
}

} // verus!
