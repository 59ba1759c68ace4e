//! What the game-state detector reads of a process under `/proc`: its
//! command line and environment, the display of the running Steam client,
//! and the game behind the desktop's active window.

use vstd::prelude::*;

use crate::bytes::string_from_utf8;
use crate::linux::gamescope::{
    is_probable_game_app_id, non_empty_string, non_empty_trimmed, opt_str_view, probable_game,
    steam_app_id_from_text, steam_app_id_in_text, DeckGameState, GameCandidate, XpropEnvironment,
    active_window_id, parse_active_window_id, parse_stat_ppid, parse_wm_pid, stat_ppid, wm_pid,
    ProcessInfo,
};
use crate::text::{
    chars_eq, chars_of, join, join_chars, parse_u32_chars, parse_unsigned, split_once,
    split_once_chars, string_of, trim, trim_chars,
};

verus! {

broadcast use vstd::string::group_string_axioms;

/// `bytes.split(|b| *b == 0)`: the pieces between NUL bytes, one more than
/// there are NULs.
pub open spec fn nul_split(s: Seq<u8>) -> Seq<Seq<u8>>
    decreases s.len(),
{
    if s.len() == 0 {
        seq![seq![]]
    } else {
        let p = nul_split(s.drop_last());
        if s.last() == 0 {
            p.push(seq![])
        } else {
            p.update(p.len() - 1, p.last().push(s.last()))
        }
    }
}

pub proof fn lemma_nul_split_len(s: Seq<u8>)
    ensures
        nul_split(s).len() >= 1,
    decreases s.len(),
{
    if s.len() > 0 {
        lemma_nul_split_len(s.drop_last());
    }
}

pub open spec fn bytes_views(v: Seq<Vec<u8>>) -> Seq<Seq<u8>> {
    v.map_values(|b: Vec<u8>| b@)
}

/// The pieces of `bytes` between NUL bytes.
pub fn nul_fields(bytes: &[u8]) -> (r: Vec<Vec<u8>>)
    ensures
        bytes_views(r@) == nul_split(bytes@),
{
    let mut out: Vec<Vec<u8>> = Vec::new();
    let mut cur: Vec<u8> = Vec::new();
    let mut i: usize = 0;
    while i < bytes.len()
        invariant
            0 <= i <= bytes@.len(),
            bytes_views(out@).push(cur@) == nul_split(bytes@.take(i as int)),
        decreases bytes.len() - i,
    {
        let ghost before = bytes_views(out@).push(cur@);
        assert(bytes@.take(i + 1).drop_last() =~= bytes@.take(i as int));
        proof {
            lemma_nul_split_len(bytes@.take(i as int));
        }
        let b = bytes[i];
        if b == 0 {
            let done = cur;
            out.push(done);
            cur = Vec::new();
            assert(bytes_views(out@).push(cur@) =~= before.push(seq![]));
        } else {
            cur.push(b);
            assert(bytes_views(out@).push(cur@) =~= before.update(
                before.len() - 1,
                before.last().push(b),
            ));
        }
        i += 1;
    }
    assert(bytes@.take(bytes.len() as int) =~= bytes@);
    let ghost before = bytes_views(out@).push(cur@);
    out.push(cur);
    assert(bytes_views(out@) =~= before);
    out
}

/// The pieces of a command line that are non-empty UTF-8, decoded.
pub open spec fn cmdline_words(pieces: Seq<Seq<u8>>) -> Seq<Seq<char>>
    decreases pieces.len(),
{
    if pieces.len() == 0 {
        seq![]
    } else {
        let rest = cmdline_words(pieces.drop_last());
        let p = pieces.last();
        if p.len() > 0 && vstd::utf8::valid_utf8(p) {
            rest.push(vstd::utf8::decode_utf8(p))
        } else {
            rest
        }
    }
}

/// The text of `/proc/<pid>/cmdline`: its NUL-separated words that are
/// non-empty UTF-8, joined with single spaces.
pub open spec fn cmdline_text_spec(bytes: Seq<u8>) -> Seq<char> {
    join(cmdline_words(nul_split(bytes)), " "@)
}

/// The text of `/proc/<pid>/cmdline`, as its words joined with spaces.
pub fn cmdline_text(bytes: &[u8]) -> (r: String)
    ensures
        r@ == cmdline_text_spec(bytes@),
{
    let pieces = nul_fields(bytes);
    let ghost pv = bytes_views(pieces@);
    let mut words: Vec<Vec<char>> = Vec::new();
    let mut i: usize = 0;
    while i < pieces.len()
        invariant
            0 <= i <= pieces@.len(),
            pv == bytes_views(pieces@),
            words@.map_values(|w: Vec<char>| w@) == cmdline_words(pv.take(i as int)),
        decreases pieces.len() - i,
    {
        assert(pv.take(i + 1).drop_last() =~= pv.take(i as int));
        let ghost before = words@.map_values(|w: Vec<char>| w@);
        if pieces[i].len() > 0 {
            match string_from_utf8(pieces[i].clone()) {
                Some(s) => {
                    words.push(chars_of(s.as_str()));
                    assert(words@.map_values(|w: Vec<char>| w@) =~= before.push(s@));
                },
                None => {},
            }
        }
        i += 1;
    }
    assert(pv.take(pieces.len() as int) =~= pv);
    let joined = join_chars(&words, &chars_of(" "));
    string_of(&joined)
}

/// The `KEY=value` entries of an environment block: its pieces that are
/// UTF-8 and hold a `=`, split at the first one.
pub open spec fn environ_entries_of(pieces: Seq<Seq<u8>>) -> Seq<(Seq<char>, Seq<char>)>
    decreases pieces.len(),
{
    if pieces.len() == 0 {
        seq![]
    } else {
        let rest = environ_entries_of(pieces.drop_last());
        let p = pieces.last();
        if vstd::utf8::valid_utf8(p) {
            match split_once(vstd::utf8::decode_utf8(p), '=') {
                Some(kv) => rest.push(kv),
                None => rest,
            }
        } else {
            rest
        }
    }
}

pub open spec fn pair_views(v: Seq<(String, String)>) -> Seq<(Seq<char>, Seq<char>)> {
    v.map_values(|p: (String, String)| (p.0@, p.1@))
}

/// The entries of `/proc/<pid>/environ`, in order.
pub fn environ_entries(bytes: &[u8]) -> (r: Vec<(String, String)>)
    ensures
        pair_views(r@) == environ_entries_of(nul_split(bytes@)),
{
    let pieces = nul_fields(bytes);
    let ghost pv = bytes_views(pieces@);
    let mut out: Vec<(String, String)> = Vec::new();
    let mut i: usize = 0;
    while i < pieces.len()
        invariant
            0 <= i <= pieces@.len(),
            pv == bytes_views(pieces@),
            pair_views(out@) == environ_entries_of(pv.take(i as int)),
        decreases pieces.len() - i,
    {
        assert(pv.take(i + 1).drop_last() =~= pv.take(i as int));
        let ghost before = pair_views(out@);
        match string_from_utf8(pieces[i].clone()) {
            Some(s) => {
                match split_once_chars(&chars_of(s.as_str()), '=') {
                    Some((k, v)) => {
                        out.push((string_of(&k), string_of(&v)));
                        assert(pair_views(out@) =~= before.push((k@, v@)));
                    },
                    None => {},
                }
            },
            None => {},
        }
        i += 1;
    }
    assert(pv.take(pieces.len() as int) =~= pv);
    out
}

/// The value of `key` in the entries; the last entry with it wins, as when
/// they are collected into a map.
pub open spec fn environ_lookup(entries: Seq<(Seq<char>, Seq<char>)>, key: Seq<char>) -> Option<
    Seq<char>,
>
    decreases entries.len(),
{
    if entries.len() == 0 {
        None
    } else if entries.last().0 == key {
        Some(entries.last().1)
    } else {
        environ_lookup(entries.drop_last(), key)
    }
}

/// The value of `key` among the entries (the last one with it).
pub fn environ_value(entries: &[(String, String)], key: &str) -> (r: Option<String>)
    ensures
        opt_str_view(r) == environ_lookup(pair_views(entries@), key@),
{
    let ghost ev = pair_views(entries@);
    let k = chars_of(key);
    let mut i: usize = entries.len();
    assert(ev.take(i as int) =~= ev);
    while i > 0
        invariant
            0 <= i <= entries@.len(),
            ev == pair_views(entries@),
            k@ == key@,
            environ_lookup(ev, key@) == environ_lookup(ev.take(i as int), key@),
        decreases i,
    {
        let ghost t = ev.take(i as int);
        assert(t.drop_last() =~= ev.take(i - 1));
        if chars_eq(&chars_of(entries[i - 1].0.as_str()), &k) {
            return Some(entries[i - 1].1.clone());
        }
        i -= 1;
    }
    None
}

/// `value.parse::<u32>()` of an environment value.
pub open spec fn env_u32(entries: Seq<(Seq<char>, Seq<char>)>, key: Seq<char>) -> Option<u32> {
    match environ_lookup(entries, key) {
        Some(v) => match parse_unsigned(v, 10, u32::MAX as nat) {
            Some(n) => Some(n as u32),
            None => None,
        },
        None => None,
    }
}

/// The app id a process's environment names: `SteamAppId`, else
/// `SteamGameId`, the first that is a number and can be a game.
pub open spec fn environ_app_id(entries: Seq<(Seq<char>, Seq<char>)>) -> Option<u32> {
    let a = env_u32(entries, "SteamAppId"@);
    let b = env_u32(entries, "SteamGameId"@);
    if a matches Some(x) && probable_game(x) {
        a
    } else if b matches Some(y) && probable_game(y) {
        b
    } else {
        None
    }
}

fn env_number(entries: &[(String, String)], key: &str) -> (r: Option<u32>)
    ensures
        r == env_u32(pair_views(entries@), key@),
{
    match environ_value(entries, key) {
        Some(v) => parse_u32_chars(&chars_of(v.as_str())),
        None => None,
    }
}

/// The Steam app id in a process's environment, if it names one that can
/// be a game.
pub fn steam_app_id_from_environ(entries: &[(String, String)]) -> (r: Option<u32>)
    ensures
        r == environ_app_id(pair_views(entries@)),
{
    proof {
        reveal_strlit("SteamAppId");
        reveal_strlit("SteamGameId");
    }
    match env_number(entries, "SteamAppId") {
        Some(a) => {
            if is_probable_game_app_id(a) {
                return Some(a);
            }
        },
        None => {},
    }
    match env_number(entries, "SteamGameId") {
        Some(b) => {
            if is_probable_game_app_id(b) {
                return Some(b);
            }
        },
        None => {},
    }
    None
}

// ---------------------------------------------------------------------------
// The display of the running Steam client
// ---------------------------------------------------------------------------

/// What was read of one process when looking for the Steam client: its
/// pid, its `comm` (trimmed), its user id and its environment, each where
/// it could be read.
#[derive(Debug, Clone)]
pub struct SteamProcessFacts {
    pub pid: u32,
    pub comm: Option<String>,
    pub uid: Option<u32>,
    pub environ: Option<Vec<(String, String)>>,
}

/// Whether a process name is the Steam client's.
pub open spec fn is_steam_comm_spec(comm: Seq<char>) -> bool {
    trim(comm) == "steam"@
}

/// Whether a process name is the Steam client's (`steam`, trimmed).
pub fn is_steam_comm(comm: &str) -> (r: bool)
    ensures
        r == is_steam_comm_spec(comm@),
{
    proof {
        reveal_strlit("steam");
    }
    chars_eq(&trim_chars(&chars_of(comm)), &chars_of("steam"))
}

/// The display a process offers, when it is a Steam client of this user
/// with a display in its environment: the display, and its X authority when
/// that is not blank.
pub open spec fn offered_environment(f: SteamProcessFacts, current_uid: u32) -> Option<
    (Seq<char>, Option<Seq<char>>),
> {
    match (f.comm, f.uid, f.environ) {
        (Some(c), Some(u), Some(e)) => {
            let entries = pair_views(e@);
            if is_steam_comm_spec(c@) && u == current_uid {
                match environ_lookup(entries, "DISPLAY"@) {
                    Some(d) => match non_empty_trimmed(d) {
                        Some(display) => Some(
                            (
                                display,
                                match environ_lookup(entries, "XAUTHORITY"@) {
                                    Some(x) => non_empty_trimmed(x),
                                    None => None,
                                },
                            ),
                        ),
                        None => None,
                    },
                    None => None,
                }
            } else {
                None
            }
        },
        _ => None,
    }
}

/// Among the first `n` processes, the one with the greatest pid that offers
/// a display (the last of equals).
pub open spec fn best_steam_upto(fs: Seq<SteamProcessFacts>, current_uid: u32, n: int) -> Option<
    int,
>
    decreases n,
{
    if n <= 0 {
        None
    } else {
        let b = best_steam_upto(fs, current_uid, n - 1);
        if offered_environment(fs[n - 1], current_uid) is Some && (b is None || fs[b->0].pid
            <= fs[n - 1].pid) {
            Some(n - 1)
        } else {
            b
        }
    }
}

pub proof fn lemma_best_steam_upto(fs: Seq<SteamProcessFacts>, current_uid: u32, n: int)
    requires
        0 <= n <= fs.len(),
    ensures
        best_steam_upto(fs, current_uid, n) matches Some(k) ==> 0 <= k < n && offered_environment(
            fs[k],
            current_uid,
        ) is Some,
    decreases n,
{
    if n > 0 {
        lemma_best_steam_upto(fs, current_uid, n - 1);
    }
}

/// The environment the Steam client runs `xprop` with, when the current
/// user id is known and a Steam client of that user offers a display.
pub open spec fn steam_environment_spec(current_uid: Option<u32>, fs: Seq<SteamProcessFacts>) -> Option<
    (Seq<char>, Option<Seq<char>>),
> {
    match current_uid {
        Some(u) => match best_steam_upto(fs, u, fs.len() as int) {
            Some(k) => offered_environment(fs[k], u),
            None => None,
        },
        None => None,
    }
}

pub open spec fn env_pair(e: XpropEnvironment) -> (Option<Seq<char>>, Option<Seq<char>>) {
    (opt_str_view(e.display), opt_str_view(e.xauthority))
}

fn offered(f: &SteamProcessFacts, current_uid: u32) -> (r: Option<XpropEnvironment>)
    ensures
        match offered_environment(*f, current_uid) {
            Some((d, x)) => r matches Some(e) && env_pair(e) == (Some(d), x),
            None => r is None,
        },
{
    proof {
        reveal_strlit("DISPLAY");
        reveal_strlit("XAUTHORITY");
    }
    match (&f.comm, &f.uid, &f.environ) {
        (Some(c), Some(u), Some(e)) => {
            if !is_steam_comm(c.as_str()) || *u != current_uid {
                return None;
            }
            let display = match environ_value(e.as_slice(), "DISPLAY") {
                Some(d) => match non_empty_string(d.as_str()) {
                    Some(v) => v,
                    None => return None,
                },
                None => return None,
            };
            let xauthority = match environ_value(e.as_slice(), "XAUTHORITY") {
                Some(x) => non_empty_string(x.as_str()),
                None => None,
            };
            Some(XpropEnvironment { display: Some(display), xauthority })
        },
        _ => None,
    }
}

/// The display of the running Steam client: among the processes of the
/// current user named `steam` whose environment has a display that is not
/// blank, the one with the greatest pid; `None` when the current user is
/// not known or there is none.
pub fn discover_steam_environment(current_uid: Option<u32>, processes: &[SteamProcessFacts]) -> (r:
    Option<XpropEnvironment>)
    ensures
        match steam_environment_spec(current_uid, processes@) {
            Some((d, x)) => r matches Some(e) && env_pair(e) == (Some(d), x),
            None => r is None,
        },
{
    let u = match current_uid {
        Some(u) => u,
        None => return None,
    };
    let mut best: Option<usize> = None;
    let mut best_env: Option<XpropEnvironment> = None;
    let mut i: usize = 0;
    while i < processes.len()
        invariant
            0 <= i <= processes@.len(),
            current_uid == Some(u),
            best_steam_upto(processes@, u, i as int) == match best {
                Some(k) => Some(k as int),
                None => None::<int>,
            },
            best matches Some(k) ==> k < i,
            match best {
                Some(k) => match offered_environment(processes@[k as int], u) {
                    Some((d, x)) => best_env matches Some(e) && env_pair(e) == (Some(d), x),
                    None => false,
                },
                None => best_env is None,
            },
        decreases processes.len() - i,
    {
        proof {
            lemma_best_steam_upto(processes@, u, i as int);
        }
        match offered(&processes[i], u) {
            Some(e) => {
                let better = match best {
                    Some(k) => processes[k].pid <= processes[i].pid,
                    None => true,
                };
                if better {
                    best = Some(i);
                    best_env = Some(e);
                }
            },
            None => {},
        }
        i += 1;
    }
    best_env
}

// ---------------------------------------------------------------------------
// The game behind the desktop's active window
// ---------------------------------------------------------------------------

/// Whether a process with this pid exists: a pid other than 0 whose
/// directory is there.
pub fn pid_alive(pid: u32, dir_exists: bool) -> (r: bool)
    ensures
        r == (pid != 0 && dir_exists),
{
    pid != 0 && dir_exists
}

/// The window to ask about: the active window named by a successful
/// `xprop -root _NET_ACTIVE_WINDOW`, when it is not 0.
pub fn desktop_window_target(succeeded: bool, stdout: &str) -> (r: Option<u32>)
    ensures
        r == (if succeeded && active_window_id(stdout@) is Some && active_window_id(stdout@)->0 != 0 {
            active_window_id(stdout@)
        } else {
            None::<u32>
        }),
{
    if !succeeded {
        return None;
    }
    match parse_active_window_id(stdout) {
        Some(id) => if id == 0 {
            None
        } else {
            Some(id)
        },
        None => None,
    }
}

/// The lowercase hexadecimal digits of `n`.
pub open spec fn hex_lower(n: nat) -> Seq<char>
    decreases n,
{
    if n < 16 {
        seq![hex_digit(n)]
    } else {
        hex_lower(n / 16).push(hex_digit(n % 16))
    }
}

pub open spec fn hex_digit(d: nat) -> char {
    if d < 10 {
        ((d + 48) as u32) as char
    } else {
        ((d + 87) as u32) as char
    }
}

fn hex_digits(n: u32) -> (r: Vec<char>)
    ensures
        r@ == hex_lower(n as nat),
    decreases n,
{
    let d = (n % 16) as u8;
    let c = if d < 10 {
        crate::text::char_from_ascii(d + 48)
    } else {
        crate::text::char_from_ascii(d + 87)
    };
    let mut v = if n < 16 {
        Vec::new()
    } else {
        hex_digits(n / 16)
    };
    let ghost before = v@;
    v.push(c);
    proof {
        if n < 16 {
            assert(v@ =~= seq![hex_digit(n as nat)]);
        } else {
            assert(v@ =~= before.push(hex_digit((n % 16) as nat)));
        }
    }
    v
}

/// The argument naming a window to `xprop -id`: `0x` and its id in
/// lowercase hexadecimal.
pub fn window_id_arg(id: u32) -> (r: String)
    ensures
        r@ == "0x"@ + hex_lower(id as nat),
{
    proof {
        reveal_strlit("0x");
    }
    let digits = hex_digits(id);
    let mut v = chars_of("0x");
    let ghost p = v@;
    let mut i: usize = 0;
    while i < digits.len()
        invariant
            0 <= i <= digits@.len(),
            p == "0x"@,
            v@ == p + digits@.take(i as int),
        decreases digits.len() - i,
    {
        v.push(digits[i]);
        assert(digits@.take(i + 1) =~= digits@.take(i as int).push(digits@[i as int]));
        i += 1;
    }
    assert(digits@.take(digits.len() as int) =~= digits@);
    string_of(&v)
}

/// The pid named by a successful `xprop -id <window> _NET_WM_PID ...`.
pub fn desktop_window_pid(succeeded: bool, stdout: &str) -> (r: Option<u32>)
    ensures
        r == (if succeeded {
            wm_pid(stdout@)
        } else {
            None::<u32>
        }),
{
    if succeeded {
        parse_wm_pid(stdout)
    } else {
        None
    }
}

/// The game the desktop's active window belongs to, from its process:
/// none when the process does not exist or is not a game; else the app id
/// named by its environment, or else by the window's properties, when it
/// can be a game.
pub open spec fn desktop_candidate_spec(
    alive: bool,
    ignored: bool,
    env_app_id: Option<u32>,
    window_text: Seq<char>,
) -> Option<u32> {
    if !alive || ignored {
        None
    } else {
        let id = match env_app_id {
            Some(a) => Some(a),
            None => steam_app_id_in_text(window_text),
        };
        match id {
            Some(a) => if probable_game(a) {
                Some(a)
            } else {
                None
            },
            None => None,
        }
    }
}

/// The candidate found behind the desktop's active window, whose process
/// `pid` exists or not (`alive`), is ignored or not (not a game), and names
/// `env_app_id` in its environment: focused and visible, found by
/// `desktop_active_window`.
pub fn desktop_game_candidate(
    pid: u32,
    alive: bool,
    ignored: bool,
    env_app_id: Option<u32>,
    window_stdout: &str,
) -> (r: Option<GameCandidate>)
    ensures
        match desktop_candidate_spec(alive, ignored, env_app_id, window_stdout@) {
            Some(a) => r matches Some(c) && c.app_id == a && c.pid == pid && c.state
                == DeckGameState::GameFocusedVisible && c.detection_source@
                == "desktop_active_window"@,
            None => r is None,
        },
{
    if !alive || ignored {
        return None;
    }
    let id = match env_app_id {
        Some(a) => Some(a),
        None => steam_app_id_from_text(window_stdout),
    };
    match id {
        Some(a) => if is_probable_game_app_id(a) {
            Some(
                GameCandidate {
                    app_id: a,
                    pid,
                    state: DeckGameState::GameFocusedVisible,
                    detection_source: "desktop_active_window".to_string(),
                },
            )
        } else {
            None
        },
        None => None,
    }
}

// ---------------------------------------------------------------------------
// The process table
// ---------------------------------------------------------------------------

/// The pids among the names of the entries of `/proc`: those that are
/// numbers, in order.
pub open spec fn pid_names(names: Seq<Seq<char>>) -> Seq<u32>
    decreases names.len(),
{
    if names.len() == 0 {
        seq![]
    } else {
        let rest = pid_names(names.drop_last());
        match parse_unsigned(names.last(), 10, u32::MAX as nat) {
            Some(n) => rest.push(n as u32),
            None => rest,
        }
    }
}

/// The pids among the names of the entries of `/proc`.
pub fn numeric_names(names: &[String]) -> (r: Vec<u32>)
    ensures
        r@ == pid_names(names@.map_values(|n: String| n@)),
{
    let ghost nv = names@.map_values(|n: String| n@);
    let mut out: Vec<u32> = Vec::new();
    let mut i: usize = 0;
    while i < names.len()
        invariant
            0 <= i <= names@.len(),
            nv == names@.map_values(|n: String| n@),
            out@ == pid_names(nv.take(i as int)),
        decreases names.len() - i,
    {
        assert(nv.take(i + 1).drop_last() =~= nv.take(i as int));
        match parse_u32_chars(&chars_of(names[i].as_str())) {
            Some(n) => out.push(n),
            None => {},
        }
        i += 1;
    }
    assert(nv.take(names.len() as int) =~= nv);
    out
}

/// The entry of the process table for `pid`, from the texts of its `stat`,
/// `comm` and `cmdline` files where they could be read: none without a
/// parent pid; the name trimmed and the command line as its words, each
/// empty when it could not be read.
pub fn process_info(pid: u32, stat: Option<&str>, comm: Option<&str>, cmdline: Option<&[u8]>) -> (r:
    Option<ProcessInfo>)
    ensures
        match stat {
            Some(st) => match stat_ppid(st@) {
                Some(ppid) => r matches Some(p) && p.pid == pid && p.ppid == ppid && p.comm@ == (
                match comm {
                    Some(c) => trim(c@),
                    None => Seq::<char>::empty(),
                }) && p.cmdline@ == (match cmdline {
                    Some(b) => cmdline_text_spec(b@),
                    None => Seq::<char>::empty(),
                }),
                None => r is None,
            },
            None => r is None,
        },
{
    let ppid = match stat {
        Some(st) => match parse_stat_ppid(st) {
            Some(p) => p,
            None => return None,
        },
        None => return None,
    };
    let comm_text = match comm {
        Some(c) => string_of(&trim_chars(&chars_of(c))),
        None => String::new(),
    };
    let cmdline_str = match cmdline {
        Some(b) => cmdline_text(b),
        None => String::new(),
    };
    Some(ProcessInfo { pid, ppid, comm: comm_text, cmdline: cmdline_str })
}

} // verus!
