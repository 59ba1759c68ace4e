//! NVIDIA GPUs through NVML: which libraries are tried, what NVML's return
//! codes and strings mean, the errors and their statuses, and the checks a
//! reading must pass before it becomes a metric.

use vstd::prelude::*;

use crate::bytes::{string_from_utf8_lossy, utf8_lossy};
use crate::config::{debug_quoted, debug_string};
use crate::text::{
    chars_of, concat, decimal, decimal_chars, join, join_chars, string_of, trim, trim_chars,
};

verus! {

pub const COLLECTOR_NAME: &'static str = "nvidia_nvml";
pub const SOURCE: &'static str = "nvidia_nvml";

pub const NVML_SUCCESS: u32 = 0;
pub const NVML_ERROR_NOT_SUPPORTED: u32 = 3;
pub const NVML_ERROR_NOT_FOUND: u32 = 6;
pub const NVML_TEMPERATURE_GPU: u32 = 0;
pub const NVML_CLOCK_GRAPHICS: u32 = 0;
pub const NVML_CLOCK_MEM: u32 = 2;

/// The buffer NVML writes a name, UUID, serial or VBIOS version into.
pub const NAME_BUFFER_LEN: usize = 96;

// ---------------------------------------------------------------------------
// Readings
// ---------------------------------------------------------------------------

#[derive(Debug, Clone, PartialEq, Eq)]
pub struct NvidiaDeviceInfo {
    pub index: u32,
    pub name: Option<String>,
    pub uuid: Option<String>,
}

#[derive(Debug, Clone, Copy, PartialEq, Eq, Structural)]
pub struct NvidiaMemory {
    pub total_bytes: u64,
    pub used_bytes: u64,
    pub free_bytes: u64,
}

/// The memory figures shown when a device is inspected.
#[derive(Debug, Clone, Copy, PartialEq, Eq)]
pub struct NvidiaMemoryInspection {
    pub total_bytes: u64,
    pub used_bytes: u64,
    pub free_bytes: u64,
}

impl NvidiaMemoryInspection {
    pub fn from_memory(memory: NvidiaMemory) -> (r: Self)
        ensures
            r.total_bytes == memory.total_bytes,
            r.used_bytes == memory.used_bytes,
            r.free_bytes == memory.free_bytes,
    {
        NvidiaMemoryInspection {
            total_bytes: memory.total_bytes,
            used_bytes: memory.used_bytes,
            free_bytes: memory.free_bytes,
        }
    }
}

/// Memory counters are kept only when used and free together fit in the
/// total. Their sum saturates at `u64::MAX`, so a total of `u64::MAX`
/// accepts any counters.
pub open spec fn memory_consistent(total: u64, used: u64, free: u64) -> bool {
    used + free <= total || total == u64::MAX
}

pub fn validate_memory(total_bytes: u64, used_bytes: u64, free_bytes: u64) -> (r: Option<NvidiaMemory>)
    ensures
        memory_consistent(total_bytes, used_bytes, free_bytes) ==> r == Some(
            NvidiaMemory { total_bytes, used_bytes, free_bytes },
        ),
        !memory_consistent(total_bytes, used_bytes, free_bytes) ==> r is None,
{
    if used_bytes > total_bytes || free_bytes > total_bytes {
        return None;
    }
    if used_bytes.saturating_add(free_bytes) > total_bytes {
        return None;
    }
    Some(NvidiaMemory { total_bytes, used_bytes, free_bytes })
}

/// Which clock-throttling reasons a bit mask from NVML reports: thermal
/// (software or hardware thermal slowdown), power (power capping, hardware
/// power brake) and other (idle, sync boost, display clock).
pub open spec fn throttle_states_spec(reasons: u64) -> (bool, bool, bool) {
    (reasons & 0x60 != 0, reasons & 0x8c != 0, reasons & 0x112 != 0)
}

pub fn throttle_reason_states(reasons: u64) -> (r: (bool, bool, bool))
    ensures
        r == throttle_states_spec(reasons),
{
    (reasons & 0x60 != 0, reasons & 0x8c != 0, reasons & 0x112 != 0)
}


/// The throttle states by NVML's reason bits: thermal is set exactly when
/// software (0x20) or hardware (0x40) thermal slowdown is; power exactly
/// when software power capping (0x4), hardware slowdown (0x8) or the
/// hardware power brake (0x80) is; other exactly when the applications
/// clock setting (0x2), sync boost (0x10) or the display clock setting
/// (0x100) is.
pub proof fn lemma_throttle_states_by_reason(reasons: u64)
    ensures
        throttle_states_spec(reasons).0 == (reasons & 0x20 != 0 || reasons & 0x40 != 0),
        throttle_states_spec(reasons).1 == (reasons & 0x4 != 0 || reasons & 0x8 != 0 || reasons & 0x80 != 0),
        throttle_states_spec(reasons).2 == (reasons & 0x2 != 0 || reasons & 0x10 != 0 || reasons & 0x100 != 0),
{
    assert((reasons & 0x60 != 0) == (reasons & 0x20 != 0 || reasons & 0x40 != 0)) by (bit_vector);
    assert((reasons & 0x8c != 0) == (reasons & 0x4 != 0 || reasons & 0x8 != 0 || reasons & 0x80 != 0))
        by (bit_vector);
    assert((reasons & 0x112 != 0) == (reasons & 0x2 != 0 || reasons & 0x10 != 0 || reasons & 0x100 != 0))
        by (bit_vector);
}
/// The label value naming a GPU: `gpu` and its index.
pub open spec fn gpu_device_id_spec(index: u32) -> Seq<char> {
    "gpu"@ + decimal(index as nat)
}

pub fn gpu_device_id(index: u32) -> (r: String)
    ensures
        r@ == gpu_device_id_spec(index),
{
    let prefix = chars_of("gpu");
    let digits = decimal_chars(index as u64);
    string_of(&concat(&prefix, &digits))
}

/// A performance state as NVIDIA names it: `P` and its number.
pub fn performance_state_label(state: u32) -> (r: String)
    ensures
        r@ == "P"@ + decimal(state as nat),
{
    let prefix = chars_of("P");
    let digits = decimal_chars(state as u64);
    string_of(&concat(&prefix, &digits))
}

/// The sensor name of a clock: memory, SM, video, or else the core clock.
pub open spec fn clock_sensor_spec(clock: Seq<char>) -> Seq<char> {
    if clock == "memory"@ {
        "gpu_memory_clock"@
    } else if clock == "sm"@ {
        "gpu_sm_clock"@
    } else if clock == "video"@ {
        "gpu_video_clock"@
    } else {
        "gpu_core_clock"@
    }
}

pub fn clock_sensor(clock: &str) -> (r: &'static str)
    ensures
        r@ == clock_sensor_spec(clock@),
{
    let c = chars_of(clock);
    if crate::text::chars_eq(&c, &chars_of("memory")) {
        "gpu_memory_clock"
    } else if crate::text::chars_eq(&c, &chars_of("sm")) {
        "gpu_sm_clock"
    } else if crate::text::chars_eq(&c, &chars_of("video")) {
        "gpu_video_clock"
    } else {
        "gpu_core_clock"
    }
}

/// The sensor name of a utilization engine.
pub fn utilization_sensor(engine: &str) -> (r: &'static str)
    ensures
        r@ == (if engine@ == "memory"@ {
            "gpu_memory_utilization"@
        } else {
            "gpu_utilization"@
        }),
{
    let e = chars_of(engine);
    if crate::text::chars_eq(&e, &chars_of("memory")) {
        "gpu_memory_utilization"
    } else {
        "gpu_utilization"
    }
}

// ---------------------------------------------------------------------------
// Loading the library
// ---------------------------------------------------------------------------

/// A library to try: the path handed to the loader and how it is shown.
#[derive(Debug, Clone, PartialEq, Eq)]
pub struct LibraryCandidate {
    pub path: String,
    pub display: String,
}

/// The libraries NVML ships as on each operating system (named as
/// `std::env::consts::OS` names it).
pub open spec fn default_library_names_spec(os: Seq<char>) -> Seq<Seq<char>> {
    if os == "linux"@ {
        seq!["libnvidia-ml.so.1"@, "libnvidia-ml.so"@]
    } else if os == "windows"@ {
        seq!["nvml.dll"@]
    } else {
        seq![]
    }
}

pub fn default_library_names(os: &str) -> (r: Vec<&'static str>)
    ensures
        r@.len() == default_library_names_spec(os@).len(),
        forall|k: int| 0 <= k < r@.len() ==> (#[trigger] r@[k])@ == default_library_names_spec(os@)[k],
{
    let o = chars_of(os);
    let mut names: Vec<&'static str> = Vec::new();
    if crate::text::chars_eq(&o, &chars_of("linux")) {
        names.push("libnvidia-ml.so.1");
        names.push("libnvidia-ml.so");
    } else if crate::text::chars_eq(&o, &chars_of("windows")) {
        names.push("nvml.dll");
    }
    names
}

/// The libraries tried, in order: the configured paths, then the
/// platform's default names.
pub open spec fn candidate_names_spec(configured: Seq<Seq<char>>, os: Seq<char>) -> Seq<Seq<char>> {
    configured + default_library_names_spec(os)
}

pub fn library_candidates(configured_paths: &[String], os: &str) -> (r: Vec<LibraryCandidate>)
    ensures
        r@.len() == candidate_names_spec(configured_paths@.map_values(|s: String| s@), os@).len(),
        forall|k: int|
            0 <= k < r@.len() ==> (#[trigger] r@[k]).display@ == candidate_names_spec(
                configured_paths@.map_values(|s: String| s@),
                os@,
            )[k] && r@[k].path@ == r@[k].display@,
{
    let ghost views = configured_paths@.map_values(|s: String| s@);
    let ghost want = candidate_names_spec(views, os@);
    let mut out: Vec<LibraryCandidate> = Vec::new();
    let mut i: usize = 0;
    while i < configured_paths.len()
        invariant
            0 <= i <= configured_paths@.len(),
            views == configured_paths@.map_values(|s: String| s@),
            want == candidate_names_spec(views, os@),
            out@.len() == i,
            forall|k: int|
                0 <= k < i ==> (#[trigger] out@[k]).display@ == want[k] && out@[k].path@
                    == out@[k].display@,
        decreases configured_paths.len() - i,
    {
        let p = string_of(&chars_of(configured_paths[i].as_str()));
        let d = string_of(&chars_of(configured_paths[i].as_str()));
        out.push(LibraryCandidate { path: p, display: d });
        i += 1;
    }
    let names = default_library_names(os);
    let mut j: usize = 0;
    while j < names.len()
        invariant
            0 <= j <= names@.len(),
            names@.len() == default_library_names_spec(os@).len(),
            forall|k: int|
                0 <= k < names@.len() ==> (#[trigger] names@[k])@ == default_library_names_spec(
                    os@,
                )[k],
            want == candidate_names_spec(views, os@),
            views.len() == configured_paths@.len(),
            out@.len() == configured_paths@.len() + j,
            forall|k: int|
                0 <= k < out@.len() ==> (#[trigger] out@[k]).display@ == want[k] && out@[k].path@
                    == out@[k].display@,
        decreases names.len() - j,
    {
        let p = string_of(&chars_of(names[j]));
        let d = string_of(&chars_of(names[j]));
        out.push(LibraryCandidate { path: p, display: d });
        j += 1;
    }
    out
}

/// How the candidates are shown, in the order they are tried.
pub fn library_candidate_names(configured_paths: &[String], os: &str) -> (r: Vec<String>)
    ensures
        r@.len() == candidate_names_spec(configured_paths@.map_values(|s: String| s@), os@).len(),
        forall|k: int|
            0 <= k < r@.len() ==> (#[trigger] r@[k])@ == candidate_names_spec(
                configured_paths@.map_values(|s: String| s@),
                os@,
            )[k],
{
    let candidates = library_candidates(configured_paths, os);
    let mut out: Vec<String> = Vec::new();
    let mut i: usize = 0;
    while i < candidates.len()
        invariant
            0 <= i <= candidates@.len(),
            out@.len() == i,
            forall|k: int| 0 <= k < i ==> (#[trigger] out@[k])@ == candidates@[k].display@,
        decreases candidates.len() - i,
    {
        out.push(string_of(&chars_of(candidates[i].display.as_str())));
        i += 1;
    }
    out
}

/// The text of a NUL-terminated buffer NVML filled: the bytes before the
/// first NUL (all of them, without one), decoded with invalid UTF-8
/// replaced, and trimmed; `None` when nothing is left.
pub open spec fn c_string_spec(buffer: Seq<u8>) -> Option<Seq<char>> {
    let end = match crate::text::first_match(buffer.len() as int, |i: int| buffer[i] == 0) {
        Some(i) => i,
        None => buffer.len() as int,
    };
    let text = trim(utf8_lossy(buffer.take(end)));
    if text.len() == 0 {
        None
    } else {
        Some(text)
    }
}

pub fn c_string_from_buffer(buffer: &[u8]) -> (r: Option<String>)
    ensures
        match r {
            Some(s) => c_string_spec(buffer@) == Some(s@),
            None => c_string_spec(buffer@) is None,
        },
{
    let ghost p = |i: int| buffer@[i] == 0;
    let mut end: usize = 0;
    while end < buffer.len() && buffer[end] != 0
        invariant
            0 <= end <= buffer.len(),
            p == (|i: int| buffer@[i] == 0),
            forall|j: int| 0 <= j < end ==> !#[trigger] p(j),
        decreases buffer.len() - end,
    {
        end += 1;
    }
    proof {
        crate::text::lemma_first_match_from(0, buffer@.len() as int, p, end as int);
    }
    let prefix = crate::bytes::slice_bytes(buffer, 0, end);
    assert(prefix@ =~= buffer@.take(end as int));
    let text = string_from_utf8_lossy(prefix.as_slice());
    let trimmed = trim_chars(&chars_of(text.as_str()));
    if trimmed.len() == 0 {
        None
    } else {
        Some(string_of(&trimmed))
    }
}

// ---------------------------------------------------------------------------
// Return codes and errors
// ---------------------------------------------------------------------------

/// What an NVML return code means for a reading that a device may lack.
#[derive(Debug, Clone, Copy, PartialEq, Eq, Structural)]
pub enum NvmlReturnKind {
    /// The call succeeded.
    Success,
    /// The device does not support the reading, or has none: it is skipped.
    Unavailable,
    /// Any other code is an error.
    Failed,
}

pub fn classify_optional_return(code: u32) -> (r: NvmlReturnKind)
    ensures
        code == NVML_SUCCESS ==> r == NvmlReturnKind::Success,
        code == NVML_ERROR_NOT_SUPPORTED || code == NVML_ERROR_NOT_FOUND ==> r
            == NvmlReturnKind::Unavailable,
        code != NVML_SUCCESS && code != NVML_ERROR_NOT_SUPPORTED && code != NVML_ERROR_NOT_FOUND
            ==> r == NvmlReturnKind::Failed,
{
    if code == NVML_SUCCESS {
        NvmlReturnKind::Success
    } else if code == NVML_ERROR_NOT_SUPPORTED || code == NVML_ERROR_NOT_FOUND {
        NvmlReturnKind::Unavailable
    } else {
        NvmlReturnKind::Failed
    }
}

/// A failed NVML call: which, its code, and NVML's description of it.
#[derive(Debug, Clone, PartialEq, Eq)]
pub struct NvmlCallError {
    pub operation: &'static str,
    pub code: u32,
    pub message: String,
}

/// Why the NVML library could not be loaded.
#[derive(Debug, Clone, PartialEq, Eq)]
pub enum NvmlLoadError {
    LibraryNotFound { candidates: Vec<String>, errors: Vec<String> },
    SymbolNotFound { library: String, symbol: &'static str, message: String },
}

/// `{:?}` of a list of strings: each string quoted, apart by a comma and a
/// space, between brackets.
pub open spec fn debug_list(items: Seq<Seq<char>>) -> Seq<char> {
    "["@ + join(items.map_values(|item: Seq<char>| debug_quoted(item)), ", "@) + "]"@
}

fn debug_list_chars(items: &Vec<String>) -> (r: Vec<char>)
    ensures
        r@ == debug_list(items@.map_values(|item: String| item@)),
{
    let mut parts: Vec<Vec<char>> = Vec::new();
    for i in 0..items.len()
        invariant
            parts@.len() == i,
            forall|k: int| 0 <= k < i ==> (#[trigger] parts@[k])@ == debug_quoted(items@[k]@),
    {
        let quoted = debug_string(items[i].as_str());
        parts.push(chars_of(quoted.as_str()));
    }
    let inner = join_chars(&parts, &chars_of(", "));
    proof {
        assert(parts@.map_values(|p: Vec<char>| p@) =~= items@.map_values(|item: String| item@).map_values(
            |item: Seq<char>| debug_quoted(item),
        ));
    }
    concat(&concat(&chars_of("["), &inner), &chars_of("]"))
}

#[derive(Debug, Clone, PartialEq, Eq)]
pub enum NvidiaError {
    LibraryNotFound { candidates: Vec<String>, errors: Vec<String> },
    SymbolNotFound { library: String, symbol: &'static str, message: String },
    InitFailed { code: u32, message: String },
    NvmlCall { operation: &'static str, code: u32, message: String },
    DeviceIndexOutOfRange { index: u32 },
}

impl NvidiaError {
    /// The text of the error, as the collector reports it.
    pub open spec fn message_spec(&self) -> Seq<char> {
        match self {
            NvidiaError::LibraryNotFound { candidates, .. } => "NVML library not found; tried: "@
                + debug_list(candidates@.map_values(|c: String| c@)),
            NvidiaError::SymbolNotFound { library, symbol, message } => "required NVML symbol "@
                + symbol@ + " not found in "@ + library@ + ": "@ + message@,
            NvidiaError::InitFailed { code, message } => "NVML initialization failed with code "@
                + decimal(*code as nat) + ": "@ + message@,
            NvidiaError::NvmlCall { operation, code, message } => "NVML call "@ + operation@
                + " failed with code "@ + decimal(*code as nat) + ": "@ + message@,
            NvidiaError::DeviceIndexOutOfRange { index } => "NVIDIA device index "@ + decimal(
                *index as nat,
            ) + " is out of range"@,
        }
    }

    pub fn message(&self) -> (r: String)
        ensures
            r@ == self.message_spec(),
    {
        let chars = match self {
            NvidiaError::LibraryNotFound { candidates, .. } => {
                concat(&chars_of("NVML library not found; tried: "), &debug_list_chars(candidates))
            },
            NvidiaError::SymbolNotFound { library, symbol, message } => {
                let a = concat(&chars_of("required NVML symbol "), &chars_of(symbol));
                let b = concat(&concat(&a, &chars_of(" not found in ")), &chars_of(library.as_str()));
                concat(&concat(&b, &chars_of(": ")), &chars_of(message.as_str()))
            },
            NvidiaError::InitFailed { code, message } => {
                let a = concat(
                    &chars_of("NVML initialization failed with code "),
                    &decimal_chars(*code as u64),
                );
                concat(&concat(&a, &chars_of(": ")), &chars_of(message.as_str()))
            },
            NvidiaError::NvmlCall { operation, code, message } => {
                let a = concat(&chars_of("NVML call "), &chars_of(operation));
                let b = concat(&concat(&a, &chars_of(" failed with code ")), &decimal_chars(*code as u64));
                concat(&concat(&b, &chars_of(": ")), &chars_of(message.as_str()))
            },
            NvidiaError::DeviceIndexOutOfRange { index } => {
                let a = concat(&chars_of("NVIDIA device index "), &decimal_chars(*index as u64));
                concat(&a, &chars_of(" is out of range"))
            },
        };
        string_of(&chars)
    }

    /// The status reported for the collector: the library is missing, NVML
    /// is unusable (a symbol missing, or initialisation failed), or a call
    /// failed.
    pub open spec fn status_spec(&self) -> Seq<char> {
        match self {
            NvidiaError::LibraryNotFound { .. } => "library_missing"@,
            NvidiaError::SymbolNotFound { .. } => "unsupported"@,
            NvidiaError::InitFailed { .. } => "unsupported"@,
            NvidiaError::NvmlCall { .. } => "error"@,
            NvidiaError::DeviceIndexOutOfRange { .. } => "error"@,
        }
    }

    pub fn status(&self) -> (r: &'static str)
        ensures
            r@ == self.status_spec(),
    {
        match self {
            NvidiaError::LibraryNotFound { .. } => "library_missing",
            NvidiaError::SymbolNotFound { .. } => "unsupported",
            NvidiaError::InitFailed { .. } => "unsupported",
            NvidiaError::NvmlCall { .. } => "error",
            NvidiaError::DeviceIndexOutOfRange { .. } => "error",
        }
    }

    /// Whether a library was found at all.
    pub fn library_loaded(&self) -> (r: bool)
        ensures
            r == !(self is LibraryNotFound),
    {
        match self {
            NvidiaError::LibraryNotFound { .. } => false,
            _ => true,
        }
    }

    /// The error for a library that could not be loaded.
    pub fn from_load_error(error: NvmlLoadError) -> (r: NvidiaError)
        ensures
            match error {
                NvmlLoadError::LibraryNotFound { candidates, errors } => r
                    == (NvidiaError::LibraryNotFound { candidates, errors }),
                NvmlLoadError::SymbolNotFound { library, symbol, message } => r
                    == (NvidiaError::SymbolNotFound { library, symbol, message }),
            },
    {
        match error {
            NvmlLoadError::LibraryNotFound { candidates, errors } => NvidiaError::LibraryNotFound {
                candidates,
                errors,
            },
            NvmlLoadError::SymbolNotFound { library, symbol, message } => NvidiaError::SymbolNotFound {
                library,
                symbol,
                message,
            },
        }
    }

    /// The error for a failed call.
    pub fn from_call_error(error: NvmlCallError) -> (r: NvidiaError)
        ensures
            r == (NvidiaError::NvmlCall {
                operation: error.operation,
                code: error.code,
                message: error.message,
            }),
    {
        NvidiaError::NvmlCall { operation: error.operation, code: error.code, message: error.message }
    }

    /// The error for an initialisation that failed.
    pub fn init_failed(error: NvmlCallError) -> (r: NvidiaError)
        ensures
            r == (NvidiaError::InitFailed { code: error.code, message: error.message }),
    {
        NvidiaError::InitFailed { code: error.code, message: error.message }
    }
}

/// The error of a device handle that NVML returned null: a successful call
/// with nothing to use.
pub fn null_handle_error() -> (r: NvmlCallError)
    ensures
        r.operation@ == "nvmlDeviceGetHandleByIndex_v2"@,
        r.code == NVML_SUCCESS,
        r.message@ == "NVML returned a null device handle"@,
{
    NvmlCallError {
        operation: "nvmlDeviceGetHandleByIndex_v2",
        code: NVML_SUCCESS,
        message: string_of(&chars_of("NVML returned a null device handle")),
    }
}

/// Counts one reading of a GPU that failed while the others go on.
pub fn record_partial_error(partial_errors: &mut u64)
    requires
        *old(partial_errors) < u64::MAX,
    ensures
        *final(partial_errors) == *old(partial_errors) + 1,
{
    *partial_errors = *partial_errors + 1;
}

// ---------------------------------------------------------------------------
// Discovery
// ---------------------------------------------------------------------------

/// What was learned when NVML was probed.
#[derive(Debug, Clone, PartialEq, Eq)]
pub enum NvmlProbe {
    /// The collector is switched off; nothing was tried.
    Disabled,
    /// The library could not be loaded or initialised; with the error's text.
    LoadFailed(NvidiaError, String),
    /// NVML counted this many devices.
    Counted(u32),
    /// NVML loaded but could not count devices; with the error's text.
    CountFailed(NvidiaError, String),
}

#[derive(Debug, Clone, PartialEq, Eq)]
pub struct NvidiaNvmlDiscovery {
    pub enabled: bool,
    pub supported: bool,
    pub library_loaded: bool,
    pub device_count: u32,
    pub status: &'static str,
    pub message: Option<String>,
}

impl NvidiaNvmlDiscovery {
    /// The summary of a probe.
    pub fn from_probe(probe: NvmlProbe) -> (r: Self)
        ensures
            match probe {
                NvmlProbe::Disabled => !r.enabled && !r.supported && !r.library_loaded
                    && r.device_count == 0 && r.status@ == "disabled"@ && r.message is None,
                NvmlProbe::LoadFailed(error, text) => r.enabled && !r.supported
                    && r.library_loaded == !(error is LibraryNotFound) && r.device_count == 0
                    && r.status@ == error.status_spec() && r.message == Some(text),
                NvmlProbe::Counted(n) => r.enabled && r.supported && r.library_loaded
                    && r.device_count == n && r.status@ == (if n == 0 {
                    "no_devices"@
                } else {
                    "available"@
                }) && r.message is None,
                NvmlProbe::CountFailed(error, text) => r.enabled && r.supported
                    && r.library_loaded && r.device_count == 0 && r.status@
                    == error.status_spec() && r.message == Some(text),
            },
    {
        match probe {
            NvmlProbe::Disabled => NvidiaNvmlDiscovery {
                enabled: false,
                supported: false,
                library_loaded: false,
                device_count: 0,
                status: "disabled",
                message: None,
            },
            NvmlProbe::LoadFailed(error, text) => NvidiaNvmlDiscovery {
                enabled: true,
                supported: false,
                library_loaded: error.library_loaded(),
                device_count: 0,
                status: error.status(),
                message: Some(text),
            },
            NvmlProbe::Counted(n) => NvidiaNvmlDiscovery {
                enabled: true,
                supported: true,
                library_loaded: true,
                device_count: n,
                status: if n == 0 {
                    "no_devices"
                } else {
                    "available"
                },
                message: None,
            },
            NvmlProbe::CountFailed(error, text) => NvidiaNvmlDiscovery {
                enabled: true,
                supported: true,
                library_loaded: true,
                device_count: 0,
                status: error.status(),
                message: Some(text),
            },
        }
    }
}

} // verus!
