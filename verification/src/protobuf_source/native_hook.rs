//! Which profiler envelopes carry Native Hook data, and the clock
//! agreement between Native Hook configs and their events.
use vstd::prelude::*;
use crate::text::{chars_of, eq_str, string_of};

verus! {

/// A Native Hook config clock, by the name that configs give it.
#[derive(Debug, Clone, Copy, PartialEq, Eq, Structural)]
pub enum NativeHookClock {
    Realtime,
    Mono,
    MonoRaw,
    Boot,
}

impl NativeHookClock {
    pub open spec fn spec_config_name(self) -> Seq<char> {
        match self {
            NativeHookClock::Realtime => "realtime"@,
            NativeHookClock::Mono => "mono"@,
            NativeHookClock::MonoRaw => "mono_raw"@,
            NativeHookClock::Boot => "boot"@,
        }
    }

    /// The profiler envelope clock id that events stamped by this clock
    /// carry: the Linux `clockid_t` of the clock.
    pub open spec fn spec_envelope_clock(self) -> i32 {
        match self {
            NativeHookClock::Realtime => 0,
            NativeHookClock::Mono => 1,
            NativeHookClock::MonoRaw => 4,
            NativeHookClock::Boot => 7,
        }
    }

    pub fn config_name(self) -> (r: &'static str)
        ensures
            r@ == self.spec_config_name(),
    {
        match self {
            NativeHookClock::Realtime => "realtime",
            NativeHookClock::Mono => "mono",
            NativeHookClock::MonoRaw => "mono_raw",
            NativeHookClock::Boot => "boot",
        }
    }

    pub fn envelope_clock(self) -> (r: i32)
        ensures
            r == self.spec_envelope_clock(),
    {
        match self {
            NativeHookClock::Realtime => 0,
            NativeHookClock::Mono => 1,
            NativeHookClock::MonoRaw => 4,
            NativeHookClock::Boot => 7,
        }
    }
}

/// The clock that a config names; an empty name means `realtime`.
pub open spec fn spec_parse_clock(value: Seq<char>) -> Option<NativeHookClock> {
    if value.len() == 0 || value == "realtime"@ {
        Some(NativeHookClock::Realtime)
    } else if value == "mono"@ {
        Some(NativeHookClock::Mono)
    } else if value == "mono_raw"@ {
        Some(NativeHookClock::MonoRaw)
    } else if value == "boot"@ {
        Some(NativeHookClock::Boot)
    } else {
        None
    }
}

pub fn parse_clock(value: &str) -> (r: Option<NativeHookClock>)
    ensures
        r == spec_parse_clock(value@),
{
    let v = chars_of(value);
    if v.len() == 0 || eq_str(v.as_slice(), "realtime") {
        Some(NativeHookClock::Realtime)
    } else if eq_str(v.as_slice(), "mono") {
        Some(NativeHookClock::Mono)
    } else if eq_str(v.as_slice(), "mono_raw") {
        Some(NativeHookClock::MonoRaw)
    } else if eq_str(v.as_slice(), "boot") {
        Some(NativeHookClock::Boot)
    } else {
        None
    }
}

/// Reading the name that a config gives a clock gives that clock back; an
/// empty name reads as `realtime`; and distinct clocks stamp events with
/// distinct envelope clock ids.
pub proof fn lemma_native_hook_clock_names(c: NativeHookClock, d: NativeHookClock)
    ensures
        spec_parse_clock(c.spec_config_name()) == Some(c),
        spec_parse_clock(Seq::empty()) == Some(NativeHookClock::Realtime),
        c.spec_envelope_clock() == d.spec_envelope_clock() ==> c == d,
        c.spec_config_name() == d.spec_config_name() ==> c == d,
{
    reveal_strlit("realtime");
    reveal_strlit("mono");
    reveal_strlit("mono_raw");
    reveal_strlit("boot");
    assert("realtime"@[0] == 'r' && "boot"@[0] == 'b' && "mono"@[0] == 'm' && "mono_raw"@[0] == 'm');
    assert("mono"@.len() == 4 && "mono_raw"@.len() == 8 && "realtime"@.len() > 0);
}

/// Whether an envelope holds profiler data or a plugin config.
#[derive(Debug, Clone, Copy, PartialEq, Eq, Structural)]
pub enum EnvelopeKind {
    Data,
    Config,
}

/// The Native Hook root that an envelope holds.
#[derive(Debug, Clone, Copy, PartialEq, Eq, Structural)]
pub enum NativeHookRoot {
    BatchData,
    Config,
}

pub open spec fn spec_native_hook_root(name: Seq<char>, kind: EnvelopeKind) -> Option<NativeHookRoot> {
    if (name == "nativehook"@ || name == "hookdaemon"@) && kind == EnvelopeKind::Data {
        Some(NativeHookRoot::BatchData)
    } else if (name == "nativehook_config"@ || name == "hookdaemon_config"@) && kind == EnvelopeKind::Config {
        Some(NativeHookRoot::Config)
    } else {
        None
    }
}

/// The Native Hook root of an envelope, by its name and kind; `None` for
/// envelopes of other plugins.
pub fn native_hook_root(name: &str, kind: EnvelopeKind) -> (r: Option<NativeHookRoot>)
    ensures
        r == spec_native_hook_root(name@, kind),
{
    let n = chars_of(name);
    if (eq_str(n.as_slice(), "nativehook") || eq_str(n.as_slice(), "hookdaemon")) && kind == EnvelopeKind::Data {
        Some(NativeHookRoot::BatchData)
    } else if (eq_str(n.as_slice(), "nativehook_config") || eq_str(n.as_slice(), "hookdaemon_config"))
        && kind == EnvelopeKind::Config {
        Some(NativeHookRoot::Config)
    } else {
        None
    }
}

/// The Native Hook plugins route their envelopes by name: the data
/// envelope of `nativehook` or `hookdaemon` holds a batch of data, and the
/// envelope named after a plugin with `_config` appended holds the config
/// exactly when the plugin's own data envelope holds data; a data envelope
/// never holds a config, nor a config envelope data.
pub proof fn lemma_native_hook_routes(plugin: Seq<char>, name: Seq<char>, kind: EnvelopeKind)
    ensures
        spec_native_hook_root("nativehook"@, EnvelopeKind::Data) == Some(NativeHookRoot::BatchData),
        spec_native_hook_root("hookdaemon"@, EnvelopeKind::Data) == Some(NativeHookRoot::BatchData),
        spec_native_hook_root(plugin + "_config"@, EnvelopeKind::Config) == Some(NativeHookRoot::Config)
            <==> spec_native_hook_root(plugin, EnvelopeKind::Data) == Some(NativeHookRoot::BatchData),
        spec_native_hook_root(name, kind) == Some(NativeHookRoot::BatchData) ==> kind == EnvelopeKind::Data,
        spec_native_hook_root(name, kind) == Some(NativeHookRoot::Config) ==> kind == EnvelopeKind::Config,
        spec_native_hook_root(name, EnvelopeKind::Data) is Some ==> name == "nativehook"@ || name == "hookdaemon"@,
        spec_native_hook_root(name, EnvelopeKind::Config) is Some ==> name == "nativehook_config"@ || name
            == "hookdaemon_config"@,
{
    reveal_strlit("nativehook");
    reveal_strlit("hookdaemon");
    reveal_strlit("nativehook_config");
    reveal_strlit("hookdaemon_config");
    reveal_strlit("_config");
    let full = plugin + "_config"@;
    assert("_config"@.len() == 7);
    assert("nativehook_config"@.len() == 17);
    assert("hookdaemon_config"@.len() == 17);
    assert(full.len() == plugin.len() + 7);
    if plugin == "nativehook"@ {
        assert(full =~= "nativehook_config"@);
    }
    if plugin == "hookdaemon"@ {
        assert(full =~= "hookdaemon_config"@);
    }
    if full == "nativehook_config"@ {
        assert(plugin.len() == 10);
        assert forall|i: int| 0 <= i < 10 implies plugin[i] == "nativehook"@[i] by {
            assert(full[i] == plugin[i]);
            assert(full[i] == "nativehook_config"@[i]);
        }
        assert(plugin =~= "nativehook"@);
    }
    if full == "hookdaemon_config"@ {
        assert(plugin.len() == 10);
        assert forall|i: int| 0 <= i < 10 implies plugin[i] == "hookdaemon"@[i] by {
            assert(full[i] == plugin[i]);
            assert(full[i] == "hookdaemon_config"@[i]);
        }
        assert(plugin =~= "hookdaemon"@);
    }
}

/// The first value observed and the first one after it that differs.
pub open spec fn remembered<T>(first: Option<T>, different: Option<T>, observed: T) -> (Option<T>, Option<T>) {
    match first {
        None => (Some(observed), different),
        Some(f) => if f != observed && different is None {
            (first, Some(observed))
        } else {
            (first, different)
        },
    }
}

/// Keeps the first observed envelope clock and the first one that differs
/// from it.
pub fn remember_first_difference(first: &mut Option<i32>, different: &mut Option<i32>, observed: i32)
    ensures
        (*final(first), *final(different)) == remembered(*old(first), *old(different), observed),
{
    match *first {
        None => {
            *first = Some(observed);
        },
        Some(f) => {
            if f != observed && different.is_none() {
                *different = Some(observed);
            }
        },
    }
}

/// Keeps the first observed config clock and the first one that differs
/// from it.
pub fn remember_first_clock_difference(
    first: &mut Option<NativeHookClock>,
    different: &mut Option<NativeHookClock>,
    observed: NativeHookClock,
)
    ensures
        (*final(first), *final(different)) == remembered(*old(first), *old(different), observed),
{
    match *first {
        None => {
            *first = Some(observed);
        },
        Some(f) => {
            if f != observed && different.is_none() {
                *different = Some(observed);
            }
        },
    }
}

/// What a run of observations leaves, from nothing.
pub open spec fn remember_all<T>(obs: Seq<T>) -> (Option<T>, Option<T>)
    decreases obs.len(),
{
    if obs.len() == 0 {
        (None, None)
    } else {
        let prev = remember_all(obs.drop_last());
        remembered(prev.0, prev.1, obs.last())
    }
}

/// The first element of `obs` that differs from `x`.
pub open spec fn first_different<T>(obs: Seq<T>, x: T) -> Option<T>
    decreases obs.len(),
{
    if obs.len() == 0 {
        None
    } else if obs[0] != x {
        Some(obs[0])
    } else {
        first_different(obs.drop_first(), x)
    }
}

proof fn lemma_first_different_push<T>(obs: Seq<T>, x: T, y: T)
    ensures
        first_different(obs.push(y), x) == (match first_different(obs, x) {
            Some(d) => Some(d),
            None => if y != x {
                Some(y)
            } else {
                None
            },
        }),
    decreases obs.len(),
{
    if obs.len() > 0 {
        assert(obs.push(y)[0] == obs[0]);
        assert(obs.push(y).drop_first() =~= obs.drop_first().push(y));
        lemma_first_different_push(obs.drop_first(), x, y);
    } else {
        assert(obs.push(y).drop_first() =~= Seq::<T>::empty());
        assert(obs.push(y)[0] == y);
        reveal_with_fuel(first_different, 2);
    }
}

/// However many values are observed, the first is kept, and the other is
/// the first observed value that differs from it.
pub proof fn lemma_remember_all<T>(obs: Seq<T>)
    ensures
        remember_all(obs) == (if obs.len() == 0 {
            (None::<T>, None::<T>)
        } else {
            (Some(obs[0]), first_different(obs, obs[0]))
        }),
    decreases obs.len(),
{
    if obs.len() > 0 {
        let p = obs.drop_last();
        lemma_remember_all(p);
        if p.len() > 0 {
            assert(p[0] == obs[0]);
            lemma_first_different_push(p, obs[0], obs.last());
            assert(p.push(obs.last()) =~= obs);
        } else {
            assert(obs =~= seq![obs[0]]);
            assert(obs.drop_first() =~= Seq::<T>::empty());
            reveal_with_fuel(first_different, 2);
        }
    }
}

/// Why Native Hook clocks disagree.
#[derive(Debug)]
pub enum ClockAdmissionError {
    /// A config names a clock that is not known.
    UnsupportedConfigClock { clock: String },
    /// Two configs name different clocks.
    ConflictingConfigClocks { first: NativeHookClock, second: NativeHookClock },
    /// There are events but no config names a clock.
    MissingConfigClock,
    /// Events carry another envelope clock than the config's clock.
    EnvelopeClockMismatch { config: NativeHookClock, observed: i32 },
}

/// What the configs and event batches seen so far say about clocks.
#[derive(Debug)]
pub struct NativeHookClockAdmission {
    pub requires_config: bool,
    pub config_clock: Option<NativeHookClock>,
    pub unsupported_config_clock: Option<String>,
    pub different_config_clock: Option<NativeHookClock>,
    pub first_event_envelope_clock: Option<i32>,
    pub different_event_envelope_clock: Option<i32>,
}

/// What validating the clock facts `a` may give: `r` is `Ok` exactly when
/// the facts are consistent, and each error names the first fact that
/// breaks them.
pub open spec fn admission_verdict(a: NativeHookClockAdmission, r: Result<(), ClockAdmissionError>) -> bool {
    &&& (!a.requires_config ==> r is Ok)
    &&& (a.requires_config ==> match r {
        Err(ClockAdmissionError::UnsupportedConfigClock { clock }) => a.unsupported_config_clock
            matches Some(u) && u@ == clock@,
        Err(ClockAdmissionError::ConflictingConfigClocks { first, second }) => {
            &&& a.unsupported_config_clock is None
            &&& a.config_clock == Some(first)
            &&& a.different_config_clock == Some(second)
        },
        Err(ClockAdmissionError::MissingConfigClock) => {
            &&& a.unsupported_config_clock is None
            &&& a.different_config_clock is None || a.config_clock is None
            &&& a.config_clock is None
        },
        Err(ClockAdmissionError::EnvelopeClockMismatch { config, observed }) => {
            &&& a.unsupported_config_clock is None
            &&& a.different_config_clock is None
            &&& a.config_clock == Some(config)
            &&& if (a.first_event_envelope_clock matches Some(f) && f != config.spec_envelope_clock()) {
                a.first_event_envelope_clock == Some(observed)
            } else {
                a.different_event_envelope_clock == Some(observed) && observed != config.spec_envelope_clock()
            }
        },
        Ok(()) => {
            &&& a.unsupported_config_clock is None
            &&& a.config_clock matches Some(c)
            &&& (a.different_config_clock is None)
            &&& (a.first_event_envelope_clock matches Some(f) ==> f == c.spec_envelope_clock())
            &&& (a.different_event_envelope_clock matches Some(d) ==> d == c.spec_envelope_clock())
        },
    })
}

impl NativeHookClockAdmission {
    pub fn new() -> (r: Self)
        ensures
            !r.requires_config,
            r.config_clock is None,
            r.unsupported_config_clock is None,
            r.different_config_clock is None,
            r.first_event_envelope_clock is None,
            r.different_event_envelope_clock is None,
    {
        NativeHookClockAdmission {
            requires_config: false,
            config_clock: None,
            unsupported_config_clock: None,
            different_config_clock: None,
            first_event_envelope_clock: None,
            different_event_envelope_clock: None,
        }
    }

    /// A batch of `event_count` events in an envelope stamped
    /// `envelope_clock`; an empty batch changes nothing.
    pub fn observe_batch(&mut self, event_count: usize, envelope_clock: i32)
        ensures
            event_count == 0 ==> *final(self) == *old(self),
            event_count > 0 ==> {
                &&& final(self).requires_config
                &&& (final(self).first_event_envelope_clock, final(self).different_event_envelope_clock)
                    == remembered(old(self).first_event_envelope_clock, old(self).different_event_envelope_clock, envelope_clock)
                &&& final(self).config_clock == old(self).config_clock
                &&& final(self).unsupported_config_clock == old(self).unsupported_config_clock
                &&& final(self).different_config_clock == old(self).different_config_clock
            },
    {
        if event_count == 0 {
            return;
        }
        self.requires_config = true;
        remember_first_difference(&mut self.first_event_envelope_clock, &mut self.different_event_envelope_clock, envelope_clock);
    }

    /// A config naming `clock`; the first unknown name is kept.
    pub fn observe_config(&mut self, clock: &str)
        ensures
            final(self).requires_config == old(self).requires_config,
            final(self).first_event_envelope_clock == old(self).first_event_envelope_clock,
            final(self).different_event_envelope_clock == old(self).different_event_envelope_clock,
            match spec_parse_clock(clock@) {
                Some(c) => (final(self).config_clock, final(self).different_config_clock) == remembered(
                    old(self).config_clock,
                    old(self).different_config_clock,
                    c,
                ) && final(self).unsupported_config_clock == old(self).unsupported_config_clock,
                None => final(self).config_clock == old(self).config_clock
                    && final(self).different_config_clock == old(self).different_config_clock
                    && match old(self).unsupported_config_clock {
                    Some(u) => final(self).unsupported_config_clock == Some(u),
                    None => final(self).unsupported_config_clock matches Some(u) && u@ == clock@,
                },
            },
    {
        match parse_clock(clock) {
            Some(c) => remember_first_clock_difference(&mut self.config_clock, &mut self.different_config_clock, c),
            None => {
                if self.unsupported_config_clock.is_none() {
                    self.unsupported_config_clock = Some(string_of(chars_of(clock).as_slice()));
                }
            },
        }
    }

    /// Without events nothing is required; with events, the configs must
    /// name one known clock, and every event envelope must carry that
    /// clock's id: the first observed envelope clock is checked, then the
    /// first that differs from it.
    pub fn validate(&self) -> (r: Result<(), ClockAdmissionError>)
        ensures
            admission_verdict(*self, r),
    {
        if !self.requires_config {
            return Ok(());
        }
        match &self.unsupported_config_clock {
            Some(clock) => return Err(ClockAdmissionError::UnsupportedConfigClock { clock: clock.clone() }),
            None => {},
        }
        match (self.config_clock, self.different_config_clock) {
            (Some(first), Some(second)) => return Err(ClockAdmissionError::ConflictingConfigClocks { first, second }),
            _ => {},
        }
        let config = match self.config_clock {
            Some(c) => c,
            None => return Err(ClockAdmissionError::MissingConfigClock),
        };
        let expected = config.envelope_clock();
        match self.first_event_envelope_clock {
            Some(f) => if f != expected {
                return Err(ClockAdmissionError::EnvelopeClockMismatch { config, observed: f });
            },
            None => {},
        }
        match self.different_event_envelope_clock {
            Some(d) => if d != expected {
                return Err(ClockAdmissionError::EnvelopeClockMismatch { config, observed: d });
            },
            None => {},
        }
        Ok(())
    }
}

} // verus!
