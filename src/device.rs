//! The application context: all shared state of the token, driven by
//! encoder, switch and timer events. Each handler changes the state and
//! returns the display and timer work to do, in order.

use crate::mode::{bar_for, bar_level, digit_down, digit_up, index_down, index_up, pin_text};
use crate::mode::{AppParams, Mode, PIN_LEN};
use crate::secrets::{decrypt, decrypt_outcome, decrypted_as, within_limits};
use crate::secrets::{base32_decoded, DecryptError, SecretStore};
use crate::totp::{token, totp, Token, MAX_TIMESTAMP};
use vstd::prelude::*;

verus! {

/// Least time between two accepted switch presses, in microseconds.
pub const DEBOUNCE_US: u64 = 250_000;

/// Delay of the code refresh, in milliseconds.
pub const REFRESH_MS: u64 = 1000;

/// Delay of the clock refresh on the idle screen, in milliseconds.
pub const IDLE_REFRESH_MS: u64 = 500;

/// Delay of the first code refresh after decryption, in milliseconds.
pub const FIRST_REFRESH_MS: u64 = 1;

/// A step of the rotary encoder.
#[derive(Clone, Copy, Debug, PartialEq, Eq, Structural)]
pub enum Direction {
    Clockwise,
    Anticlockwise,
}

/// Work for the display and the timer.
#[derive(Clone, Copy, Debug, PartialEq, Eq)]
pub enum Effect {
    /// Show the PIN prompt, the digits and the cursor under `cursor`.
    RenderAuth { cursor: usize, digits: [u8; 6] },
    /// Stop listening to the switch.
    DisableSwitch,
    /// Show that decryption is under way.
    ShowDecrypting,
    /// Show why decryption failed.
    ShowDecryptError(DecryptError),
    /// Show that decryption is done.
    ShowDecryptDone,
    /// Hide the text cursor.
    HideCursor,
    /// Show the name of the secret at this index.
    ShowLabel(usize),
    /// Show a code.
    ShowCode(u32),
    /// Show the countdown bar at this level.
    ShowBar(u8),
    /// Show that the selected key is not well-formed base32.
    ShowKeyError,
    /// Show the date and time of the clock.
    ShowClock,
    /// Stop the timer, clear its interrupt and start it with this delay in milliseconds.
    ArmTimer(u64),
}

/// A press at `now` counts when there was none before, or when more than
/// the debounce time has passed since the last one that counted.
pub open spec fn press_accepted(last: Option<u64>, now: u64) -> bool {
    match last {
        None => true,
        Some(l) => now - l > DEBOUNCE_US,
    }
}

/// What the outcome of decryption shows.
pub open spec fn outcome_effect(outcome: Result<(), DecryptError>) -> Effect {
    match outcome {
        Ok(()) => Effect::ShowDecryptDone,
        Err(e) => Effect::ShowDecryptError(e),
    }
}

/// The selection after settling on `t` at `now`: the code is shown when it
/// is new, the bar when its level changed, then the timer is rearmed.
pub open spec fn show_token(p: AppParams, t: Token, now: u64, fresh: bool) -> (AppParams, Seq<Effect>) {
    let level = bar_for(t.valid_until - now);
    let label = if p.last_token is None {
        seq![Effect::ShowLabel(p.current)]
    } else {
        Seq::empty()
    };
    let code = if fresh {
        seq![Effect::ShowCode(t.code)]
    } else {
        Seq::empty()
    };
    let bar = if level != p.bar {
        seq![Effect::ShowBar(level)]
    } else {
        Seq::empty()
    };
    (
        (AppParams { last_token: Some(t), bar: level, ..p }),
        label + code + bar + seq![Effect::ArmTimer(REFRESH_MS)],
    )
}

/// A timer tick in code display, for the selected key text `key`: a token
/// still valid is kept, else a new one is made.
pub open spec fn refresh(p: AppParams, key: Seq<char>, now: u64) -> (AppParams, Seq<Effect>) {
    match p.last_token {
        Some(t) if now < t.valid_until => show_token(p, t, now, false),
        _ => match base32_decoded(key) {
            Some(k) => show_token(p, totp(k, now), now, true),
            None => (
                (AppParams { last_token: None, ..p }),
                (if p.last_token is None {
                    seq![Effect::ShowLabel(p.current)]
                } else {
                    Seq::empty()
                }) + seq![Effect::ShowKeyError, Effect::ArmTimer(REFRESH_MS)],
            ),
        },
    }
}

/// Whether a press at `now` counts after the last accepted one.
pub fn accepts_press(last: Option<u64>, now: u64) -> (r: bool)
    ensures
        r == press_accepted(last, now),
{
    match last {
        None => true,
        Some(l) => now >= l && now - l > DEBOUNCE_US,
    }
}

/// The bar level for a token valid until `valid_until`, at `now`.
pub fn level_at(valid_until: u64, now: u64) -> (r: u8)
    ensures
        r == bar_for(valid_until - now),
{
    if valid_until <= now {
        6
    } else if valid_until - now > 30 {
        6
    } else {
        bar_level((valid_until - now) as i64)
    }
}

/// All state that the event handlers share.
pub struct Device {
    pub mode: Mode,
    pub store: SecretStore,
    /// When the last accepted switch press came, in microseconds.
    pub last_press: Option<u64>,
    pub switch_enabled: bool,
    /// How the one decryption pass ended, once it ran. Code display is
    /// entered either way, on a possibly partly decrypted store.
    pub decrypt_status: Option<Result<(), DecryptError>>,
}

impl Device {
    /// Before decryption the store is within the codec's limits and the
    /// switch listens; after it, code display covers every secret.
    pub open spec fn wf(&self) -> bool {
        &&& self.mode.wf()
        &&& match self.mode {
            Mode::App(p) => {
                &&& p.token_len == self.store.tokens@.len()
                &&& !self.switch_enabled
                &&& self.decrypt_status is Some
                &&& forall|i: int|
                    0 <= i < self.store.tokens@.len() ==> (#[trigger] self.store.tokens@[i]).key@.len()
                        <= usize::MAX / 32
            },
            _ => within_limits(&self.store) && self.switch_enabled && self.decrypt_status is None,
        }
    }

    /// The state at boot: the idle screen, nothing pressed yet.
    pub fn new(store: SecretStore) -> (r: Device)
        requires
            within_limits(&store),
        ensures
            r.wf(),
            r.mode == Mode::Init,
            r.store == store,
            r.last_press is None,
            r.switch_enabled,
            r.decrypt_status is None,
    {
        Device {
            mode: Mode::Init,
            store,
            last_press: None,
            switch_enabled: true,
            decrypt_status: None,
        }
    }

    /// An encoder step. Clockwise turns the digit under the cursor down or
    /// selects the previous secret; anticlockwise the other way. A new
    /// selection drops the cached token and bar, so the next tick recomputes.
    pub fn on_rotation(&mut self, dir: Direction) -> (r: Vec<Effect>)
        requires
            old(self).wf(),
        ensures
            final(self).wf(),
            final(self).store == old(self).store,
            final(self).last_press == old(self).last_press,
            final(self).switch_enabled == old(self).switch_enabled,
            final(self).decrypt_status == old(self).decrypt_status,
            match old(self).mode {
                Mode::Init => final(self).mode == Mode::Init && r@ == Seq::<Effect>::empty(),
                Mode::Auth(p) => final(self).mode matches Mode::Auth(q) && q.current == p.current
                    && q.digits@ == p.digits@.update(
                    p.current as int,
                    if dir == Direction::Clockwise {
                        digit_down(p.digits@[p.current as int])
                    } else {
                        digit_up(p.digits@[p.current as int])
                    },
                ) && r@ == seq![Effect::RenderAuth { cursor: q.current, digits: q.digits }],
                Mode::App(p) => final(self).mode == Mode::App(
                    (AppParams {
                        current: if dir == Direction::Clockwise {
                            index_down(p.current, p.token_len)
                        } else {
                            index_up(p.current, p.token_len)
                        },
                        last_token: None,
                        bar: 0,
                        ..p
                    }),
                ) && r@ == Seq::<Effect>::empty(),
            },
    {
        let mut effects: Vec<Effect> = Vec::new();
        match dir {
            Direction::Clockwise => self.mode.dec(),
            Direction::Anticlockwise => self.mode.inc(),
        }
        match self.mode {
            Mode::Init => {},
            Mode::Auth(q) => {
                effects.push(Effect::RenderAuth { cursor: q.current, digits: q.digits });
            },
            Mode::App(q) => {
                self.mode = Mode::App(AppParams { last_token: None, bar: 0, ..q });
            },
        }
        effects
    }

    /// A switch press at `now` (microseconds of a monotonic clock). The first
    /// press leaves the idle screen for PIN entry. During PIN entry a press
    /// that passes the debounce moves the cursor on; on the last digit it
    /// stops the switch, decrypts the store with the PIN and enters code
    /// display whatever the outcome, with a refresh at once.
    pub fn on_switch(&mut self, now: u64) -> (r: Vec<Effect>)
        requires
            old(self).wf(),
        ensures
            final(self).wf(),
            match old(self).mode {
                Mode::Init => {
                    &&& final(self).mode matches Mode::Auth(q) && q.current == 0 && q.digits@
                        == seq![0u8; 6] && r@ == seq![
                        Effect::RenderAuth { cursor: 0, digits: q.digits },
                    ]
                    &&& final(self).last_press == Some(now)
                    &&& final(self).store == old(self).store
                    &&& final(self).switch_enabled
                    &&& final(self).decrypt_status is None
                },
                Mode::Auth(p) => if !press_accepted(old(self).last_press, now) {
                    *final(self) == *old(self) && r@ == Seq::<Effect>::empty()
                } else if p.current < PIN_LEN - 1 {
                    &&& final(self).mode matches Mode::Auth(q) && q.current == p.current + 1
                        && q.digits == p.digits && r@ == seq![
                        Effect::RenderAuth { cursor: q.current, digits: q.digits },
                    ]
                    &&& final(self).last_press == Some(now)
                    &&& final(self).store == old(self).store
                    &&& final(self).switch_enabled
                    &&& final(self).decrypt_status is None
                } else {
                    &&& final(self).mode == Mode::App(
                        (AppParams {
                            current: 0,
                            token_len: old(self).store.tokens@.len() as usize,
                            last_token: None,
                            bar: 0,
                        }),
                    )
                    &&& decrypted_as(old(self).store, final(self).store, pin_text(p.digits@))
                    &&& final(self).decrypt_status == Some(decrypt_outcome(old(self).store))
                    &&& final(self).last_press == Some(now)
                    &&& !final(self).switch_enabled
                    &&& r@ == seq![
                        Effect::DisableSwitch,
                        Effect::ShowDecrypting,
                        outcome_effect(decrypt_outcome(old(self).store)),
                        Effect::HideCursor,
                        Effect::ArmTimer(FIRST_REFRESH_MS),
                    ]
                },
                Mode::App(_) => *final(self) == *old(self) && r@ == Seq::<Effect>::empty(),
            },
    {
        let mut effects: Vec<Effect> = Vec::new();
        match self.mode {
            Mode::Init => {
                self.mode = Mode::new_auth();
                self.last_press = Some(now);
                if let Mode::Auth(q) = self.mode {
                    effects.push(Effect::RenderAuth { cursor: q.current, digits: q.digits });
                }
            },
            Mode::Auth(_) => {
                if !self.switch_enabled || !accepts_press(self.last_press, now) {
                    return effects;
                }
                self.last_press = Some(now);
                match self.mode.advance() {
                    None => {
                        if let Mode::Auth(q) = self.mode {
                            effects.push(
                                Effect::RenderAuth { cursor: q.current, digits: q.digits },
                            );
                        }
                    },
                    Some(pin) => {
                        self.switch_enabled = false;
                        effects.push(Effect::DisableSwitch);
                        effects.push(Effect::ShowDecrypting);
                        let outcome = decrypt(&mut self.store, pin.as_slice());
                        effects.push(
                            match outcome {
                                Ok(()) => Effect::ShowDecryptDone,
                                Err(e) => Effect::ShowDecryptError(e),
                            },
                        );
                        effects.push(Effect::HideCursor);
                        self.decrypt_status = Some(outcome);
                        self.mode = Mode::App(
                            AppParams {
                                current: 0,
                                token_len: self.store.tokens.len(),
                                last_token: None,
                                bar: 0,
                            },
                        );
                        effects.push(Effect::ArmTimer(FIRST_REFRESH_MS));
                    },
                }
            },
            Mode::App(_) => {},
        }
        effects
    }

    /// A timer tick at unix time `now`. The idle screen shows the clock and
    /// ticks again in half a second. Code display shows the selected secret's
    /// code, kept while it is valid and made anew when it expired, and the
    /// countdown bar when its level changed, then ticks again in a second.
    /// PIN entry ignores the timer.
    pub fn on_timer(&mut self, now: u64) -> (r: Vec<Effect>)
        requires
            old(self).wf(),
            now <= MAX_TIMESTAMP,
        ensures
            final(self).wf(),
            final(self).store == old(self).store,
            final(self).last_press == old(self).last_press,
            final(self).switch_enabled == old(self).switch_enabled,
            final(self).decrypt_status == old(self).decrypt_status,
            match old(self).mode {
                Mode::Init => final(self).mode == old(self).mode && r@ == seq![
                    Effect::ShowClock,
                    Effect::ArmTimer(IDLE_REFRESH_MS),
                ],
                Mode::Auth(_) => final(self).mode == old(self).mode && r@ == Seq::<Effect>::empty(),
                Mode::App(p) => if p.token_len == 0 {
                    final(self).mode == old(self).mode && r@ == seq![Effect::ArmTimer(REFRESH_MS)]
                } else {
                    let (q, effects) = refresh(p, old(self).store.tokens@[p.current as int].key@, now);
                    final(self).mode == Mode::App(q) && r@ == effects
                },
            },
    {
        let mut effects: Vec<Effect> = Vec::new();
        match self.mode {
            Mode::Init => {
                effects.push(Effect::ShowClock);
                effects.push(Effect::ArmTimer(IDLE_REFRESH_MS));
            },
            Mode::Auth(_) => {},
            Mode::App(p) => {
                if p.token_len == 0 {
                    effects.push(Effect::ArmTimer(REFRESH_MS));
                    return effects;
                }
                if p.last_token.is_none() {
                    effects.push(Effect::ShowLabel(p.current));
                }
                let cached = match p.last_token {
                    Some(t) => if now < t.valid_until {
                        Some(t)
                    } else {
                        None
                    },
                    None => None,
                };
                let (t, fresh) = match cached {
                    Some(t) => (t, false),
                    None => match self.store.tokens[p.current].key_as_bytes() {
                        Some(k) => (token(k.as_slice(), now), true),
                        None => {
                            self.mode = Mode::App(AppParams { last_token: None, ..p });
                            effects.push(Effect::ShowKeyError);
                            effects.push(Effect::ArmTimer(REFRESH_MS));
                            return effects;
                        },
                    },
                };
                if fresh {
                    effects.push(Effect::ShowCode(t.code));
                }
                let level = level_at(t.valid_until, now);
                if level != p.bar {
                    effects.push(Effect::ShowBar(level));
                }
                self.mode = Mode::App(AppParams { last_token: Some(t), bar: level, ..p });
                effects.push(Effect::ArmTimer(REFRESH_MS));
            },
        }
        effects
    }
}

} // verus!
