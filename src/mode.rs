//! The application mode: PIN entry and secret selection.

use crate::totp::Token;
use vstd::prelude::*;

verus! {

/// Number of digits in a PIN.
pub const PIN_LEN: usize = 6;

/// Number of marks in the countdown bar.
pub const BAR_MARKS: u8 = 6;

/// PIN entry: the digit under the cursor and the digits entered so far.
#[derive(Clone, Copy, Debug, PartialEq, Eq)]
pub struct AuthParams {
    pub current: usize,
    pub digits: [u8; 6],
}

/// Code display: the selected secret, how many there are, the last token
/// shown and the bar level on screen.
#[derive(Clone, Copy, Debug, PartialEq, Eq)]
pub struct AppParams {
    pub current: usize,
    pub token_len: usize,
    pub last_token: Option<Token>,
    pub bar: u8,
}

/// The whole state of the user interface.
#[derive(Clone, Copy, Debug, PartialEq, Eq)]
pub enum Mode {
    Init,
    Auth(AuthParams),
    App(AppParams),
}

/// The next digit up, 9 wrapping to 0.
pub open spec fn digit_up(d: u8) -> u8 {
    if d >= 9 {
        0
    } else {
        (d + 1) as u8
    }
}

/// The next digit down, 0 wrapping to 9.
pub open spec fn digit_down(d: u8) -> u8 {
    if d == 0 || d > 9 {
        9
    } else {
        (d - 1) as u8
    }
}

/// The next index up among `n`, the last wrapping to the first.
pub open spec fn index_up(i: usize, n: usize) -> usize {
    if i + 1 >= n {
        0
    } else {
        (i + 1) as usize
    }
}

/// The next index down among `n`, the first wrapping to the last.
pub open spec fn index_down(i: usize, n: usize) -> usize {
    if i == 0 || i >= n {
        if n == 0 {
            0
        } else {
            (n - 1) as usize
        }
    } else {
        (i - 1) as usize
    }
}

/// The PIN as ASCII digits.
pub open spec fn pin_text(digits: Seq<u8>) -> Seq<u8> {
    Seq::new(PIN_LEN as nat, |i: int| (digits[i] + 48) as u8)
}

/// A six-digit code as ASCII, zero-padded on the left.
pub open spec fn code_text(code: u32) -> Seq<u8> {
    seq![
        (48 + code / 100000 % 10) as u8,
        (48 + code / 10000 % 10) as u8,
        (48 + code / 1000 % 10) as u8,
        (48 + code / 100 % 10) as u8,
        (48 + code / 10 % 10) as u8,
        (48 + code % 10) as u8,
    ]
}

/// The countdown bar: `level` marks, then blanks.
pub open spec fn bar_text(level: u8) -> Seq<u8> {
    Seq::new(BAR_MARKS as nat, |i: int| if i < level { 42u8 } else { 32u8 })
}

/// The bar level for the seconds left of a code: one mark per five seconds
/// gone, six once five or fewer remain (or the count is out of range).
pub open spec fn bar_for(remaining: int) -> u8 {
    if 26 <= remaining <= 30 {
        1
    } else if 21 <= remaining <= 25 {
        2
    } else if 16 <= remaining <= 20 {
        3
    } else if 11 <= remaining <= 15 {
        4
    } else if 6 <= remaining <= 10 {
        5
    } else {
        6
    }
}

impl Mode {
    /// Digits stay in 0..=9 and the cursor on a digit; a selection stays
    /// among the secrets and the bar within its marks.
    pub open spec fn wf(self) -> bool {
        match self {
            Mode::Init => true,
            Mode::Auth(p) => p.current < PIN_LEN && forall|i: int|
                0 <= i < PIN_LEN ==> #[trigger] p.digits@[i] <= 9,
            Mode::App(p) => (if p.token_len == 0 {
                p.current == 0
            } else {
                p.current < p.token_len
            }) && p.bar <= BAR_MARKS,
        }
    }

    /// PIN entry with every digit at zero and the cursor on the first.
    pub fn new_auth() -> (r: Mode)
        ensures
            r matches Mode::Auth(p) && p.current == 0 && p.digits@ == seq![0u8; 6],
            r.wf(),
    {
        let r = Mode::Auth(AuthParams { current: 0, digits: [0u8; 6] });
        assert(r->Auth_0.digits@ =~= seq![0u8; 6]);
        r
    }

    /// Counter-clockwise step: the digit under the cursor goes up, or the
    /// next secret is selected.
    pub fn inc(&mut self)
        requires
            old(self).wf(),
        ensures
            final(self).wf(),
            match *old(self) {
                Mode::Init => *final(self) == Mode::Init,
                Mode::Auth(p) => *final(self) matches Mode::Auth(q) && q.current == p.current
                    && q.digits@ == p.digits@.update(
                    p.current as int,
                    digit_up(p.digits@[p.current as int]),
                ),
                Mode::App(p) => *final(self) == Mode::App(
                    (AppParams { current: index_up(p.current, p.token_len), ..p }),
                ),
            },
    {
        match self {
            Mode::Init => {},
            Mode::Auth(params) => {
                let c = params.current;
                let d = params.digits[c];
                params.digits[c] = if d >= 9 {
                    0
                } else {
                    d + 1
                };
            },
            Mode::App(params) => {
                params.current = if params.current + 1 >= params.token_len {
                    0
                } else {
                    params.current + 1
                };
            },
        }
    }

    /// Clockwise step: the digit under the cursor goes down, or the
    /// previous secret is selected.
    pub fn dec(&mut self)
        requires
            old(self).wf(),
        ensures
            final(self).wf(),
            match *old(self) {
                Mode::Init => *final(self) == Mode::Init,
                Mode::Auth(p) => *final(self) matches Mode::Auth(q) && q.current == p.current
                    && q.digits@ == p.digits@.update(
                    p.current as int,
                    digit_down(p.digits@[p.current as int]),
                ),
                Mode::App(p) => *final(self) == Mode::App(
                    (AppParams { current: index_down(p.current, p.token_len), ..p }),
                ),
            },
    {
        match self {
            Mode::Init => {},
            Mode::Auth(params) => {
                let c = params.current;
                let d = params.digits[c];
                params.digits[c] = if d == 0 || d > 9 {
                    9
                } else {
                    d - 1
                };
            },
            Mode::App(params) => {
                params.current = if params.current == 0 || params.current >= params.token_len {
                    if params.token_len == 0 {
                        0
                    } else {
                        params.token_len - 1
                    }
                } else {
                    params.current - 1
                };
            },
        }
    }

    /// Switch press during PIN entry: moves the cursor on, or, on the last
    /// digit, hands out the PIN as ASCII digits and leaves the mode as it is.
    pub fn advance(&mut self) -> (r: Option<Vec<u8>>)
        requires
            old(self).wf(),
        ensures
            final(self).wf(),
            match *old(self) {
                Mode::Auth(p) => if p.current == PIN_LEN - 1 {
                    *final(self) == *old(self) && (r matches Some(pin) && pin@ == pin_text(
                        p.digits@,
                    ))
                } else {
                    r is None && (*final(self) matches Mode::Auth(q) && q.current == p.current
                        + 1 && q.digits == p.digits)
                },
                _ => r is None && *final(self) == *old(self),
            },
    {
        match self {
            Mode::Auth(params) => {
                if params.current == PIN_LEN - 1 {
                    Some(pin_digits(&params.digits))
                } else {
                    params.current = params.current + 1;
                    None
                }
            },
            _ => None,
        }
    }
}

/// The PIN digits as ASCII text.
pub fn pin_digits(digits: &[u8; 6]) -> (r: Vec<u8>)
    requires
        forall|i: int| 0 <= i < PIN_LEN ==> #[trigger] digits@[i] <= 9,
    ensures
        r@ == pin_text(digits@),
{
    let mut r: Vec<u8> = Vec::new();
    let mut i: usize = 0;
    while i < PIN_LEN
        invariant
            i <= PIN_LEN,
            forall|j: int| 0 <= j < PIN_LEN ==> #[trigger] digits@[j] <= 9,
            r@ == pin_text(digits@).subrange(0, i as int),
        decreases PIN_LEN - i,
    {
        r.push(digits[i] + 48);
        i += 1;
        assert(r@ =~= pin_text(digits@).subrange(0, i as int));
    }
    assert(r@ =~= pin_text(digits@));
    r
}

/// A code as six ASCII digits, zero-padded on the left.
pub fn code_digits(code: u32) -> (r: [u8; 6])
    ensures
        r@ == code_text(code),
{
    let r = [
        (48 + code / 100000 % 10) as u8,
        (48 + code / 10000 % 10) as u8,
        (48 + code / 1000 % 10) as u8,
        (48 + code / 100 % 10) as u8,
        (48 + code / 10 % 10) as u8,
        (48 + code % 10) as u8,
    ];
    assert(r@ =~= code_text(code));
    r
}

/// The countdown bar as ASCII: `level` stars, then spaces.
pub fn bar_marks(level: u8) -> (r: [u8; 6])
    ensures
        r@ == bar_text(level),
{
    let mut r = [32u8; 6];
    let mut i: usize = 0;
    while i < 6
        invariant
            i <= 6,
            forall|j: int| 0 <= j < i ==> #[trigger] r@[j] == bar_text(level)[j],
            forall|j: int| i <= j < 6 ==> #[trigger] r@[j] == 32u8,
        decreases 6 - i,
    {
        if i < level as usize {
            r[i] = 42u8;
        }
        i += 1;
    }
    assert(r@ =~= bar_text(level));
    r
}

/// The bar level for the seconds left of a code.
pub fn bar_level(remaining: i64) -> (r: u8)
    ensures
        r == bar_for(remaining as int),
{
    if 26 <= remaining && remaining <= 30 {
        1
    } else if 21 <= remaining && remaining <= 25 {
        2
    } else if 16 <= remaining && remaining <= 20 {
        3
    } else if 11 <= remaining && remaining <= 15 {
        4
    } else if 6 <= remaining && remaining <= 10 {
        5
    } else {
        6
    }
}

/// Digits wrap exactly at 0 and 9, and a step up and a step down undo each other.
pub proof fn digit_wrap(d: u8)
    requires
        d <= 9,
    ensures
        digit_up(9) == 0,
        digit_down(0) == 9,
        digit_up(d) <= 9,
        digit_down(d) <= 9,
        digit_down(digit_up(d)) == d,
        digit_up(digit_down(d)) == d,
{
}

/// A selection wraps exactly between the first and the last of `n` secrets,
/// a step up and a step down undo each other, and with a single secret
/// neither moves it.
pub proof fn selection_wrap(i: usize, n: usize)
    requires
        i < n,
    ensures
        index_up((n - 1) as usize, n) == 0,
        index_down(0, n) == n - 1,
        index_up(i, n) < n,
        index_down(i, n) < n,
        index_down(index_up(i, n), n) == i,
        index_up(index_down(i, n), n) == i,
        n == 1 ==> index_up(i, n) == 0 && index_down(i, n) == 0,
{
}

/// The bar level is defined for every count of seconds, lies in 1..=6, and
/// between 1 and 30 seconds gains one mark per five seconds gone, with no gap
/// or overlap at 30, 25, 20, 15, 10, 5 and 0; outside that range it is full.
pub proof fn bar_levels(remaining: int)
    ensures
        1 <= bar_for(remaining) <= BAR_MARKS,
        0 < remaining <= 30 ==> bar_for(remaining) == 7 - (remaining + 4) / 5,
        remaining <= 0 || remaining > 30 ==> bar_for(remaining) == 6,
        0 < remaining < 30 ==> bar_for(remaining + 1) <= bar_for(remaining),
{
}

} // verus!
