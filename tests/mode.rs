use totp_token::mode::{bar_level, bar_marks, code_digits, pin_digits, AppParams, AuthParams, Mode};

fn auth(current: usize, digits: [u8; 6]) -> Mode {
    Mode::Auth(AuthParams { current, digits })
}

fn app(current: usize, token_len: usize) -> Mode {
    Mode::App(AppParams { current, token_len, last_token: None, bar: 0 })
}

#[test]
fn digit_wraps_up_from_nine() {
    let mut m = auth(2, [0, 0, 9, 0, 0, 0]);
    m.inc();
    assert_eq!(m, auth(2, [0, 0, 0, 0, 0, 0]));
    m.inc();
    assert_eq!(m, auth(2, [0, 0, 1, 0, 0, 0]));
}

#[test]
fn digit_wraps_down_from_zero() {
    let mut m = auth(0, [0, 5, 0, 0, 0, 0]);
    m.dec();
    assert_eq!(m, auth(0, [9, 5, 0, 0, 0, 0]));
    m.dec();
    assert_eq!(m, auth(0, [8, 5, 0, 0, 0, 0]));
}

#[test]
fn selection_wraps_both_ways() {
    let mut m = app(2, 3);
    m.inc();
    assert_eq!(m, app(0, 3));
    m.dec();
    assert_eq!(m, app(2, 3));
    m.dec();
    assert_eq!(m, app(1, 3));
}

#[test]
fn single_secret_selection_stays() {
    let mut m = app(0, 1);
    m.inc();
    assert_eq!(m, app(0, 1));
    m.dec();
    assert_eq!(m, app(0, 1));
}

#[test]
fn init_ignores_steps() {
    let mut m = Mode::Init;
    m.inc();
    m.dec();
    assert_eq!(m, Mode::Init);
    assert_eq!(m.advance(), None);
}

#[test]
fn advance_moves_cursor_then_hands_out_pin() {
    let mut m = auth(4, [1, 2, 3, 4, 5, 6]);
    assert_eq!(m.advance(), None);
    assert_eq!(m, auth(5, [1, 2, 3, 4, 5, 6]));
    assert_eq!(m.advance(), Some(b"123456".to_vec()));
    assert_eq!(m, auth(5, [1, 2, 3, 4, 5, 6]));
}

#[test]
fn new_auth_starts_at_zero() {
    assert_eq!(Mode::new_auth(), auth(0, [0; 6]));
}

#[test]
fn pin_text_is_ascii() {
    assert_eq!(pin_digits(&[0, 9, 0, 9, 1, 2]), b"090912".to_vec());
}

#[test]
fn code_is_zero_padded() {
    assert_eq!(&code_digits(287082), b"287082");
    assert_eq!(&code_digits(81804), b"081804");
    assert_eq!(&code_digits(0), b"000000");
    assert_eq!(&code_digits(999999), b"999999");
}

#[test]
fn bar_glyphs() {
    assert_eq!(&bar_marks(0), b"      ");
    assert_eq!(&bar_marks(2), b"**    ");
    assert_eq!(&bar_marks(6), b"******");
}

#[test]
fn bar_levels_at_boundaries() {
    let expected: [(i64, u8); 16] = [
        (31, 6),
        (30, 1),
        (26, 1),
        (25, 2),
        (21, 2),
        (20, 3),
        (16, 3),
        (15, 4),
        (11, 4),
        (10, 5),
        (6, 5),
        (5, 6),
        (1, 6),
        (0, 6),
        (-1, 6),
        (i64::MIN, 6),
    ];
    for (remaining, level) in expected {
        assert_eq!(bar_level(remaining), level, "remaining {}", remaining);
    }
    assert_eq!(bar_level(i64::MAX), 6);
}
