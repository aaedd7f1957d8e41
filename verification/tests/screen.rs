use stt_linux::overlay::{fit_tail, Cmd, Frame, Phase, State, SurfaceChange, BARS};
use stt_linux::paint::{Canvas, Pixel, Rgba};

// ---------------------------------------------------------------- overlay state

#[test]
fn level_history_scrolls_oldest_out() {
    let mut state = State::new(true, 0);
    for i in 0..BARS {
        state.apply(Cmd::Level((i as f32).to_bits()), 0);
    }
    // After BARS pushes the newest value is last and the oldest is gone.
    assert_eq!(f32::from_bits(state.levels[BARS - 1]), (BARS - 1) as f32);
    assert_eq!(f32::from_bits(state.levels[0]), 0.0);
    state.apply(Cmd::Level(99f32.to_bits()), 0);
    assert_eq!(f32::from_bits(state.levels[0]), 1.0);
    assert_eq!(state.levels.len(), BARS);
}

#[test]
fn level_scaling_clamps_to_unit_range() {
    // A loud transient must not produce a bar taller than the widget.
    let scaled = |v: f32| (v * 6.0).clamp(0.0, 1.0);
    assert_eq!(scaled(0.0), 0.0);
    assert_eq!(scaled(1.0), 1.0);
    assert_eq!(scaled(-0.5), 0.0);
    assert!(scaled(0.1) > 0.5, "normal speech should register clearly");
}

#[test]
fn nothing_is_drawn_before_the_surface_is_configured() {
    let mut s = State::new(true, 0);
    assert_eq!(s.frame(), None);
    assert_eq!(s.poll_ms(), 40);
    assert_eq!(s.apply(Cmd::Show, 5), SurfaceChange::Create);
    assert_eq!(s.frame(), None);
    s.configure();
    assert_eq!(
        s.frame(),
        Some(Frame {
            phase: Phase::Recording,
            show_text: false,
            level: 0
        })
    );
    assert_eq!(s.poll_ms(), 8);
    assert_eq!(s.started_ms, 5);
}

#[test]
fn words_replace_the_meter_when_there_is_a_font() {
    for has_font in [true, false] {
        let mut s = State::new(has_font, 0);
        s.apply(Cmd::Show, 0);
        s.configure();
        s.apply(Cmd::Level(7), 0);
        s.apply(Cmd::Text("hello".into()), 0);
        s.apply(Cmd::Transcribing, 0);
        assert_eq!(
            s.frame(),
            Some(Frame {
                phase: Phase::Transcribing,
                show_text: has_font,
                level: 7
            })
        );
    }
}

#[test]
fn showing_again_starts_afresh_on_the_same_surface() {
    let mut s = State::new(true, 0);
    s.apply(Cmd::Show, 0);
    s.configure();
    s.apply(Cmd::Text("old".into()), 0);
    s.apply(Cmd::Level(3), 0);
    s.apply(Cmd::Transcribing, 0);
    assert_eq!(s.apply(Cmd::Show, 50), SurfaceChange::Keep);
    assert_eq!(s.transcript, "");
    assert!(s.levels.iter().all(|l| *l == 0));
    assert_eq!(s.phase, Phase::Recording);
    assert!(s.frame().is_some());
}

#[test]
fn hiding_and_quitting_destroy_the_surface() {
    let mut s = State::new(true, 0);
    s.apply(Cmd::Show, 0);
    s.configure();
    assert_eq!(s.apply(Cmd::Hide, 0), SurfaceChange::Destroy);
    assert!(!s.quit && s.frame().is_none());
    // An event for a surface that is gone changes nothing.
    s.configure();
    assert_eq!(s.apply(Cmd::Show, 0), SurfaceChange::Create);
    assert!(s.frame().is_none());
    s.closed();
    assert!(!s.visible);
    assert_eq!(s.apply(Cmd::Quit, 0), SurfaceChange::Destroy);
    assert!(s.quit);
    let mut t = State::new(false, 0);
    t.disconnected();
    assert!(t.quit);
}

// ---------------------------------------------------------------- text

const ADVANCE: f32 = 8.0;

fn measure(s: &str) -> f32 {
    s.chars().map(|_| ADVANCE).sum()
}

/// A renderer in which every glyph is equally wide.
fn fit(s: &str, max_width: f32) -> String {
    let budget = (max_width - measure("… ")).max(0.0);
    let chars: Vec<char> = s.chars().collect();
    let tail_fits: Vec<bool> = (0..chars.len())
        .map(|i| measure(&chars[i..].iter().collect::<String>()) <= budget)
        .collect();
    fit_tail(s, measure(s) <= max_width, &tail_fits, &tail_fits)
}

#[test]
fn short_text_is_returned_unchanged() {
    assert_eq!(fit("hello", 10_000.0), "hello");
}

#[test]
fn long_text_is_trimmed_from_the_left() {
    let s = "the quick brown fox jumps over the lazy dog";
    let fitted = fit(s, 120.0);
    assert!(fitted.starts_with('…'), "should mark the elision: {fitted:?}");
    // The tail is what survives, because that is the newest speech.
    assert!(s.ends_with(fitted.trim_start_matches(['…', ' '])), "{fitted:?}");
    assert!(measure(&fitted) <= 121.0, "still too wide: {fitted:?}");
    assert_eq!(fitted, "… the lazy dog");
}

#[test]
fn elision_cuts_at_a_word_boundary() {
    let s = "speech recognition on Linux should work offline";
    let ellipsis_w = measure("… ");
    let last_word_w = measure(s.rsplit(' ').next().unwrap());

    for budget in [90.0, 140.0, 200.0, 260.0, 320.0] {
        // The word-boundary guarantee only holds when at least the final
        // word fits; below that a character cut is the correct fallback,
        // covered by `a_single_oversized_word_still_shows_something`.
        assert!(
            budget - ellipsis_w >= last_word_w,
            "test budget {budget} is too small to exercise word cutting"
        );

        let fitted = fit(s, budget);
        let body = fitted.trim_start_matches(['…', ' ']);
        let offset = s.find(body).expect("the tail must come from the source");
        assert!(
            offset == 0 || s[..offset].ends_with(char::is_whitespace),
            "budget {budget}: {fitted:?} starts mid-word"
        );
        assert!(measure(&fitted) <= budget + 1.0, "{fitted:?} overflows");
    }
}

#[test]
fn a_single_oversized_word_still_shows_something() {
    // No word boundary can help here; a character cut is correct.
    let fitted = fit("Donaudampfschifffahrtsgesellschaft", 60.0);
    assert!(fitted.starts_with('…'));
    assert!(fitted.chars().count() > 2, "showed nothing at all: {fitted:?}");
    assert_eq!(fitted, "… chaft");
}

#[test]
fn fits_within_an_absurdly_small_budget_without_panicking() {
    let out = fit("some words here", 1.0);
    assert!(out.starts_with('…'));
    assert_eq!(out, "… ");
}

#[test]
fn trailing_whitespace_stays_with_the_tail() {
    assert_eq!(fit("aaaa bb  ", 56.0), "… bb  ");
    assert_eq!(fit("", 0.0), "");
    assert_eq!(fit("   ", 16.0), "… ");
}

// ---------------------------------------------------------------- canvas

fn canvas(w: i32, h: i32) -> Canvas {
    Canvas::new(vec![0u8; (w * h * 4) as usize], w, h)
}

const WHITE: Pixel = Pixel {
    b: 255,
    g: 255,
    r: 255,
    a: 255,
};

#[test]
fn writes_outside_the_canvas_are_dropped() {
    let mut c = canvas(2, 2);
    // Must not panic or corrupt neighbouring memory.
    c.put(-1, 0, WHITE);
    c.put(0, -1, WHITE);
    c.put(2, 0, WHITE);
    c.put(0, 2, WHITE);
    assert!(c.buf.iter().all(|&b| b == 0), "an out-of-bounds write landed");
    assert_eq!(c.pixel(2, 0), None);
    assert_eq!(c.pixel(0, -1), None);
}

#[test]
fn clear_resets_to_transparent() {
    let (w, h) = (4, 4);
    let mut c = canvas(w, h);
    for y in 0..h {
        for x in 0..w {
            c.put(x, y, Pixel { b: 3, g: 2, r: 1, a: 255 });
        }
    }
    assert!(c.buf.iter().all(|&b| b != 0));
    c.clear();
    assert!(c.buf.iter().all(|&b| b == 0));
}

#[test]
fn pixels_are_stored_little_endian_and_apart() {
    let mut c = canvas(3, 2);
    let p = Pixel { b: 50, g: 100, r: 200, a: 255 };
    c.put(1, 1, p);
    assert_eq!(c.buf[16..20], [50, 100, 200, 255]);
    assert_eq!(c.pixel(1, 1), Some(p));
    assert_eq!(c.buf.iter().filter(|b| **b != 0).count(), 4);
    assert_eq!(c.offset_of(2, 1), Some(20));
}

#[test]
fn colours_keep_their_channels() {
    let c = Rgba::new(1, 2, 3, 4);
    assert_eq!((c.r, c.g, c.b, c.a), (1, 2, 3, 4));
}
