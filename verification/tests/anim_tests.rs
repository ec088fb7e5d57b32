use tokotchi::anim::{frame_at, frame_from_widths, load_sprite, make_frame, parse_clip, sprite, Clip, ClipKind, LoopMode, Sprite};

#[test]
fn parse_frames_and_options() {
    let c = parse_clip("# fps=4 loop=pingpong\nAB\nAB\n---\nCD\nCD");
    assert_eq!(c.frames.len(), 2);
    assert_eq!(c.fps, 4);
    assert_eq!(c.loop_mode, LoopMode::PingPong);
    assert_eq!(c.frames[0].w, 2);
    assert_eq!(c.frames[0].h, 2);
}

#[test]
fn frame_selection_modes() {
    let mk = |n: usize, lm: LoopMode| Clip {
        frames: (0..n).map(|_| make_frame(vec!["x".into()])).collect(),
        fps: 10,
        loop_mode: lm,
    };
    let loop3 = mk(3, LoopMode::Loop); // ticks_per_frame = 1
    assert!(std::ptr::eq(frame_at(&loop3, 0), &loop3.frames[0]));
    assert!(std::ptr::eq(frame_at(&loop3, 4), &loop3.frames[1])); // 4 % 3
    let once3 = mk(3, LoopMode::Once);
    assert!(std::ptr::eq(frame_at(&once3, 99), &once3.frames[2])); // clamps to last
}

#[test]
fn pingpong_runs_forward_then_back() {
    let clip = Clip {
        frames: (0..3).map(|_| make_frame(vec!["y".into()])).collect(),
        fps: 10,
        loop_mode: LoopMode::PingPong,
    };
    let order: Vec<usize> = (0..6u64)
        .map(|t| (0..3).position(|i| std::ptr::eq(frame_at(&clip, t), &clip.frames[i])).unwrap())
        .collect();
    assert_eq!(order, vec![0, 1, 2, 1, 0, 1]);
}

#[test]
fn slow_clips_hold_each_frame() {
    // fps 2 → 5 ticks per frame; fps 0 behaves like fps 1 → 10 ticks per frame
    let mk = |fps: u8| Clip { frames: (0..2).map(|_| make_frame(vec!["z".into()])).collect(), fps, loop_mode: LoopMode::Loop };
    let two = mk(2);
    assert!(std::ptr::eq(frame_at(&two, 4), &two.frames[0]));
    assert!(std::ptr::eq(frame_at(&two, 5), &two.frames[1]));
    let zero = mk(0);
    assert!(std::ptr::eq(frame_at(&zero, 9), &zero.frames[0]));
    assert!(std::ptr::eq(frame_at(&zero, 10), &zero.frames[1]));
    let fast = mk(200); // 10/200 = 0 → still one tick per frame
    assert!(std::ptr::eq(frame_at(&fast, 1), &fast.frames[1]));
}

#[test]
fn defaults_and_ignored_options() {
    let c = parse_clip("hello");
    assert_eq!(c.fps, 2);
    assert_eq!(c.loop_mode, LoopMode::Loop);
    assert_eq!(c.frames.len(), 1);
    assert_eq!(c.frames[0].lines, vec!["hello".to_string()]);
    assert_eq!(c.frames[0].w, 5);
    // fps=0 is raised to 1; unparsable fps is ignored; unknown loop → loop; unknown tokens ignored
    let c = parse_clip("# fps=0 loop=once\n# fps=300 colour=red\nA");
    assert_eq!(c.fps, 1);
    assert_eq!(c.loop_mode, LoopMode::Once);
    let c = parse_clip("#fps=+7 loop=bounce\nA");
    assert_eq!(c.fps, 7);
    assert_eq!(c.loop_mode, LoopMode::Loop);
}

#[test]
fn separators_blank_tails_and_crlf() {
    // a trailing separator closes the last frame; no extra empty frame follows
    let c = parse_clip("A\n---  \nB\n   \n\t\n---\n");
    assert_eq!(c.frames.len(), 2);
    assert_eq!(c.frames[1].lines, vec!["B".to_string()]); // blank tail dropped
    assert_eq!(c.frames[1].h, 1);
    // CRLF line endings lose their carriage return
    let c = parse_clip("ab\r\ncd\r\n---\r\nef");
    assert_eq!(c.frames[0].lines, vec!["ab".to_string(), "cd".to_string()]);
    assert_eq!(c.frames[1].lines, vec!["ef".to_string()]);
    // empty text still yields one (empty) frame
    let c = parse_clip("");
    assert_eq!(c.frames.len(), 1);
    assert_eq!(c.frames[0].h, 0);
    assert_eq!(c.frames[0].w, 0);
    // leading whitespace in art lines is significant
    let c = parse_clip("  /\\\n /  \\");
    assert_eq!(c.frames[0].lines[0], "  /\\");
    assert_eq!(c.frames[0].w, 5);
}

#[test]
fn wide_glyphs_measure_two_columns() {
    let c = parse_clip("🐱x");
    assert_eq!(c.frames[0].w, 3);
    let f = make_frame(vec!["ab".into(), "abcd".into(), "  ".into()]);
    assert_eq!((f.w, f.h), (4, 2));
}

fn texts(idle: Option<&str>, blink: Option<&str>) -> Vec<Option<String>> {
    vec![idle.map(String::from), blink.map(String::from), None, None, None]
}

#[test]
fn sprites_fall_back_to_idle() {
    assert!(load_sprite(&texts(None, Some("b"))).is_none());
    let sp = load_sprite(&texts(Some("idle art"), Some("blink\n---\nart"))).unwrap();
    assert!(sp.has(ClipKind::Idle));
    assert!(sp.has(ClipKind::Blink));
    assert!(!sp.has(ClipKind::Sad));
    assert_eq!(sp.clip(ClipKind::Blink).frames.len(), 2);
    assert_eq!(sp.clip(ClipKind::Sad).frames[0].lines, vec!["idle art".to_string()]);
    assert_eq!(ClipKind::Celebrate.file(), "celebrate");
    assert_eq!(ClipKind::from_index(ClipKind::Happy.index()), ClipKind::Happy);
}

#[test]
fn sprite_lookup_by_stage_dir() {
    let egg: Sprite = load_sprite(&texts(Some("egg"), None)).unwrap();
    let blob: Sprite = load_sprite(&texts(Some("blob"), None)).unwrap();
    let all = vec![("egg".to_string(), egg), ("blob".to_string(), blob)];
    let s = sprite(&all, "blob");
    assert_eq!(s.clip(ClipKind::Idle).frames[0].lines, vec!["blob".to_string()]);
}

#[test]
fn frames_take_their_width_from_the_measured_lines() {
    let f = frame_from_widths(
        vec!["ab".to_string(), "abcd".to_string(), "  ".to_string()],
        &vec![2, 7, 40],
    );
    assert_eq!(f.lines, vec!["ab".to_string(), "abcd".to_string()]);
    assert_eq!((f.w, f.h), (7, 2));
}

#[test]
fn every_clip_has_a_frame_and_a_positive_rate() {
    for text in ["", "# fps=0 loop=bogus\nX", "# fps=300\nX"] {
        let c = parse_clip(text);
        assert!(c.frames.len() >= 1 && c.fps >= 1);
    }
    assert_eq!(parse_clip("# fps=0 loop=bogus\nX").fps, 1);
    assert_eq!(parse_clip("# fps=0 loop=bogus\nX").loop_mode, LoopMode::Loop);
    assert_eq!(parse_clip("# fps=300\nX").fps, 2);
    let e = parse_clip("");
    assert_eq!((e.frames.len(), e.frames[0].w, e.frames[0].h), (1, 0, 0));
}
