//! Animation clips: creature art is a clip of one or more frames separated by `---`
//! lines. Nothing here does terminal I/O; it parses art and resolves which frame to draw.
//!
//! Clip format:
//!   # fps=3 loop=pingpong     (optional; defaults fps=2 loop=loop)
//!   <frame 1 lines>
//!   ---
//!   <frame 2 lines>

use vstd::prelude::*;

use crate::text::{
    all_ws, chars_of, has_prefix, lemma_trim_empty, line_body, line_end, lines_of, parse_u8,
    parse_u8_spec, skip_non_ws, skip_ws_backward, skip_ws_forward, slice_eq, starts_with,
    string_of_range, tokens_of, trim, trim_end,
};

verus! {

/// The display width of a string in terminal columns, as `unicode-width` measures it.
pub uninterp spec fn unicode_str_width(s: Seq<char>) -> usize;

/// Display width of `s` in columns.
///
/// Trusted: calls `unicode_width::UnicodeWidthStr::width`, a function of the string's
/// characters alone.
#[verifier::external_body]
fn str_width(s: &str) -> (w: usize)
    ensures
        w == unicode_str_width(s@),
{
    unicode_width::UnicodeWidthStr::width(s)
}

/// One frame of art. `w`/`h` are its display size; lines keep their significant leading
/// whitespace (trailing whitespace renders as blank cells).
pub struct Frame {
    pub lines: Vec<String>,
    pub w: u16,
    pub h: u16,
}

/// A frame as text: its lines and its display size.
pub struct FrameView {
    pub lines: Seq<Seq<char>>,
    pub w: u16,
    pub h: u16,
}

impl View for Frame {
    type V = FrameView;

    open spec fn view(&self) -> FrameView {
        FrameView { lines: self.lines@.map_values(|l: String| l@), w: self.w, h: self.h }
    }
}

#[derive(Clone, Copy, PartialEq, Eq, Debug, Structural)]
pub enum LoopMode {
    Loop,
    Once,
    PingPong,
}

pub struct Clip {
    pub frames: Vec<Frame>,
    pub fps: u8,
    pub loop_mode: LoopMode,
}

/// A clip as text: its frames, frame rate and loop mode.
pub struct ClipView {
    pub frames: Seq<FrameView>,
    pub fps: u8,
    pub loop_mode: LoopMode,
}

impl View for Clip {
    type V = ClipView;

    open spec fn view(&self) -> ClipView {
        ClipView {
            frames: self.frames@.map_values(|f: Frame| f@),
            fps: self.fps,
            loop_mode: self.loop_mode,
        }
    }
}

/// `lines` without its trailing blank (all-whitespace) lines.
pub open spec fn drop_blank_tail(lines: Seq<Seq<char>>) -> Seq<Seq<char>>
    decreases lines.len(),
{
    if lines.len() > 0 && all_ws(lines.last()) {
        drop_blank_tail(lines.drop_last())
    } else {
        lines
    }
}

/// The widest display width among `lines` (0 for none).
pub open spec fn max_width(lines: Seq<Seq<char>>) -> usize
    decreases lines.len(),
{
    if lines.len() == 0 {
        0
    } else {
        let rest = max_width(lines.drop_last());
        let last = unicode_str_width(lines.last());
        if rest >= last {
            rest
        } else {
            last
        }
    }
}

/// A frame made of `lines`: trailing blank lines dropped, width the widest line's display
/// width and height the line count (both cut to 16 bits).
pub open spec fn make_frame_spec(lines: Seq<Seq<char>>) -> FrameView {
    let kept = drop_blank_tail(lines);
    FrameView { lines: kept, w: max_width(kept) as u16, h: kept.len() as u16 }
}

/// Whether `s` is all whitespace.
fn is_blank(s: &String) -> (r: bool)
    ensures
        r == all_ws(s@),
{
    let v = chars_of(s.as_str());
    let start = skip_ws_forward(&v, 0, v.len());
    let end = skip_ws_backward(&v, start, v.len());
    proof {
        assert(v@.subrange(0, v@.len() as int) =~= v@);
        lemma_trim_empty(s@);
    }
    start == end
}

/// The largest of `ws` (0 for none).
pub open spec fn max_of(ws: Seq<usize>) -> usize
    decreases ws.len(),
{
    if ws.len() == 0 {
        0
    } else {
        let rest = max_of(ws.drop_last());
        if rest >= ws.last() {
            rest
        } else {
            ws.last()
        }
    }
}

/// A frame made of `lines` whose display widths are `widths`: trailing blank lines dropped,
/// width the widest kept line's, height the kept line count (both cut to 16 bits).
pub open spec fn frame_from_widths_spec(lines: Seq<Seq<char>>, widths: Seq<usize>) -> FrameView {
    let kept = drop_blank_tail(lines);
    FrameView { lines: kept, w: max_of(widths.take(kept.len() as int)) as u16, h: kept.len() as u16 }
}

proof fn lemma_drop_blank_tail_prefix(lines: Seq<Seq<char>>)
    ensures
        drop_blank_tail(lines).len() <= lines.len(),
        drop_blank_tail(lines) == lines.take(drop_blank_tail(lines).len() as int),
    decreases lines.len(),
{
    if lines.len() > 0 && all_ws(lines.last()) {
        lemma_drop_blank_tail_prefix(lines.drop_last());
        let k = drop_blank_tail(lines).len() as int;
        assert(lines.drop_last().take(k) =~= lines.take(k));
    } else {
        assert(lines.take(lines.len() as int) =~= lines);
    }
}

proof fn lemma_max_of_widths(ws: Seq<usize>, ls: Seq<Seq<char>>)
    requires
        ws.len() == ls.len(),
        forall|i: int| 0 <= i < ws.len() ==> ws[i] == unicode_str_width(#[trigger] ls[i]),
    ensures
        max_of(ws) == max_width(ls),
    decreases ws.len(),
{
    if ws.len() > 0 {
        lemma_max_of_widths(ws.drop_last(), ls.drop_last());
    }
}

/// Build a frame from its lines and their measured display widths (`widths[i]` is line
/// `i`'s): trailing blank lines are dropped and the widest kept line gives the width.
pub fn frame_from_widths(lines: Vec<String>, widths: &Vec<usize>) -> (f: Frame)
    requires
        widths@.len() == lines@.len(),
    ensures
        f@ == frame_from_widths_spec(lines@.map_values(|l: String| l@), widths@),
{
    let ghost all = lines@.map_values(|l: String| l@);
    proof {
        lemma_drop_blank_tail_prefix(all);
    }
    let mut lines = lines;
    while lines.len() > 0 && is_blank(&lines[lines.len() - 1])
        invariant
            drop_blank_tail(all) == drop_blank_tail(lines@.map_values(|l: String| l@)),
            lines@.len() <= widths@.len(),
        decreases lines.len(),
    {
        let ghost before = lines@.map_values(|l: String| l@);
        lines.pop();
        assert(before.drop_last() =~= lines@.map_values(|l: String| l@));
    }
    let ghost kept = lines@.map_values(|l: String| l@);
    assert(drop_blank_tail(kept) == kept);
    let mut w: usize = 0;
    let mut i: usize = 0;
    while i < lines.len()
        invariant
            0 <= i <= lines@.len(),
            lines@.len() <= widths@.len(),
            kept == lines@.map_values(|l: String| l@),
            w == max_of(widths@.take(i as int)),
        decreases lines.len() - i,
    {
        let lw = widths[i];
        assert(widths@.take(i + 1).drop_last() =~= widths@.take(i as int));
        if lw > w {
            w = lw;
        }
        i = i + 1;
    }
    let h = lines.len() as u16;
    let frame = Frame { lines, w: w as u16, h };
    assert(frame@.lines =~= kept);
    frame
}

/// Build a frame from its lines: trailing blank lines are dropped and the display size
/// measured.
pub fn make_frame(lines: Vec<String>) -> (f: Frame)
    ensures
        f@ == make_frame_spec(lines@.map_values(|l: String| l@)),
{
    let ghost all = lines@.map_values(|l: String| l@);
    let mut widths: Vec<usize> = Vec::new();
    let mut i: usize = 0;
    while i < lines.len()
        invariant
            0 <= i <= lines@.len(),
            all == lines@.map_values(|l: String| l@),
            widths@.len() == i,
            forall|k: int| 0 <= k < i ==> widths@[k] == unicode_str_width(#[trigger] all[k]),
        decreases lines.len() - i,
    {
        widths.push(str_width(lines[i].as_str()));
        i = i + 1;
    }
    let f = frame_from_widths(lines, &widths);
    proof {
        lemma_drop_blank_tail_prefix(all);
        let kept = drop_blank_tail(all);
        let k = kept.len() as int;
        lemma_max_of_widths(widths@.take(k), all.take(k));
        assert(f@ == make_frame_spec(all));
    }
    f
}

/// Parser state while reading a clip line by line.
pub struct ClipParse {
    pub fps: u8,
    pub loop_mode: LoopMode,
    pub frames: Seq<FrameView>,
    pub cur: Seq<Seq<char>>,
}

/// The loop mode a `loop=` option names; anything unknown means `Loop`.
pub open spec fn loop_mode_word(v: Seq<char>) -> LoopMode {
    if v == "once"@ {
        LoopMode::Once
    } else if v == "pingpong"@ {
        LoopMode::PingPong
    } else {
        LoopMode::Loop
    }
}

/// One option token of a `#` line: `fps=<u8>` sets the frame rate (at least 1; an
/// unparsable value is ignored), `loop=<mode>` the loop mode; other tokens are ignored.
pub open spec fn apply_option(st: ClipParse, tok: Seq<char>) -> ClipParse {
    if starts_with(tok, "fps="@) {
        match parse_u8_spec(tok.skip(4)) {
            Some(n) => ClipParse { fps: if n < 1 { 1 } else { n }, ..st },
            None => st,
        }
    } else if starts_with(tok, "loop="@) {
        ClipParse { loop_mode: loop_mode_word(tok.skip(5)), ..st }
    } else {
        st
    }
}

/// The option tokens applied in order.
pub open spec fn apply_options(st: ClipParse, toks: Seq<Seq<char>>) -> ClipParse
    decreases toks.len(),
{
    if toks.len() == 0 {
        st
    } else {
        apply_options(apply_option(st, toks[0]), toks.drop_first())
    }
}

/// One line of a clip: a `#` line carries options; a line that reads `---` (trailing
/// whitespace ignored) closes the current frame; any other line belongs to the current frame.
pub open spec fn parse_line(st: ClipParse, line: Seq<char>) -> ClipParse {
    if line.len() > 0 && line[0] == '#' {
        apply_options(st, tokens_of(line.drop_first()))
    } else if trim_end(line) == "---"@ {
        ClipParse { frames: st.frames.push(make_frame_spec(st.cur)), cur: Seq::empty(), ..st }
    } else {
        ClipParse { cur: st.cur.push(line), ..st }
    }
}

/// The lines of a clip read in order.
pub open spec fn parse_lines(st: ClipParse, lines: Seq<Seq<char>>) -> ClipParse
    decreases lines.len(),
{
    if lines.len() == 0 {
        st
    } else {
        parse_lines(parse_line(st, lines[0]), lines.drop_first())
    }
}

/// The clip a text describes: its lines read from fps 2, `Loop`, no frames; then a last
/// frame is closed when lines are pending or no frame was closed at all.
pub open spec fn parse_clip_spec(text: Seq<char>) -> ClipView {
    let init = ClipParse { fps: 2, loop_mode: LoopMode::Loop, frames: Seq::empty(), cur: Seq::empty() };
    let st = parse_lines(init, lines_of(text));
    ClipView {
        frames: if st.cur.len() > 0 || st.frames.len() == 0 {
            st.frames.push(make_frame_spec(st.cur))
        } else {
            st.frames
        },
        fps: st.fps,
        loop_mode: st.loop_mode,
    }
}

proof fn lemma_options_keep_fps(st: ClipParse, toks: Seq<Seq<char>>)
    requires
        st.fps >= 1,
    ensures
        apply_options(st, toks).fps >= 1,
    decreases toks.len(),
{
    if toks.len() > 0 {
        lemma_options_keep_fps(apply_option(st, toks[0]), toks.drop_first());
    }
}

proof fn lemma_lines_keep_fps(st: ClipParse, lines: Seq<Seq<char>>)
    requires
        st.fps >= 1,
    ensures
        parse_lines(st, lines).fps >= 1,
    decreases lines.len(),
{
    if lines.len() > 0 {
        let line = lines[0];
        if line.len() > 0 && line[0] == '#' {
            lemma_options_keep_fps(st, tokens_of(line.drop_first()));
        }
        lemma_lines_keep_fps(parse_line(st, line), lines.drop_first());
    }
}

/// Every clip plays: whatever the text, its clip has at least one frame and a frame rate of
/// at least 1 (`fps=0` reads as 1; an unparsable rate keeps the default 2).
pub proof fn lemma_clip_plays(text: Seq<char>)
    ensures
        parse_clip_spec(text).frames.len() >= 1,
        parse_clip_spec(text).fps >= 1,
{
    let init = ClipParse { fps: 2, loop_mode: LoopMode::Loop, frames: Seq::empty(), cur: Seq::empty() };
    lemma_lines_keep_fps(init, lines_of(text));
}

proof fn lemma_lines_step(v: Seq<char>, pos: int, j: int)
    requires
        0 <= pos < v.len(),
        pos <= j <= v.len(),
        j - pos == crate::text::newline_index(v.skip(pos)),
    ensures
        j < v.len() ==> lines_of(v.skip(pos)) == seq![line_body(v.subrange(pos, j), true)]
            + lines_of(v.skip(j + 1)),
        j == v.len() ==> lines_of(v.skip(pos)) == seq![v.subrange(pos, j)],
{
    let s = v.skip(pos);
    assert(s.take(j - pos) =~= v.subrange(pos, j));
    if j < v.len() {
        assert(s.skip(j - pos + 1) =~= v.skip(j + 1));
    } else {
        assert(s =~= v.subrange(pos, j));
    }
}

proof fn lemma_tokens_step(v: Seq<char>, i: int, t: int, k: int, e: int)
    requires
        0 <= i <= t <= k <= e <= v.len(),
        crate::text::trim_start(v.subrange(i, e)) == v.subrange(t, e),
        t < e,
        k - t == crate::text::ws_index(v.subrange(t, e)),
    ensures
        tokens_of(v.subrange(i, e)) == seq![v.subrange(t, k)] + tokens_of(v.subrange(k, e)),
        t < k,
{
    crate::text::lemma_trim_start_shape(v.subrange(i, e));
    assert(v.subrange(t, e)[0] == v[t]);
    let u = v.subrange(t, e);
    assert(!crate::text::is_ws(u[0]));
    crate::text::lemma_ws_index(u.drop_first());
    assert(crate::text::ws_index(u) == 1 + crate::text::ws_index(u.drop_first()));
    assert(u.take(k - t) =~= v.subrange(t, k));
    assert(u.skip(k - t) =~= v.subrange(k, e));
}

/// The abstract parser state that the executable state stands for.
spec fn state_of(fps: u8, loop_mode: LoopMode, frames: Seq<Frame>, cur: Seq<String>) -> ClipParse {
    ClipParse {
        fps,
        loop_mode,
        frames: frames.map_values(|f: Frame| f@),
        cur: cur.map_values(|l: String| l@),
    }
}

/// Apply the option tokens of `v[from..to]` to the frame rate and loop mode.
fn apply_options_exec(v: &Vec<char>, from: usize, to: usize, fps: &mut u8, loop_mode: &mut LoopMode)
    requires
        from <= to <= v@.len(),
    ensures
        ({
            let before = ClipParse {
                fps: *old(fps),
                loop_mode: *old(loop_mode),
                frames: Seq::empty(),
                cur: Seq::empty(),
            };
            let after = apply_options(before, tokens_of(v@.subrange(from as int, to as int)));
            &&& *final(fps) == after.fps
            &&& *final(loop_mode) == after.loop_mode
        }),
{
    let ghost before = ClipParse {
        fps: *fps,
        loop_mode: *loop_mode,
        frames: Seq::empty(),
        cur: Seq::empty(),
    };
    let ghost goal = apply_options(before, tokens_of(v@.subrange(from as int, to as int)));
    let mut i = from;
    loop
        invariant
            from <= i <= to <= v@.len(),
            before == (ClipParse {
                fps: *old(fps),
                loop_mode: *old(loop_mode),
                frames: Seq::empty(),
                cur: Seq::empty(),
            }),
            goal == apply_options(before, tokens_of(v@.subrange(from as int, to as int))),
            goal == apply_options(
                ClipParse { fps: *fps, loop_mode: *loop_mode, frames: Seq::empty(), cur: Seq::empty() },
                tokens_of(v@.subrange(i as int, to as int)),
            ),
        ensures
            *fps == goal.fps,
            *loop_mode == goal.loop_mode,
        decreases to - i,
    {
        let t = skip_ws_forward(v, i, to);
        if t == to {
            assert(tokens_of(v@.subrange(i as int, to as int)) =~= Seq::<Seq<char>>::empty()) by {
                assert(v@.subrange(t as int, to as int).len() == 0);
            }
            assert(goal == ClipParse { fps: *fps, loop_mode: *loop_mode, frames: Seq::empty(), cur: Seq::empty() });
            return;
        }
        let k = skip_non_ws(v, t, to);
        proof {
            lemma_tokens_step(v@, i as int, t as int, k as int, to as int);
        }
        let ghost tok = v@.subrange(t as int, k as int);
        let ghost st = ClipParse { fps: *fps, loop_mode: *loop_mode, frames: Seq::empty(), cur: Seq::empty() };
        let ghost toks = tokens_of(v@.subrange(i as int, to as int));
        assert(toks[0] == tok);
        assert(toks.drop_first() =~= tokens_of(v@.subrange(k as int, to as int)));
        proof {
            reveal_strlit("fps=");
            reveal_strlit("loop=");
        }
        if has_prefix(v, t, k, "fps=") {
            proof {
                assert(tok.skip(4) =~= v@.subrange(t + 4, k as int));
            }
            match parse_u8(v, t + 4, k) {
                Some(n) => {
                    *fps = if n < 1 {
                        1
                    } else {
                        n
                    };
                },
                None => {},
            }
        } else if has_prefix(v, t, k, "loop=") {
            proof {
                assert(tok.skip(5) =~= v@.subrange(t + 5, k as int));
            }
            *loop_mode = if slice_eq(v, t + 5, k, "once") {
                LoopMode::Once
            } else if slice_eq(v, t + 5, k, "pingpong") {
                LoopMode::PingPong
            } else {
                LoopMode::Loop
            };
        }
        assert(apply_option(st, tok) == ClipParse {
            fps: *fps,
            loop_mode: *loop_mode,
            frames: Seq::empty(),
            cur: Seq::empty(),
        });
        i = k;
    }
}

/// The options part of a parser state: its frames and pending lines emptied.
spec fn options_only(st: ClipParse) -> ClipParse {
    ClipParse { frames: Seq::empty(), cur: Seq::empty(), ..st }
}

/// Options touch only the frame rate and loop mode.
proof fn lemma_options_frame(st: ClipParse, toks: Seq<Seq<char>>)
    ensures
        apply_options(st, toks).frames == st.frames,
        apply_options(st, toks).cur == st.cur,
        apply_options(st, toks).fps == apply_options(options_only(st), toks).fps,
        apply_options(st, toks).loop_mode == apply_options(options_only(st), toks).loop_mode,
    decreases toks.len(),
{
    if toks.len() > 0 {
        let st1 = apply_option(st, toks[0]);
        lemma_options_frame(st1, toks.drop_first());
        lemma_options_frame(apply_option(options_only(st), toks[0]), toks.drop_first());
        assert(options_only(st1) == options_only(apply_option(options_only(st), toks[0])));
    }
}

/// Parse a clip file (see the module docs for the format).
pub fn parse_clip(text: &str) -> (c: Clip)
    ensures
        c@ == parse_clip_spec(text@),
        c.frames@.len() >= 1,
        c.fps >= 1,
{
    proof {
        lemma_clip_plays(text@);
    }
    let v = chars_of(text);
    let ghost init = ClipParse {
        fps: 2,
        loop_mode: LoopMode::Loop,
        frames: Seq::empty(),
        cur: Seq::empty(),
    };
    let ghost goal = parse_lines(init, lines_of(v@));
    let mut fps: u8 = 2;
    let mut loop_mode = LoopMode::Loop;
    let mut frames: Vec<Frame> = Vec::new();
    let mut cur: Vec<String> = Vec::new();
    let mut pos: usize = 0;
    assert(v@.skip(0) =~= v@);
    assert(state_of(fps, loop_mode, frames@, cur@) == init) by {
        assert(frames@.map_values(|f: Frame| f@) =~= Seq::<FrameView>::empty());
        assert(cur@.map_values(|l: String| l@) =~= Seq::<Seq<char>>::empty());
    }
    while pos < v.len()
        invariant
            0 <= pos <= v@.len(),
            goal == parse_lines(state_of(fps, loop_mode, frames@, cur@), lines_of(v@.skip(pos as int))),
        decreases v.len() - pos,
    {
        let j = line_end(&v, pos);
        proof {
            lemma_lines_step(v@, pos as int, j as int);
        }
        let le = if j < v.len() && j > pos && v[j - 1] == '\r' {
            j - 1
        } else {
            j
        };
        let ghost line = v@.subrange(pos as int, le as int);
        assert(line == line_body(v@.subrange(pos as int, j as int), j < v@.len())) by {
            if j < v@.len() && j > pos && v@[j - 1] == '\r' {
                assert(v@.subrange(pos as int, j as int).drop_last() =~= line);
            }
        }
        assert(line == lines_of(v@.skip(pos as int))[0]);
        let ghost st = state_of(fps, loop_mode, frames@, cur@);
        if pos < le && v[pos] == '#' {
            proof {
                assert(line.drop_first() =~= v@.subrange(pos + 1, le as int));
                lemma_options_frame(st, tokens_of(line.drop_first()));
            }
            apply_options_exec(&v, pos + 1, le, &mut fps, &mut loop_mode);
        } else {
            let e = skip_ws_backward(&v, pos, le);
            if slice_eq(&v, pos, e, "---") {
                let mut done: Vec<String> = Vec::new();
                std::mem::swap(&mut done, &mut cur);
                let f = make_frame(done);
                frames.push(f);
                proof {
                    assert(frames@.map_values(|f: Frame| f@) =~= st.frames.push(f@));
                    assert(cur@.map_values(|l: String| l@) =~= Seq::<Seq<char>>::empty());
                }
            } else {
                let s = string_of_range(&v, pos, le);
                cur.push(s);
                proof {
                    assert(cur@.map_values(|l: String| l@) =~= st.cur.push(line));
                }
            }
        }
        assert(parse_line(st, line) == state_of(fps, loop_mode, frames@, cur@));
        let ghost rest = lines_of(v@.skip(pos as int)).drop_first();
        proof {
            if j < v@.len() {
                assert(rest =~= lines_of(v@.skip(j + 1)));
            } else {
                assert(rest =~= Seq::<Seq<char>>::empty());
            }
        }
        pos = if j < v.len() {
            j + 1
        } else {
            j
        };
        proof {
            if j == v@.len() {
                assert(v@.skip(pos as int) =~= Seq::<char>::empty());
            }
            assert(lines_of(v@.skip(pos as int)) == rest);
        }
    }
    assert(v@.skip(pos as int) =~= Seq::<char>::empty());
    if cur.len() > 0 || frames.len() == 0 {
        let ghost st = state_of(fps, loop_mode, frames@, cur@);
        let f = make_frame(cur);
        frames.push(f);
        assert(frames@.map_values(|f: Frame| f@) =~= st.frames.push(f@));
    }
    let clip = Clip { frames, fps, loop_mode };
    assert(clip@.frames =~= parse_clip_spec(text@).frames);
    clip
}

/// The frame shown at animation tick `tick` (the UI's ~10 fps counter) of a clip with `n`
/// frames: each frame lasts `max(1, 10 / max(1, fps))` ticks; `Loop` wraps around, `Once`
/// stops at the last frame, `PingPong` runs forward then back.
pub open spec fn frame_index(n: int, fps: u8, mode: LoopMode, tick: u64) -> int {
    if n <= 1 {
        0
    } else {
        let f = if fps < 1 {
            1u8
        } else {
            fps
        };
        let q = 10u8 / f;
        let tpf = if q < 1 {
            1u8
        } else {
            q
        };
        let step = ((tick / (tpf as u64)) as usize) as int;
        match mode {
            LoopMode::Loop => step % n,
            LoopMode::Once => if step < n - 1 {
                step
            } else {
                n - 1
            },
            LoopMode::PingPong => {
                let period = 2 * (n - 1);
                let p = step % period;
                if p < n {
                    p
                } else {
                    period - p
                }
            },
        }
    }
}

/// The frame to draw for `clip` at animation tick `tick`.
pub fn frame_at(clip: &Clip, tick: u64) -> (f: &Frame)
    requires
        clip.frames@.len() >= 1,
    ensures
        0 <= frame_index(clip.frames@.len() as int, clip.fps, clip.loop_mode, tick)
            < clip.frames@.len(),
        *f == clip.frames@[frame_index(clip.frames@.len() as int, clip.fps, clip.loop_mode, tick)],
{
    let n = clip.frames.len();
    if n <= 1 {
        return &clip.frames[0];
    }
    let f: u8 = if clip.fps < 1 {
        1
    } else {
        clip.fps
    };
    let q: u8 = 10 / f;
    let tpf: u8 = if q < 1 {
        1
    } else {
        q
    };
    let step = (tick / (tpf as u64)) as usize;
    let idx = match clip.loop_mode {
        LoopMode::Loop => step % n,
        LoopMode::Once => if step < n - 1 {
            step
        } else {
            n - 1
        },
        LoopMode::PingPong => {
            // the period is computed in 128 bits, where twice any length fits
            let period: u128 = 2 * ((n - 1) as u128);
            let p: u128 = (step as u128) % period;
            if p < n as u128 {
                p as usize
            } else {
                (period - p) as usize
            }
        },
    };
    &clip.frames[idx]
}

/// Which animation to play. Every stage has `Idle`; the others fall back to it.
#[derive(Clone, Copy, PartialEq, Eq, Hash, Debug, Structural)]
pub enum ClipKind {
    Idle,
    Blink,
    Sad,
    Happy,
    Celebrate,
}

/// The slot of each clip kind (its position in the order idle, blink, sad, happy, celebrate).
pub open spec fn kind_index(kind: ClipKind) -> int {
    match kind {
        ClipKind::Idle => 0,
        ClipKind::Blink => 1,
        ClipKind::Sad => 2,
        ClipKind::Happy => 3,
        ClipKind::Celebrate => 4,
    }
}

/// The file stem each clip kind is stored under.
pub open spec fn kind_file(kind: ClipKind) -> &'static str {
    match kind {
        ClipKind::Idle => "idle",
        ClipKind::Blink => "blink",
        ClipKind::Sad => "sad",
        ClipKind::Happy => "happy",
        ClipKind::Celebrate => "celebrate",
    }
}

/// Number of clip kinds.
pub const CLIP_KINDS: usize = 5;

impl ClipKind {
    /// The file stem this clip is stored under (`<stage>/<file>.txt`).
    pub fn file(self) -> (s: &'static str)
        ensures
            s == kind_file(self),
    {
        match self {
            ClipKind::Idle => "idle",
            ClipKind::Blink => "blink",
            ClipKind::Sad => "sad",
            ClipKind::Happy => "happy",
            ClipKind::Celebrate => "celebrate",
        }
    }

    /// This kind's slot in the order idle, blink, sad, happy, celebrate.
    pub fn index(self) -> (i: usize)
        ensures
            i as int == kind_index(self),
            i < CLIP_KINDS,
    {
        match self {
            ClipKind::Idle => 0,
            ClipKind::Blink => 1,
            ClipKind::Sad => 2,
            ClipKind::Happy => 3,
            ClipKind::Celebrate => 4,
        }
    }

    /// The kind in slot `i` of the order idle, blink, sad, happy, celebrate.
    pub fn from_index(i: usize) -> (k: ClipKind)
        requires
            i < CLIP_KINDS,
        ensures
            kind_index(k) == i as int,
    {
        match i {
            0 => ClipKind::Idle,
            1 => ClipKind::Blink,
            2 => ClipKind::Sad,
            3 => ClipKind::Happy,
            _ => ClipKind::Celebrate,
        }
    }
}

/// The clip text views of a sprite's slots.
pub open spec fn slot_views(slots: Seq<Option<Clip>>) -> Seq<Option<ClipView>> {
    slots.map_values(|o: Option<Clip>| match o {
        Some(c) => Some(c@),
        None => None,
    })
}

/// One stage's clips, one slot per clip kind; the idle slot is always filled.
pub struct Sprite {
    clips: Vec<Option<Clip>>,
}

impl View for Sprite {
    type V = Seq<Option<ClipView>>;

    closed spec fn view(&self) -> Seq<Option<ClipView>> {
        slot_views(self.clips@)
    }
}

impl Sprite {
    #[verifier::type_invariant]
    closed spec fn inv(self) -> bool {
        &&& self.clips@.len() == CLIP_KINDS
        &&& self.clips@[0] is Some
        &&& forall|i: int|
            0 <= i < self.clips@.len() && #[trigger] self.clips@[i] is Some ==> self.clips@[i]->0.frames@.len() >= 1
    }

    /// The requested clip, or Idle if this stage doesn't define it.
    pub fn clip(&self, kind: ClipKind) -> (c: &Clip)
        ensures
            self@.len() == CLIP_KINDS,
            c@ == (if self@[kind_index(kind)] is Some {
                self@[kind_index(kind)]->0
            } else {
                self@[0]->0
            }),
            c.frames@.len() >= 1,
    {
        proof {
            use_type_invariant(self);
        }
        let i = kind.index();
        match &self.clips[i] {
            Some(c) => c,
            None => {
                match &self.clips[0] {
                    Some(c) => c,
                    None => {
                        proof {
                            assert(false);
                        }
                        &self.clips[0].as_ref().unwrap()
                    }
                }
            }
        }
    }

    /// Whether this stage defines `kind` itself (rather than falling back to Idle).
    pub fn has(&self, kind: ClipKind) -> (r: bool)
        ensures
            self@.len() == CLIP_KINDS,
            self@[0] is Some,
            r == (self@[kind_index(kind)] is Some),
    {
        proof {
            use_type_invariant(self);
        }
        self.clips[kind.index()].is_some()
    }
}

/// Build one stage's sprite from its clip files, one per clip kind in the order idle,
/// blink, sad, happy, celebrate (`None` for a missing or unreadable file). A stage without
/// an idle clip has no sprite.
pub fn load_sprite(texts: &Vec<Option<String>>) -> (s: Option<Sprite>)
    requires
        texts@.len() == CLIP_KINDS,
    ensures
        s is Some == texts@[0] is Some,
        s matches Some(sp) ==> forall|i: int|
            0 <= i < CLIP_KINDS ==> #[trigger] sp@[i] == match texts@[i] {
                Some(t) => Some(parse_clip_spec(t@)),
                None => None,
            },
{
    if texts[0].is_none() {
        return None;
    }
    let mut clips: Vec<Option<Clip>> = Vec::new();
    let mut i: usize = 0;
    while i < CLIP_KINDS
        invariant
            0 <= i <= CLIP_KINDS,
            texts@.len() == CLIP_KINDS,
            texts@[0] is Some,
            clips@.len() == i,
            forall|j: int|
                0 <= j < i ==> (#[trigger] clips@[j] is Some) == (texts@[j] is Some),
            forall|j: int|
                0 <= j < i && #[trigger] clips@[j] is Some ==> clips@[j]->0@ == parse_clip_spec(
                    texts@[j]->0@,
                ) && clips@[j]->0.frames@.len() >= 1,
        decreases CLIP_KINDS - i,
    {
        let c = match &texts[i] {
            Some(t) => Some(parse_clip(t.as_str())),
            None => None,
        };
        clips.push(c);
        i = i + 1;
    }
    let sp = Sprite { clips };
    proof {
        assert forall|j: int| 0 <= j < CLIP_KINDS implies #[trigger] sp@[j] == match texts@[j] {
            Some(t) => Some(parse_clip_spec(t@)),
            None => None,
        } by {
            assert(sp@[j] == slot_views(sp.clips@)[j]);
        }
    }
    Some(sp)
}

/// The sprite stored under `art_dir` (the first entry with that name).
pub fn sprite<'a>(sprites: &'a Vec<(String, Sprite)>, art_dir: &str) -> (s: &'a Sprite)
    requires
        exists|i: int| 0 <= i < sprites@.len() && #[trigger] sprites@[i].0@ == art_dir@,
    ensures
        exists|i: int|
            0 <= i < sprites@.len() && sprites@[i].0@ == art_dir@ && (forall|j: int|
                0 <= j < i ==> #[trigger] sprites@[j].0@ != art_dir@) && s == &sprites@[i].1,
{
    let key = art_dir.to_owned();
    let mut i: usize = 0;
    while i < sprites.len()
        invariant
            0 <= i <= sprites@.len(),
            key@ == art_dir@,
            exists|k: int| 0 <= k < sprites@.len() && #[trigger] sprites@[k].0@ == art_dir@,
            forall|j: int| 0 <= j < i ==> #[trigger] sprites@[j].0@ != art_dir@,
        decreases sprites.len() - i,
    {
        if sprites[i].0 == key {
            return &sprites[i].1;
        }
        i = i + 1;
    }
    proof {
        let k = choose|k: int| 0 <= k < sprites@.len() && #[trigger] sprites@[k].0@ == art_dir@;
        assert(sprites@[k].0@ != art_dir@);
    }
    &sprites[0].1
}

/// Ping-pong runs forward then back: with `n >= 2` frames and one tick per frame (a rate
/// of 10 or more), the frame at tick `t` is the distance from `t mod 2(n-1)` to the nearest
/// multiple of `2(n-1)`, so each tick moves to an adjacent frame.
pub proof fn lemma_pingpong_bounces(n: int, fps: u8, tick: u64)
    requires
        n >= 2,
        fps >= 10,
        tick < usize::MAX,
    ensures
        ({
            let p = 2 * (n - 1);
            let r = tick as int % p;
            frame_index(n, fps, LoopMode::PingPong, tick) == (if r <= p - r { r } else { p - r })
        }),
        frame_index(n, fps, LoopMode::PingPong, (tick + 1) as u64) - frame_index(
            n,
            fps,
            LoopMode::PingPong,
            tick,
        ) == 1 || frame_index(n, fps, LoopMode::PingPong, (tick + 1) as u64) - frame_index(
            n,
            fps,
            LoopMode::PingPong,
            tick,
        ) == -1,
{
    let p = 2 * (n - 1);
    assert(10u8 / fps <= 1) by (nonlinear_arith)
        requires
            fps >= 10,
    ;
    assert(tick / 1u64 == tick);
    assert((tick + 1) as u64 / 1u64 == (tick + 1) as u64);
    let q = tick as int / p;
    let r = tick as int % p;
    vstd::arithmetic::div_mod::lemma_fundamental_div_mod(tick as int, p);
    assert(0 <= r < p) by {
        vstd::arithmetic::div_mod::lemma_mod_bound(tick as int, p);
    }
    let r1 = (tick as int + 1) % p;
    if r + 1 < p {
        assert(tick as int + 1 == q * p + (r + 1)) by (nonlinear_arith)
            requires
                tick as int == p * q + r,
        ;
        vstd::arithmetic::div_mod::lemma_fundamental_div_mod_converse(tick as int + 1, p, q, r + 1);
        assert(r1 == r + 1);
    } else {
        assert(tick as int + 1 == (q + 1) * p + 0) by (nonlinear_arith)
            requires
                tick as int == p * q + r,
                r + 1 == p,
        ;
        vstd::arithmetic::div_mod::lemma_fundamental_div_mod_converse(tick as int + 1, p, q + 1, 0);
        assert(r1 == 0);
    }
}

/// With one tick per frame (a rate of 10 or more), `Loop` shows frame `t mod n` at tick
/// `t` and `Once` shows frame `t` until it stays on the last one.
pub proof fn lemma_loop_and_once(n: int, fps: u8, tick: u64)
    requires
        n >= 1,
        fps >= 10,
        tick < usize::MAX,
    ensures
        frame_index(n, fps, LoopMode::Loop, tick) == tick as int % n,
        frame_index(n, fps, LoopMode::Once, tick) == (if tick < n - 1 { tick as int } else { n - 1 }),
{
    assert(10u8 / fps <= 1) by (nonlinear_arith)
        requires
            fps >= 10,
    ;
    assert(tick / 1u64 == tick);
    if n == 1 {
        vstd::arithmetic::div_mod::lemma_mod_self_0(1);
        vstd::arithmetic::div_mod::lemma_small_mod(0, 1);
        assert(tick as int % 1 == 0) by {
            vstd::arithmetic::div_mod::lemma_mod_bound(tick as int, 1);
        }
    }
}

} // verus!
