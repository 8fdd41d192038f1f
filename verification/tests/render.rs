use aichat::render::cmd::{render_event_plain, PlainOutput};
use aichat::render::lines::{
    ends_with_newline, find_last_newline, has_newline, split_lines, split_trailing,
};
use aichat::render::repl::{
    buffer_rows, classify_key, cursor_recovery, on_key, poll_timeout, recover_cursor,
    render_event, scroll_step, tick_expired, CursorMove, Frame, KeyAction, KeyPress,
    MODIFIER_CONTROL, TICK_RATE_NANOS,
};
use aichat::render::{
    next_action, render_path, stream_result, LoopAction, RenderOutput, RenderPath,
    StreamRenderer,
};
use aichat::error::StreamError;
use aichat::repl::abort::AbortSignal;
use aichat::repl::handler::{ReplyStreamEvent, ReplyStreamHandler};
use aichat::utils::{trim, trim_end, visible_text};

fn text(fragment: &str) -> ReplyStreamEvent {
    ReplyStreamEvent::Text(fragment.to_string())
}

#[test]
fn renderer_commits_hello_and_holds_world() {
    let mut renderer = StreamRenderer::new();
    assert_eq!(
        renderer.on_event(text("Hello\n")),
        RenderOutput::Lines { committed: "Hello".to_string(), trailing: String::new() }
    );
    assert_eq!(renderer.trailing(), "");
    assert_eq!(
        renderer.on_event(text("World")),
        RenderOutput::Trailing { trailing: "World".to_string() }
    );
    assert_eq!(renderer.trailing(), "World");
    assert_eq!(
        renderer.on_event(ReplyStreamEvent::Done),
        RenderOutput::Final { trailing: "World".to_string() }
    );
    assert_eq!(renderer.trailing(), "");
}

#[test]
fn renderer_joins_trailing_line_and_fragment() {
    let mut renderer = StreamRenderer::new();
    renderer.on_event(text("ab"));
    renderer.on_event(text("cd"));
    assert_eq!(renderer.trailing(), "abcd");
    assert_eq!(
        renderer.on_event(text("e\nf\n\ngh")),
        RenderOutput::Lines { committed: "abcde\nf\n".to_string(), trailing: "gh".to_string() }
    );
    assert_eq!(renderer.trailing(), "gh");
    assert_eq!(
        renderer.on_event(text("\n")),
        RenderOutput::Lines { committed: "gh".to_string(), trailing: String::new() }
    );
}

#[test]
fn trailing_line_ignores_how_text_was_cut() {
    let whole = "one\ntwo\nthr";
    let mut all_at_once = StreamRenderer::new();
    all_at_once.on_event(text(whole));
    let mut by_char = StreamRenderer::new();
    for c in whole.chars() {
        by_char.on_event(text(&c.to_string()));
    }
    assert_eq!(all_at_once.trailing(), "thr");
    assert_eq!(by_char.trailing(), "thr");
}

#[test]
fn done_without_text_gives_empty_final_line() {
    let mut renderer = StreamRenderer::new();
    assert_eq!(
        renderer.on_event(ReplyStreamEvent::Done),
        RenderOutput::Final { trailing: String::new() }
    );
}

#[test]
fn plain_renderer_holds_back_open_lines() {
    let mut renderer = StreamRenderer::new();
    assert_eq!(render_event_plain(&mut renderer, text("Hel")), PlainOutput::Hold);
    assert_eq!(
        render_event_plain(&mut renderer, text("lo\nWor")),
        PlainOutput::Lines("Hello".to_string())
    );
    assert_eq!(render_event_plain(&mut renderer, text("ld")), PlainOutput::Hold);
    assert_eq!(
        render_event_plain(&mut renderer, ReplyStreamEvent::Done),
        PlainOutput::Final("World".to_string())
    );
}

#[test]
fn interactive_step_recovers_cursor_of_old_line() {
    let mut renderer = StreamRenderer::new();
    let first = render_event(&mut renderer, text("0123456789"), 4, 5);
    assert_eq!(
        first,
        Frame {
            cursor: CursorMove::To { row: 5 },
            output: RenderOutput::Trailing { trailing: "0123456789".to_string() },
        }
    );
    let second = render_event(&mut renderer, text("ab\ncd"), 4, 5);
    assert_eq!(
        second,
        Frame {
            cursor: CursorMove::To { row: 3 },
            output: RenderOutput::Lines {
                committed: "0123456789ab".to_string(),
                trailing: "cd".to_string(),
            },
        }
    );
    let last = render_event(&mut renderer, ReplyStreamEvent::Done, 4, 0);
    assert_eq!(
        last,
        Frame {
            cursor: CursorMove::To { row: 0 },
            output: RenderOutput::Final { trailing: "cd".to_string() },
        }
    );
}

#[test]
fn rows_are_the_ceiling_of_width_over_columns() {
    assert_eq!(buffer_rows(0, 80), 0);
    assert_eq!(buffer_rows(1, 80), 1);
    assert_eq!(buffer_rows(80, 80), 1);
    assert_eq!(buffer_rows(81, 80), 2);
    assert_eq!(buffer_rows(160, 80), 2);
    assert_eq!(buffer_rows(161, 80), 3);
    assert_eq!(buffer_rows(10, 4), 3);
    assert_eq!(buffer_rows(7, 1), 7);
}

#[test]
fn rows_of_very_wide_lines_are_exact() {
    assert_eq!(buffer_rows(65535, 1), 65535);
    assert_eq!(buffer_rows(65536, 1), 65536);
    assert_eq!(buffer_rows(65536, 65535), 2);
    assert_eq!(buffer_rows(usize::MAX, 1), usize::MAX);
    assert_eq!(buffer_rows(usize::MAX, 2), usize::MAX / 2 + 1);
}

#[test]
fn empty_line_leaves_the_row() {
    assert_eq!(cursor_recovery(0, 80, 7), CursorMove::To { row: 7 });
    assert_eq!(recover_cursor("", 80, 7), CursorMove::To { row: 7 });
    assert_eq!(recover_cursor("", 1, 0), CursorMove::To { row: 0 });
}

#[test]
fn cursor_moves_up_by_rows_minus_one() {
    assert_eq!(cursor_recovery(10, 80, 7), CursorMove::To { row: 7 });
    assert_eq!(cursor_recovery(81, 80, 7), CursorMove::To { row: 6 });
    assert_eq!(cursor_recovery(10, 4, 5), CursorMove::To { row: 3 });
    assert_eq!(cursor_recovery(10, 4, 2), CursorMove::To { row: 0 });
}

#[test]
fn cursor_scrolls_when_line_began_above_the_top() {
    assert_eq!(cursor_recovery(10, 4, 1), CursorMove::ScrollThenTop { lines: 1 });
    assert_eq!(cursor_recovery(10, 4, 0), CursorMove::ScrollThenTop { lines: 2 });
    assert_eq!(cursor_recovery(65536, 1, 0), CursorMove::ScrollThenTop { lines: 65535 });
    assert_eq!(cursor_recovery(65536, 1, 1), CursorMove::ScrollThenTop { lines: 65534 });
    assert_eq!(cursor_recovery(70000, 1, 0), CursorMove::ScrollThenTop { lines: 69999 });
    assert_eq!(
        cursor_recovery(usize::MAX, 1, 65535),
        CursorMove::ScrollThenTop { lines: usize::MAX - 65536 }
    );
}

#[test]
fn one_scroll_takes_at_most_its_limit() {
    assert_eq!(scroll_step(0), 0);
    assert_eq!(scroll_step(1), 1);
    assert_eq!(scroll_step(65535), 65535);
    assert_eq!(scroll_step(65536), 65535);
    assert_eq!(scroll_step(usize::MAX), 65535);
}

#[test]
fn set_token_stops_the_renderer_at_once() {
    let mut abort = AbortSignal::new();
    assert_eq!(next_action(&abort, None), LoopAction::Idle);
    assert_eq!(next_action(&abort, Some(text("a"))), LoopAction::Render(text("a")));
    assert_eq!(
        next_action(&abort, Some(ReplyStreamEvent::Done)),
        LoopAction::Render(ReplyStreamEvent::Done)
    );
    abort.set_ctrld();
    assert_eq!(next_action(&abort, None), LoopAction::Stop);
    assert_eq!(next_action(&abort, Some(text("a"))), LoopAction::Stop);
    assert_eq!(next_action(&abort, Some(ReplyStreamEvent::Done)), LoopAction::Stop);
}

#[test]
fn only_the_final_output_ends_the_loop() {
    let mut renderer = StreamRenderer::new();
    assert!(!renderer.on_event(text("a")).is_final());
    assert!(!renderer.on_event(text("b\nc")).is_final());
    assert!(renderer.on_event(ReplyStreamEvent::Done).is_final());
}

#[test]
fn white_space_is_what_the_list_says() {
    let listed = |c: char| {
        let code = c as u32;
        (0x09..=0x0d).contains(&code)
            || (0x2000..=0x200a).contains(&code)
            || [0x20, 0x85, 0xa0, 0x1680, 0x2028, 0x2029, 0x202f, 0x205f, 0x3000].contains(&code)
    };
    for code in 0..=0x10ffffu32 {
        if let Some(c) = char::from_u32(code) {
            let mut sample = String::from("x");
            sample.push(c);
            let expected = if listed(c) { "x".to_string() } else { sample.clone() };
            assert_eq!(trim_end(&sample), expected);
        }
    }
}

#[test]
fn cursor_recovery_counts_columns_not_characters() {
    // Six full-width letters take twelve columns.
    assert_eq!(
        recover_cursor("\u{ff28}\u{ff45}\u{ff4c}\u{ff4c}\u{ff4f}\u{ff01}", 6, 5),
        CursorMove::To { row: 4 }
    );
    assert_eq!(recover_cursor("Hello!", 6, 5), CursorMove::To { row: 5 });
    // A combining accent takes no column of its own.
    assert_eq!(recover_cursor("e\u{301}e\u{301}", 2, 5), CursorMove::To { row: 5 });
}

#[test]
fn control_c_and_control_d_abort() {
    let ctrl_c = KeyPress { character: Some('c'), modifiers: MODIFIER_CONTROL };
    let ctrl_d = KeyPress { character: Some('d'), modifiers: MODIFIER_CONTROL };
    assert_eq!(classify_key(ctrl_c), KeyAction::Interrupt);
    assert_eq!(classify_key(ctrl_d), KeyAction::EndOfInput);

    let mut abort = AbortSignal::new();
    assert!(on_key(ctrl_c, &mut abort));
    assert!(abort.aborted_ctrlc());
    assert!(!abort.aborted_ctrld());

    let mut other = AbortSignal::new();
    assert!(on_key(ctrl_d, &mut other));
    assert!(other.aborted_ctrld());
    assert!(!other.aborted_ctrlc());
}

#[test]
fn other_keys_are_ignored() {
    let keys = [
        KeyPress { character: Some('c'), modifiers: 0 },
        KeyPress { character: Some('c'), modifiers: MODIFIER_CONTROL | 0x01 },
        KeyPress { character: Some('d'), modifiers: 0x04 },
        KeyPress { character: Some('x'), modifiers: MODIFIER_CONTROL },
        KeyPress { character: Some('C'), modifiers: MODIFIER_CONTROL },
        KeyPress { character: None, modifiers: MODIFIER_CONTROL },
        KeyPress { character: None, modifiers: 0 },
    ];
    for key in keys {
        assert_eq!(classify_key(key), KeyAction::Ignore);
        let mut abort = AbortSignal::new();
        assert!(!on_key(key, &mut abort));
        assert!(!abort.aborted());
    }
}

#[test]
fn poll_waits_for_the_rest_of_the_tick() {
    assert_eq!(TICK_RATE_NANOS, 100_000_000);
    assert_eq!(poll_timeout(0), 100_000_000);
    assert_eq!(poll_timeout(30_000_000), 70_000_000);
    assert_eq!(poll_timeout(99_999_999), 1);
    assert_eq!(poll_timeout(100_000_000), 0);
    assert_eq!(poll_timeout(u128::MAX), 0);
    assert!(!tick_expired(99_999_999));
    assert!(tick_expired(100_000_000));
    assert!(tick_expired(100_000_001));
}

#[test]
fn render_path_follows_the_settings() {
    assert_eq!(render_path(false, false), RenderPath::Direct);
    assert_eq!(render_path(false, true), RenderPath::Direct);
    assert_eq!(render_path(true, false), RenderPath::Plain);
    assert_eq!(render_path(true, true), RenderPath::Interactive);
    assert!(!RenderPath::Direct.has_renderer());
    assert!(RenderPath::Plain.has_renderer());
    assert!(RenderPath::Interactive.has_renderer());
}

#[test]
fn stream_result_is_buffer_or_failure() {
    let mut handler = ReplyStreamHandler::new(None, false);
    handler.text("partial").unwrap();
    assert_eq!(stream_result(&handler, Ok(())), Ok("partial".to_string()));
    assert_eq!(
        stream_result(&handler, Err(StreamError::Transport("reset".to_string()))),
        Err(StreamError::Transport("reset".to_string()))
    );
}

#[test]
fn last_newline_is_found_by_character() {
    assert_eq!(find_last_newline(""), None);
    assert_eq!(find_last_newline("abc"), None);
    assert_eq!(find_last_newline("\n"), Some(0));
    assert_eq!(find_last_newline("a\nb\nc"), Some(3));
    assert_eq!(find_last_newline("\u{e9}\u{e9}\nx"), Some(2));
    assert!(has_newline("a\n"));
    assert!(!has_newline("a"));
    assert!(ends_with_newline("a\n"));
    assert!(!ends_with_newline("a\nb"));
    assert!(!ends_with_newline(""));
}

#[test]
fn split_trailing_cuts_at_last_newline() {
    assert_eq!(split_trailing(""), (None, String::new()));
    assert_eq!(split_trailing("abc"), (None, "abc".to_string()));
    assert_eq!(split_trailing("abc\n"), (Some("abc".to_string()), String::new()));
    assert_eq!(split_trailing("\nabc"), (Some(String::new()), "abc".to_string()));
    assert_eq!(split_trailing("a\nb\nc"), (Some("a\nb".to_string()), "c".to_string()));
    assert_eq!(
        split_trailing("\u{4f60}\u{597d}\n\u{4e16}\u{754c}"),
        (Some("\u{4f60}\u{597d}".to_string()), "\u{4e16}\u{754c}".to_string())
    );
}

#[test]
fn split_lines_matches_std_split() {
    for sample in ["", "a", "a\nb", "a\n", "\n", "\n\n", "a\n\nb\n", "\u{e9}\n\u{4f60}"] {
        let expected: Vec<String> = sample.split('\n').map(|s| s.to_string()).collect();
        assert_eq!(split_lines(sample), expected);
    }
}

#[test]
fn trimming_follows_unicode_white_space() {
    assert_eq!(trim_end("abc  \n\t"), "abc");
    assert_eq!(trim_end("  abc"), "  abc");
    assert_eq!(trim_end("a\u{3000}\u{a0}"), "a");
    assert_eq!(trim_end("a\u{200b}"), "a\u{200b}");
    assert_eq!(trim_end(" \n "), "");
    assert_eq!(trim(" \t abc def \n"), "abc def");
    assert_eq!(trim("\u{2003}x\u{2003}"), "x");
    assert_eq!(trim("   "), "");
    assert_eq!(trim(""), "");
    for sample in ["", " ", "a", " a", "a ", " a b ", "\n\na\n\n", "\u{3000}a\u{3000}"] {
        assert_eq!(trim(sample), sample.trim());
        assert_eq!(trim_end(sample), sample.trim_end());
    }
}

#[test]
fn visible_text_drops_blank_output() {
    assert_eq!(visible_text("World  "), Some("World".to_string()));
    assert_eq!(visible_text("  World"), Some("  World".to_string()));
    assert_eq!(visible_text("  \n"), None);
    assert_eq!(visible_text(""), None);
}
