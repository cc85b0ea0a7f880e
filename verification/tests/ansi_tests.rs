use immich_auto_uploader::ansi::{LineProcessor, ProcessorState, TerminalAction};

#[test]
fn newline_completes_line() {
    let mut p = LineProcessor::new();
    let lines = p.process(b"hello\n");
    assert_eq!(lines, vec!["hello".to_string()]);
    assert_eq!(p.current_line(), "");
}

#[test]
fn carriage_return_overwrites() {
    let mut p = LineProcessor::new();
    let _ = p.process(b"progress 50%");
    let _ = p.process(b"\rprogress 100%");
    assert_eq!(p.current_line(), "progress 100%");
}

#[test]
fn ansi_color_stripped() {
    let mut p = LineProcessor::new();
    let lines = p.process(b"\x1b[31mred\x1b[0m\n");
    assert_eq!(lines, vec!["red".to_string()]);
}

#[test]
fn line_clear_csi_k() {
    let mut p = LineProcessor::new();
    let _ = p.process(b"will be cleared");
    let _ = p.process(b"\x1b[2K");
    assert_eq!(p.current_line(), "");
}

#[test]
fn several_lines_in_one_chunk_keep_their_order() {
    let mut p = LineProcessor::default();
    let lines = p.process(b"one\ntwo\nthr");
    assert_eq!(lines, vec!["one".to_string(), "two".to_string()]);
    assert_eq!(p.current_line(), "thr");
    let lines = p.process(b"ee\n");
    assert_eq!(lines, vec!["three".to_string()]);
    assert_eq!(p.current_line(), "");
}

#[test]
fn escape_sequence_split_across_chunks_is_still_removed() {
    let mut p = LineProcessor::new();
    let a = p.process(b"ab\x1b[3");
    let b = p.process(b"1mcd\n");
    assert!(a.is_empty());
    assert_eq!(b, vec!["abcd".to_string()]);
}

#[test]
fn carriage_return_before_newline_empties_the_line() {
    let mut p = LineProcessor::new();
    let lines = p.process(b"a\r\nb\r\n");
    assert_eq!(lines, vec!["".to_string(), "".to_string()]);
}

#[test]
fn tab_is_kept_and_erase_display_clears() {
    let mut p = LineProcessor::new();
    let _ = p.process(b"x\ty");
    assert_eq!(p.current_line(), "x\ty");
    let _ = p.process(b"\x1b[J");
    assert_eq!(p.current_line(), "");
}

#[test]
fn utf8_text_is_kept_whole() {
    let mut p = LineProcessor::new();
    let lines = p.process("日本語 ✓\n".as_bytes());
    assert_eq!(lines, vec!["日本語 ✓".to_string()]);
}

#[test]
fn processor_state_applies_actions() {
    let mut s = ProcessorState::new();
    s.apply(TerminalAction::Print('a'));
    s.apply(TerminalAction::Execute(0x0d));
    s.apply(TerminalAction::Print('b'));
    s.apply(TerminalAction::CsiDispatch('m'));
    s.apply(TerminalAction::Execute(0x0a));
    s.apply(TerminalAction::Print('c'));
    s.apply(TerminalAction::EscDispatch(b'7'));
    s.apply(TerminalAction::Execute(0x07));
    assert_eq!(s.completed, vec!["b".to_string()]);
    assert_eq!(s.buffer, "c");
    s.csi_dispatch('K');
    assert_eq!(s.buffer, "");
}

#[test]
fn apply_all_matches_one_by_one() {
    let acts = vec![
        TerminalAction::Print('h'),
        TerminalAction::Print('i'),
        TerminalAction::Execute(0x0a),
        TerminalAction::Execute(0x09),
        TerminalAction::OscDispatch,
        TerminalAction::Hook('q'),
        TerminalAction::Put(1),
        TerminalAction::Unhook,
    ];
    let mut s = ProcessorState::new();
    s.apply_all(&acts);
    assert_eq!(s.completed, vec!["hi".to_string()]);
    assert_eq!(s.buffer, "\t");
}

#[test]
fn applying_actions_in_two_parts_gives_the_same_lines() {
    let all = vec![
        TerminalAction::Print('a'),
        TerminalAction::Execute(0x0a),
        TerminalAction::Print('b'),
        TerminalAction::Execute(0x0d),
        TerminalAction::Print('c'),
        TerminalAction::Execute(0x0a),
        TerminalAction::Print('d'),
    ];
    let mut whole = ProcessorState::new();
    whole.apply_all(&all);
    for cut in 0..=all.len() {
        let mut parts = ProcessorState::new();
        parts.apply_all(&all[..cut].to_vec());
        parts.apply_all(&all[cut..].to_vec());
        assert_eq!(parts.completed, whole.completed);
        assert_eq!(parts.buffer, whole.buffer);
    }
    assert_eq!(whole.completed, vec!["a".to_string(), "c".to_string()]);
    assert_eq!(whole.completed.len(), 2);
    assert_eq!(whole.buffer, "d");
}

#[test]
fn cut_points_inside_a_character_followed_by_text_change_the_lines() {
    let mut whole = LineProcessor::new();
    assert_eq!(whole.process(b"caf\xc3\xa9A\xe2\x82\xac\n"), vec!["caf\u{e9}A\u{20ac}".to_string()]);
    let mut split = LineProcessor::new();
    assert!(split.process(b"caf\xc3").is_empty());
    assert_eq!(split.process(b"\xa9A\xe2\x82\xac\n"), vec!["caf\u{e9}\u{20ac}".to_string()]);
}
