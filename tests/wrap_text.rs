use screen_timer::wrap::wrap_textbetter;

#[test]
fn wrap_title_text() {
    let r = wrap_textbetter("Tutorial press `space` to play", 7);
    assert_eq!(r, "Tutorial\npress\n`space`\nto play");
    for line in r.split('\n') {
        assert!(line.chars().count() <= 7 || !line.contains(' '));
    }
}

#[test]
fn wrap_gameover_text() {
    let r = wrap_textbetter(
        "Gameover! Press `z` to try again press `space` to go back to the title!",
        48,
    );
    assert_eq!(r, "Gameover! Press `z` to try again press `space`\nto go back to the title!");
}

#[test]
fn wrap_empty_text() {
    assert_eq!(wrap_textbetter("", 10), "");
}

#[test]
fn wrap_only_white_space() {
    assert_eq!(wrap_textbetter("  \t\n  ", 10), "");
}

#[test]
fn wrap_long_word_stands_alone() {
    assert_eq!(wrap_textbetter("abcdefghij xy", 4), "abcdefghij\nxy");
    assert_eq!(wrap_textbetter("xy abcdefghij z", 4), "xy\nabcdefghij\nz");
}

#[test]
fn wrap_collapses_white_space_runs() {
    assert_eq!(wrap_textbetter("  a\t\tb \n c  ", 10), "a b c");
}

#[test]
fn wrap_unicode_white_space() {
    assert_eq!(wrap_textbetter("a\u{3000}b\u{a0}c", 10), "a b c");
}

#[test]
fn wrap_exact_fit_stays_on_line() {
    assert_eq!(wrap_textbetter("ab cd", 5), "ab cd");
    assert_eq!(wrap_textbetter("ab cde", 5), "ab\ncde");
}

#[test]
fn wrap_zero_width_puts_each_word_alone() {
    assert_eq!(wrap_textbetter("a b c", 0), "a\nb\nc");
}

#[test]
fn wrap_counts_characters_not_bytes() {
    assert_eq!(wrap_textbetter("\u{e9}\u{e9} \u{e9}\u{e9}", 5), "\u{e9}\u{e9} \u{e9}\u{e9}");
}

#[test]
fn wrap_twice_changes_nothing() {
    let texts = [
        "Tutorial press `space` to play",
        "Gameover! Press `z` to try again press `space` to go back to the title!",
        "  one two\tthree   four five six seven  ",
        "",
    ];
    for text in texts {
        for width in [0usize, 3, 7, 12, 48] {
            let once = wrap_textbetter(text, width);
            assert_eq!(wrap_textbetter(&once, width), once);
        }
    }
}
