use uefi_demo::canvas::{needs_line_break, TextCanvas};
use uefi_demo::keys::{Key, KeyAction, KeyEcho, FIRST_ECHO_ROW};
use uefi_demo::label::{blank_label_line, label_plot, label_plot_clipped, stack_label_lines, LABEL_LINE_BYTES};

#[test]
fn canvas_starts_with_one_black_line() {
    let c = TextCanvas::new(10);
    assert_eq!(c.width, 10);
    assert_eq!(c.line_count, 1);
    assert_eq!(c.data.len(), 10 * 32 * 3);
    assert!(c.data.iter().all(|b| *b == 0));
}

#[test]
fn canvas_plot_inside_and_outside() {
    let mut c = TextCanvas::new(10);
    c.plot(1, 2, 200);
    assert_eq!(&c.data[(2 * 10 + 1) * 3..(2 * 10 + 1) * 3 + 3], &[200, 200, 200]);
    let before = c.data.clone();
    c.plot(10, 0, 9);
    c.plot(-1, 0, 9);
    c.plot(0, -1, 9);
    c.plot(0, 32, 9);
    assert_eq!(c.data, before);
    assert_eq!(c.data.iter().filter(|b| **b != 0).count(), 3);
}

#[test]
fn canvas_break_line_adds_black_line() {
    let mut c = TextCanvas::new(4);
    c.plot(3, 31, 1);
    c.break_line();
    assert_eq!(c.line_count, 2);
    assert_eq!(c.data.len(), 2 * 4 * 32 * 3);
    c.plot(3, 32, 5);
    c.plot(3, 63, 6);
    c.plot(3, 64, 7);
    assert_eq!(c.data[(31 * 4 + 3) * 3], 1);
    assert_eq!(c.data[(32 * 4 + 3) * 3], 5);
    assert_eq!(c.data[(63 * 4 + 3) * 3 + 2], 6);
    assert_eq!(c.data.iter().filter(|b| **b != 0).count(), 9);
    let t = c.finish();
    assert_eq!(t.width, 4);
    assert_eq!(t.data.len(), 768);
}

#[test]
fn line_break_rules() {
    assert!(needs_line_break('\n', 0, 0, 800));
    assert!(needs_line_break('\n', i32::MAX, i32::MAX, 800));
    assert!(!needs_line_break('a', 10, 789, 800));
    assert!(needs_line_break('a', 10, 790, 800));
    assert!(needs_line_break('a', 100, 750, 800));
}

#[test]
fn label_plots_and_stacks() {
    let mut first = blank_label_line();
    assert_eq!(first.len(), LABEL_LINE_BYTES);
    label_plot_clipped(&mut first, 2, 1, 9);
    assert_eq!(&first[906..909], &[9, 9, 9]);
    let before = first.clone();
    label_plot_clipped(&mut first, 300, 0, 7);
    label_plot_clipped(&mut first, 0, 32, 7);
    assert_eq!(first, before);
    label_plot_clipped(&mut first, -1, 1, 4);
    assert_eq!(&first[897..900], &[4, 4, 4]);
    let mut second = blank_label_line();
    label_plot(&mut second, 299, 31, 8);
    assert_eq!(&second[28797..28800], &[8, 8, 8]);
    let t = stack_label_lines(first, second);
    assert_eq!(t.width, 300);
    assert_eq!(t.data.len(), 2 * LABEL_LINE_BYTES);
    assert_eq!(t.data[906], 9);
    assert_eq!(t.data[LABEL_LINE_BYTES + 28799], 8);
}

#[test]
fn key_echo_moves_down_and_stops_on_escape() {
    let mut k = KeyEcho::new();
    assert_eq!(k.height, FIRST_ECHO_ROW);
    assert!(!k.done);
    assert_eq!(k.on_key(Key::Printable('u')), KeyAction::ShowKey { ch: 'u', y: 32 });
    k.on_drawn(1);
    assert_eq!(k.height, 64);
    assert_eq!(k.on_key(Key::Other), KeyAction::Ignore);
    assert_eq!(k, KeyEcho { height: 64, done: false });
    assert_eq!(k.on_key(Key::Printable('x')), KeyAction::ShowKey { ch: 'x', y: 64 });
    k.on_drawn(2);
    assert_eq!(k.on_key(Key::Escape), KeyAction::ShowEscape { y: 128 });
    assert!(k.done);
    assert_eq!(k.height, 128);
}
