use fwaifu::runner::{chafa_args, chafa_size, fastfetch_args, fastfetch_capture_args, merge_side_by_side, term_width_from, visible_width};
use fwaifu::text::chars_of;

fn strings(v: &[&str]) -> Vec<String> {
    v.iter().map(|s| s.to_string()).collect()
}

#[test]
fn merge_pads_left_column_to_widest_line() {
    let left = strings(&["ab", "abcd"]);
    let right = strings(&["x", "y", "z"]);
    let out = merge_side_by_side(&left, &right, 2);
    assert_eq!(out, "ab\x1b[0m    x\nabcd\x1b[0m  y\n      z\n");
}

#[test]
fn merge_ignores_escape_sequences_in_width() {
    let left = strings(&["\x1b[31mab\x1b[0m", "abc"]);
    let right = strings(&["r1"]);
    let out = merge_side_by_side(&left, &right, 1);
    assert_eq!(out, "\x1b[31mab\x1b[0m\x1b[0m  r1\nabc\x1b[0m \n");
}

#[test]
fn merge_of_empty_columns_is_empty() {
    assert_eq!(merge_side_by_side(&[], &[], 3), "");
}

#[test]
fn merge_treats_empty_left_line_as_blank() {
    let left = strings(&["", "xy"]);
    let right = strings(&["a", "b"]);
    assert_eq!(merge_side_by_side(&left, &right, 1), "   a\nxy\x1b[0m b\n");
}

#[test]
fn visible_width_skips_ansi() {
    assert_eq!(visible_width(&chars_of("\x1b[1;32mhello\x1b[0m")), 5);
    assert_eq!(visible_width(&chars_of("plain")), 5);
    assert_eq!(visible_width(&chars_of("")), 0);
}

#[test]
fn fastfetch_args_with_logo_width() {
    let extra = strings(&["--pipe", "false"]);
    let args = fastfetch_args("/tmp/a.jpg", Some(40), &extra);
    assert_eq!(args, strings(&["--logo", "/tmp/a.jpg", "--logo-preserve-aspect-ratio", "true", "--logo-width", "40", "--pipe", "false"]));
    let args = fastfetch_args("/tmp/a.jpg", None, &[]);
    assert_eq!(args, strings(&["--logo", "/tmp/a.jpg", "--logo-preserve-aspect-ratio", "true"]));
}

#[test]
fn fastfetch_capture_disables_logo() {
    assert_eq!(fastfetch_capture_args(&strings(&["-c", "x"])), strings(&["-l", "none", "-c", "x"]));
}

#[test]
fn chafa_size_from_terminal_and_crop() {
    assert_eq!(chafa_size(120, 600, 800, None), (40, 52));
    assert_eq!(chafa_size(30, 600, 800, None), (20, 26));
    assert_eq!(chafa_size(120, 0, 800, Some(33)), (33, 66));
    assert_eq!(chafa_size(120, 600, 800, Some(30)), (30, 40));
}

#[test]
fn chafa_args_size_string() {
    assert_eq!(chafa_args("p.jpg", 40, 52), strings(&["-s", "40x52", "--format", "symbols", "--relative", "off", "p.jpg"]));
}

#[test]
fn term_width_defaults_to_80() {
    assert_eq!(term_width_from(None), 80);
    assert_eq!(term_width_from(Some("abc")), 80);
    assert_eq!(term_width_from(Some("132")), 132);
    assert_eq!(term_width_from(Some(" 132")), 80);
}

#[test]
fn merge_has_one_line_per_line_of_longer_column() {
    let left = strings(&["a", "b", "c", "d"]);
    let right = strings(&["x"]);
    let out = merge_side_by_side(&left, &right, 2);
    assert_eq!(out.matches('\n').count(), 4);
    let out = merge_side_by_side(&right, &left, 0);
    assert_eq!(out.matches('\n').count(), 4);
}

#[test]
fn plain_text_is_as_wide_as_long() {
    assert_eq!(visible_width(&chars_of("hello world")), 11);
}
