use xrandr_control::text::{chars_of, contains_exec, first_token_bounds, line_ranges, trim_bounds};

#[test]
fn lines_split_like_std() {
    let s = "a\r\nb\n\nc\r";
    let t = chars_of(s);
    let got: Vec<String> = line_ranges(&t).iter().map(|&(lo, hi)| t[lo..hi].iter().collect()).collect();
    let want: Vec<String> = s.lines().map(|l| l.to_string()).collect();
    assert_eq!(got, want);
    assert_eq!(got, vec!["a".to_string(), "b".to_string(), String::new(), "c\r".to_string()]);
}

#[test]
fn trailing_newline_adds_no_line() {
    assert_eq!(line_ranges(&chars_of("x\n")), vec![(0, 1)]);
    assert_eq!(line_ranges(&chars_of("")), Vec::<(usize, usize)>::new());
}

#[test]
fn trim_covers_unicode_whitespace() {
    let t = chars_of("\u{a0}\t ab c\u{3000}\n");
    assert_eq!(trim_bounds(&t, 0, t.len()), (3, 7));
}

#[test]
fn first_word_of_blank_is_none() {
    let t = chars_of(" \t ");
    assert_eq!(first_token_bounds(&t, 0, t.len()), None);
    let u = chars_of("  eDP-1 connected");
    assert_eq!(first_token_bounds(&u, 0, u.len()), Some((2, 7)));
}

#[test]
fn search_within_piece() {
    let t = chars_of("xx connected");
    let p = chars_of(" connected");
    assert!(contains_exec(&t, 0, t.len(), &p));
    assert!(!contains_exec(&t, 3, t.len(), &p));
    assert!(contains_exec(&t, 0, t.len(), &Vec::new()));
}
