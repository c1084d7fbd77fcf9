use headr::get_args;
use headr::head_bytes;
use headr::head_lines;
use headr::render::banner;
use headr::render::more_lines_wanted;
use headr::render::open_error_line;
use headr::render::RunState;
use headr::run;

fn tokens(items: &[&str]) -> Vec<String> {
    let mut v: Vec<String> = Vec::new();
    for it in items {
        v.push(it.to_string());
    }
    v
}

#[test]
fn head_lines_takes_first_n_with_terminators() {
    let data = b"one\ntwo\nthree\n".to_vec();
    assert_eq!(head_lines(&data, 2), b"one\ntwo\n".to_vec());
    assert_eq!(head_lines(&data, 3), b"one\ntwo\nthree\n".to_vec());
    assert_eq!(head_lines(&data, 1), b"one\n".to_vec());
}

#[test]
fn head_lines_short_input_is_echoed_whole() {
    let data = b"one\ntwo\n".to_vec();
    assert_eq!(head_lines(&data, 5), data);
}

#[test]
fn head_lines_keeps_unterminated_final_line() {
    let data = b"a\nb".to_vec();
    assert_eq!(head_lines(&data, 2), b"a\nb".to_vec());
    assert_eq!(head_lines(&data, 1), b"a\n".to_vec());
}

#[test]
fn head_lines_empty_input() {
    let data: Vec<u8> = Vec::new();
    assert_eq!(head_lines(&data, 10), Vec::<u8>::new());
}

#[test]
fn head_bytes_length_is_min_of_bound_and_input() {
    let data = b"abcdef".to_vec();
    assert_eq!(head_bytes(&data, 4), b"abcd".to_vec());
    assert_eq!(head_bytes(&data, 6), b"abcdef".to_vec());
    assert_eq!(head_bytes(&data, 100), b"abcdef".to_vec());
    assert_eq!(head_bytes(&data, 1), b"a".to_vec());
}

#[test]
fn head_bytes_does_not_align_to_lines() {
    let data = b"ab\ncd\n".to_vec();
    assert_eq!(head_bytes(&data, 4), b"ab\nc".to_vec());
}

#[test]
fn banner_format() {
    assert_eq!(banner("a.txt"), "==> a.txt <==\n");
    assert_eq!(banner("-"), "==> - <==\n");
}

#[test]
fn open_error_line_format() {
    let line = open_error_line("missing.txt", "No such file or directory");
    assert_eq!(line, "missing.txt: No such file or directory");
    assert!(line.contains("missing.txt"));
}

#[test]
fn single_source_has_no_banner() {
    let config = get_args(&tokens(&["a.txt"])).unwrap();
    let outcomes = vec![Some(b"hello\nworld\n".to_vec())];
    let out = run(&config, &outcomes);
    assert_eq!(out, b"hello\nworld\n".to_vec());
    assert!(!out.windows(3).any(|w| w == b"==>"));
}

#[test]
fn stdin_source_alone_has_no_banner() {
    let config = get_args(&tokens(&[])).unwrap();
    let outcomes = vec![Some(b"x\n".to_vec())];
    assert_eq!(run(&config, &outcomes), b"x\n".to_vec());
}

#[test]
fn two_sources_are_separated_by_one_blank_line() {
    let config = get_args(&tokens(&["a.txt", "b.txt"])).unwrap();
    let outcomes = vec![Some(b"AAA\n".to_vec()), Some(b"BBB\n".to_vec())];
    let out = run(&config, &outcomes);
    assert_eq!(out, b"==> a.txt <==\nAAA\n\n==> b.txt <==\nBBB\n".to_vec());
}

#[test]
fn failed_first_source_leaves_no_artifacts() {
    let config = get_args(&tokens(&["missing.txt", "b.txt"])).unwrap();
    let outcomes = vec![None, Some(b"BBB\n".to_vec())];
    let out = run(&config, &outcomes);
    assert_eq!(out, b"==> b.txt <==\nBBB\n".to_vec());
}

#[test]
fn failed_middle_source_keeps_separator_logic() {
    let config = get_args(&tokens(&["a", "m", "b"])).unwrap();
    let outcomes = vec![Some(b"A\n".to_vec()), None, Some(b"B\n".to_vec())];
    let out = run(&config, &outcomes);
    assert_eq!(out, b"==> a <==\nA\n\n==> b <==\nB\n".to_vec());
}

#[test]
fn byte_mode_governs_all_sources() {
    let config = get_args(&tokens(&["-c", "2", "a", "b"])).unwrap();
    let outcomes = vec![Some(b"AAAA".to_vec()), Some(b"BBBB".to_vec())];
    let out = run(&config, &outcomes);
    assert_eq!(out, b"==> a <==\nAA\n==> b <==\nBB".to_vec());
}

#[test]
fn line_mode_truncates_each_source() {
    let config = get_args(&tokens(&["-n", "1", "a", "b"])).unwrap();
    let outcomes = vec![Some(b"a1\na2\n".to_vec()), Some(b"b1\nb2\n".to_vec())];
    let out = run(&config, &outcomes);
    assert_eq!(out, b"==> a <==\na1\n\n==> b <==\nb1\n".to_vec());
}

#[test]
fn begin_source_emits_banner_then_separator_credit() {
    let config = get_args(&tokens(&["a", "b"])).unwrap();
    let mut state = RunState::new();
    assert_eq!(state.begin_source(&config, "a"), b"==> a <==\n".to_vec());
    assert_eq!(state.begin_source(&config, "b"), b"\n==> b <==\n".to_vec());
}

#[test]
fn begin_source_single_source_is_silent() {
    let config = get_args(&tokens(&["a"])).unwrap();
    let mut state = RunState::new();
    assert_eq!(state.begin_source(&config, "a"), Vec::<u8>::new());
}

#[test]
fn more_lines_wanted_follows_bound() {
    let config = get_args(&tokens(&["-n", "2", "a"])).unwrap();
    assert!(more_lines_wanted(&config, 0));
    assert!(more_lines_wanted(&config, 1));
    assert!(!more_lines_wanted(&config, 2));
    assert!(!more_lines_wanted(&config, 3));
}

#[test]
fn run_state_skips_failed_and_keeps_credit() {
    let config = get_args(&tokens(&["a", "b"])).unwrap();
    let mut state = RunState::new();
    let first = state.process(&config, "a", None);
    assert_eq!(first, Vec::<u8>::new());
    let content = b"Z\n".to_vec();
    let second = state.process(&config, "b", Some(&content));
    assert_eq!(second, b"==> b <==\nZ\n".to_vec());
}
