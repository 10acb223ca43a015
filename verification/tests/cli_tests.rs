use pocket_character::cli::{flag_value, launch_size, parse_size, parse_u32, run_mode, u32_flag, RunMode};

fn args(v: &[&str]) -> Vec<String> {
    v.iter().map(|s| s.to_string()).collect()
}

#[test]
fn parse_u32_like_std() {
    for s in ["0", "42", "+7", "0042", "4294967295", "", "+", "-1", "-0", " 1", "1 ", "4294967296", "12a", "++1", "99999999999999999999"] {
        assert_eq!(parse_u32(s), s.parse::<u32>().ok(), "text {s:?}");
    }
}

#[test]
fn parse_sizes() {
    assert_eq!(parse_size("450x600"), Some((450, 600)));
    assert_eq!(parse_size("+12x0034"), Some((12, 34)));
    assert_eq!(parse_size("800x"), None);
    assert_eq!(parse_size("x600"), None);
    assert_eq!(parse_size("800"), None);
    assert_eq!(parse_size("1x2x3"), None);
    assert_eq!(parse_size("4294967296x1"), None);
    assert_eq!(parse_size("800X600"), None);
}

#[test]
fn flags_take_the_next_argument() {
    let a = args(&["prog", "--size", "100x200", "--size", "1x1", "--frames"]);
    assert_eq!(flag_value(&a, "--size"), Some("100x200".to_string()));
    assert_eq!(flag_value(&a, "--frames"), None);
    assert_eq!(flag_value(&a, "--model"), None);
    assert_eq!(launch_size(&a), (100, 200));
    assert_eq!(u32_flag(&a, "--frames"), None);
}

#[test]
fn size_defaults() {
    assert_eq!(launch_size(&args(&["prog"])), (450, 600));
    assert_eq!(launch_size(&args(&["prog", "--size", "big"])), (450, 600));
}

#[test]
fn run_modes() {
    match run_mode(&args(&["prog", "--headless-shot", "shot.png", "--ticks", "90"])) {
        RunMode::HeadlessShot { out, ticks } => {
            assert_eq!(out, "shot.png");
            assert_eq!(ticks, 90);
        }
        _ => panic!("expected a screenshot run"),
    }
    match run_mode(&args(&["prog", "--headless-shot", "shot.png"])) {
        RunMode::HeadlessShot { ticks, .. } => assert_eq!(ticks, 60),
        _ => panic!("expected a screenshot run"),
    }
    match run_mode(&args(&["prog", "--headless-seq", "out", "--skip", "5"])) {
        RunMode::HeadlessSeq { dir, ticks, skip } => {
            assert_eq!(dir, "out");
            assert_eq!(ticks, 300);
            assert_eq!(skip, 5);
        }
        _ => panic!("expected a sequence run"),
    }
    assert!(matches!(run_mode(&args(&["prog", "--max-fps", "30"])), RunMode::Windowed));
    assert!(matches!(run_mode(&args(&["prog", "--headless-seq"])), RunMode::Windowed));
}

#[test]
fn written_sizes_read_back() {
    for (w, h) in [(0u32, 0u32), (450, 600), (1, 4294967295), (1920, 1080)] {
        assert_eq!(parse_size(&format!("{w}x{h}")), Some((w, h)));
        assert_eq!(parse_u32(&format!("{w}")), Some(w));
    }
}
