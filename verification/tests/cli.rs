use mandelart::{
    parse_algorithm, parse_arg, parse_count, parse_flag, push_decimal, Algorithm, ArgAction,
    ArgState,
};

#[test]
fn short_flags_name_their_setting() {
    assert_eq!(parse_flag("-x"), Some(ArgState::FocalX));
    assert_eq!(parse_flag("-y"), Some(ArgState::FocalY));
    assert_eq!(parse_flag("-r"), Some(ArgState::RangeWidth));
    assert_eq!(parse_flag("-w"), Some(ArgState::ImageWidth));
    assert_eq!(parse_flag("-ht"), Some(ArgState::ImageHeight));
    assert_eq!(parse_flag("-a"), Some(ArgState::Algorithm));
    assert_eq!(parse_flag("-z"), Some(ArgState::Zoom));
    assert_eq!(parse_flag("-f"), Some(ArgState::FrameCount));
    assert_eq!(parse_flag("-t"), Some(ArgState::ThreadCount));
}

#[test]
fn long_flags_name_their_setting() {
    assert_eq!(parse_flag("--x_coor"), Some(ArgState::FocalX));
    assert_eq!(parse_flag("--y_coor"), Some(ArgState::FocalY));
    assert_eq!(parse_flag("--range"), Some(ArgState::RangeWidth));
    assert_eq!(parse_flag("--width"), Some(ArgState::ImageWidth));
    assert_eq!(parse_flag("--height"), Some(ArgState::ImageHeight));
    assert_eq!(parse_flag("--algorithm"), Some(ArgState::Algorithm));
    assert_eq!(parse_flag("--zoom"), Some(ArgState::Zoom));
    assert_eq!(parse_flag("--frames"), Some(ArgState::FrameCount));
    assert_eq!(parse_flag("--threads"), Some(ArgState::ThreadCount));
}

#[test]
fn other_tokens_are_no_flags() {
    for token in ["", "-", "--", "x", "-X", "-x ", " -x", "--x", "-xx", "-h", "--help", "--Width", "1920", "-0.754", "mandelbrot"] {
        assert_eq!(parse_flag(token), None, "{:?}", token);
    }
}

#[test]
fn rule_is_found_by_either_spelling() {
    assert_eq!(parse_algorithm("mandelbrot"), Some(Algorithm::Mandelbrot));
    assert_eq!(parse_algorithm("Mandelbrot"), Some(Algorithm::Mandelbrot));
    for name in ["", "MANDELBROT", "mandelbrot ", "julia", "mandel", "mandelbrots"] {
        assert_eq!(parse_algorithm(name), None, "{:?}", name);
    }
}

#[test]
fn whole_numbers_are_read() {
    assert_eq!(parse_count("0"), Some(0));
    assert_eq!(parse_count("7"), Some(7));
    assert_eq!(parse_count("1920"), Some(1920));
    assert_eq!(parse_count("+5"), Some(5));
    assert_eq!(parse_count("0005"), Some(5));
    assert_eq!(parse_count("+000"), Some(0));
    assert_eq!(parse_count("4294967295"), Some(u32::MAX));
    assert_eq!(parse_count("00000000000000000004294967295"), Some(u32::MAX));
}

#[test]
fn numbers_too_large_are_refused() {
    assert_eq!(parse_count("4294967296"), None);
    assert_eq!(parse_count("4294967300"), None);
    assert_eq!(parse_count("42949672950"), None);
    assert_eq!(parse_count("99999999999999999999"), None);
    assert_eq!(parse_count("+4294967296"), None);
}

#[test]
fn other_tokens_are_no_numbers() {
    for token in ["", "+", "-", "-1", "-0", "++1", "+-1", "1+", "1 ", " 1", "1_000", "1.0", "1e3", "0x10", "ten", "12a", "a12", "\u{ff11}", "1\n"] {
        assert_eq!(parse_count(token), None, "{:?}", token);
    }
}

#[test]
fn numbers_are_read_as_std_reads_them() {
    let tokens = [
        "0", "1", "9", "10", "99", "100", "255", "256", "1080", "3600", "65535", "65536",
        "4294967294", "4294967295", "4294967296", "4294967305", "18446744073709551616", "+1",
        "+", "", "-", "-5", "007", "+007", "7+", "3.5", " 3", "3 ", "\t3", "٣", "1,000",
        "00000000000", "+00000000000", "429496729 5",
    ];
    for token in tokens {
        assert_eq!(parse_count(token), token.parse::<u32>().ok(), "{:?}", token);
    }
    let mut n: u32 = 1;
    for _ in 0..200 {
        n = n.wrapping_mul(1664525).wrapping_add(1013904223);
        let text = n.to_string();
        assert_eq!(parse_count(&text), Some(n));
    }
}

#[test]
fn header_numeral_reads_back() {
    for n in [0u32, 1, 9, 10, 100, 1920, 1080, 4000, 123456789, u32::MAX - 1, u32::MAX] {
        let mut bytes = Vec::new();
        push_decimal(&mut bytes, n);
        let text = String::from_utf8(bytes).unwrap();
        assert_eq!(parse_count(&text), Some(n));
    }
}

#[test]
fn flag_moves_the_machine_from_every_state() {
    let states = [
        ArgState::Initial, ArgState::FocalX, ArgState::FocalY, ArgState::RangeWidth,
        ArgState::ImageWidth, ArgState::ImageHeight, ArgState::Algorithm, ArgState::Zoom,
        ArgState::FrameCount, ArgState::ThreadCount,
    ];
    for state in states {
        assert_eq!(parse_arg(state, "-w"), (ArgState::ImageWidth, ArgAction::Expect(ArgState::ImageWidth)));
        assert_eq!(parse_arg(state, "--zoom"), (ArgState::Zoom, ArgAction::Expect(ArgState::Zoom)));
        assert_eq!(parse_arg(state, "-h"), (state, ArgAction::Help));
        assert_eq!(parse_arg(state, "--help"), (state, ArgAction::Help));
    }
}

#[test]
fn value_without_flag_is_unknown() {
    assert_eq!(parse_arg(ArgState::Initial, "1920"), (ArgState::Initial, ArgAction::UnknownArgument));
    assert_eq!(parse_arg(ArgState::Initial, "mandelbrot"), (ArgState::Initial, ArgAction::UnknownArgument));
    assert_eq!(parse_arg(ArgState::Initial, ""), (ArgState::Initial, ArgAction::UnknownArgument));
}

#[test]
fn real_settings_hand_the_token_on() {
    for state in [ArgState::FocalX, ArgState::FocalY, ArgState::RangeWidth, ArgState::Zoom] {
        assert_eq!(parse_arg(state, "-0.754"), (state, ArgAction::Real(state)));
        assert_eq!(parse_arg(state, "12"), (state, ArgAction::Real(state)));
        assert_eq!(parse_arg(state, "abc"), (state, ArgAction::Real(state)));
    }
}

#[test]
fn count_settings_read_the_number() {
    for state in [ArgState::ImageWidth, ArgState::ImageHeight, ArgState::FrameCount, ArgState::ThreadCount] {
        assert_eq!(parse_arg(state, "1920"), (state, ArgAction::Count(state, 1920)));
        assert_eq!(parse_arg(state, "0"), (state, ArgAction::Count(state, 0)));
        assert_eq!(parse_arg(state, "-3"), (state, ArgAction::BadCount(state)));
        assert_eq!(parse_arg(state, "0.5"), (state, ArgAction::BadCount(state)));
        assert_eq!(parse_arg(state, "4294967296"), (state, ArgAction::BadCount(state)));
    }
}

#[test]
fn rule_setting_selects_or_refuses() {
    let state = ArgState::Algorithm;
    assert_eq!(parse_arg(state, "mandelbrot"), (state, ArgAction::Select(Algorithm::Mandelbrot)));
    assert_eq!(parse_arg(state, "Mandelbrot"), (state, ArgAction::Select(Algorithm::Mandelbrot)));
    assert_eq!(parse_arg(state, "julia"), (state, ArgAction::UnknownAlgorithm));
    assert_eq!(parse_arg(state, "1"), (state, ArgAction::UnknownAlgorithm));
}

#[test]
fn whole_command_line() {
    let line = "-x -0.754 -y 0.05 -r 0.001 -w 1920 -ht 1080 -a mandelbrot -z 0.99 -f 3600 -t 6";
    let mut state = ArgState::Initial;
    let mut actions = Vec::new();
    for token in line.split(' ') {
        let (next, action) = parse_arg(state, token);
        state = next;
        actions.push(action);
    }
    assert_eq!(state, ArgState::ThreadCount);
    assert_eq!(
        actions,
        vec![
            ArgAction::Expect(ArgState::FocalX),
            ArgAction::Real(ArgState::FocalX),
            ArgAction::Expect(ArgState::FocalY),
            ArgAction::Real(ArgState::FocalY),
            ArgAction::Expect(ArgState::RangeWidth),
            ArgAction::Real(ArgState::RangeWidth),
            ArgAction::Expect(ArgState::ImageWidth),
            ArgAction::Count(ArgState::ImageWidth, 1920),
            ArgAction::Expect(ArgState::ImageHeight),
            ArgAction::Count(ArgState::ImageHeight, 1080),
            ArgAction::Expect(ArgState::Algorithm),
            ArgAction::Select(Algorithm::Mandelbrot),
            ArgAction::Expect(ArgState::Zoom),
            ArgAction::Real(ArgState::Zoom),
            ArgAction::Expect(ArgState::FrameCount),
            ArgAction::Count(ArgState::FrameCount, 3600),
            ArgAction::Expect(ArgState::ThreadCount),
            ArgAction::Count(ArgState::ThreadCount, 6),
        ]
    );
}

#[test]
fn later_value_for_the_same_flag_is_taken_too() {
    let (state, first) = parse_arg(ArgState::ImageWidth, "640");
    let (state, second) = parse_arg(state, "800");
    assert_eq!(first, ArgAction::Count(ArgState::ImageWidth, 640));
    assert_eq!(second, ArgAction::Count(ArgState::ImageWidth, 800));
    assert_eq!(state, ArgState::ImageWidth);
}
