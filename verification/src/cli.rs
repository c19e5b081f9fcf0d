//! The command line as a state machine over its tokens.
//!
//! A flag announces which setting the following values are for; a value is
//! stored in the setting announced last. The machine decides what a token
//! means and reads the whole numbers; a real number is handed back to the
//! caller as it stands.

use vstd::prelude::*;
use vstd::string::{is_ascii, is_ascii_spec_bytes, StringSliceAdditionalSpecFns};
use crate::frame::{decimal, lemma_decimal_reads_back, numeral_value};

verus! {

/// The setting that the next value on the command line is for.
#[derive(Clone, Copy, Debug, PartialEq, Eq)]
pub enum ArgState {
    /// No flag has been read yet.
    Initial,
    /// Horizontal coordinate of the focus point.
    FocalX,
    /// Vertical coordinate of the focus point.
    FocalY,
    /// Span of the view from its left edge to its right edge.
    RangeWidth,
    /// Width of a frame in pixels.
    ImageWidth,
    /// Height of a frame in pixels.
    ImageHeight,
    /// Name of the escape-time rule.
    Algorithm,
    /// Factor by which the span changes from one frame to the next.
    Zoom,
    /// Number of frames.
    FrameCount,
    /// Number of workers.
    ThreadCount,
}

/// The escape-time rules that can be selected.
#[derive(Clone, Copy, Debug, PartialEq, Eq)]
pub enum Algorithm {
    /// Iterate `z * z + c` from zero.
    Mandelbrot,
}

/// What one token of the command line asks for.
#[derive(Clone, Copy, Debug, PartialEq, Eq)]
pub enum ArgAction {
    /// The token is a flag: the values that follow are for this setting.
    Expect(ArgState),
    /// The token asks for the usage text.
    Help,
    /// The token is the value of this setting, which takes a real number.
    Real(ArgState),
    /// The token is this whole number, for this setting.
    Count(ArgState, u32),
    /// The token stands where this setting takes a whole number, and is
    /// none that fits in 32 bits.
    BadCount(ArgState),
    /// The token names this escape-time rule.
    Select(Algorithm),
    /// The token stands where a rule is named, and names none.
    UnknownAlgorithm,
    /// The token is a value, and no flag came before it.
    UnknownArgument,
}

/// The setting that a flag announces, if the token is a flag.
pub open spec fn flag_state(token: Seq<u8>) -> Option<ArgState> {
    if token == "-x".spec_bytes() || token == "--x_coor".spec_bytes() {
        Some(ArgState::FocalX)
    } else if token == "-y".spec_bytes() || token == "--y_coor".spec_bytes() {
        Some(ArgState::FocalY)
    } else if token == "-r".spec_bytes() || token == "--range".spec_bytes() {
        Some(ArgState::RangeWidth)
    } else if token == "-w".spec_bytes() || token == "--width".spec_bytes() {
        Some(ArgState::ImageWidth)
    } else if token == "-ht".spec_bytes() || token == "--height".spec_bytes() {
        Some(ArgState::ImageHeight)
    } else if token == "-a".spec_bytes() || token == "--algorithm".spec_bytes() {
        Some(ArgState::Algorithm)
    } else if token == "-z".spec_bytes() || token == "--zoom".spec_bytes() {
        Some(ArgState::Zoom)
    } else if token == "-f".spec_bytes() || token == "--frames".spec_bytes() {
        Some(ArgState::FrameCount)
    } else if token == "-t".spec_bytes() || token == "--threads".spec_bytes() {
        Some(ArgState::ThreadCount)
    } else {
        None
    }
}

/// Whether the token asks for the usage text.
pub open spec fn is_help(token: Seq<u8>) -> bool {
    token == "-h".spec_bytes() || token == "--help".spec_bytes()
}

/// The rule that a token names, if it names one.
pub open spec fn algorithm_named(token: Seq<u8>) -> Option<Algorithm> {
    if token == "mandelbrot".spec_bytes() || token == "Mandelbrot".spec_bytes() {
        Some(Algorithm::Mandelbrot)
    } else {
        None
    }
}

/// Whether the bytes are one or more ASCII digits.
pub open spec fn is_digits(bytes: Seq<u8>) -> bool {
    &&& bytes.len() >= 1
    &&& forall|i: int| 0 <= i < bytes.len() ==> 0x30 <= #[trigger] bytes[i] <= 0x39
}

/// The token without the plus sign that may stand in front of a number.
pub open spec fn unsigned_part(token: Seq<u8>) -> Seq<u8> {
    if token.len() >= 1 && token[0] == 0x2b {
        token.subrange(1, token.len() as int)
    } else {
        token
    }
}

/// The whole number that a token denotes: digits, with or without a plus
/// sign in front, whose value fits in 32 bits. Leading zeros are allowed;
/// white space, a minus sign and an empty run of digits are not.
pub open spec fn count_of(token: Seq<u8>) -> Option<u32> {
    let digits = unsigned_part(token);
    if is_digits(digits) && numeral_value(digits) <= u32::MAX {
        Some(numeral_value(digits) as u32)
    } else {
        None
    }
}

/// Whether the setting takes a whole number.
pub open spec fn takes_count(state: ArgState) -> bool {
    state is ImageWidth || state is ImageHeight || state is FrameCount || state is ThreadCount
}

/// Whether the setting takes a real number.
pub open spec fn takes_real(state: ArgState) -> bool {
    state is FocalX || state is FocalY || state is RangeWidth || state is Zoom
}

/// What a token that is no flag means after the flag read last.
pub open spec fn value_action(state: ArgState, token: Seq<u8>) -> ArgAction {
    if state is Initial {
        ArgAction::UnknownArgument
    } else if state is Algorithm {
        match algorithm_named(token) {
            Some(rule) => ArgAction::Select(rule),
            None => ArgAction::UnknownAlgorithm,
        }
    } else if takes_real(state) {
        ArgAction::Real(state)
    } else {
        match count_of(token) {
            Some(count) => ArgAction::Count(state, count),
            None => ArgAction::BadCount(state),
        }
    }
}

/// What a token means after the flag read last: a flag is recognised in
/// every state, the request for help next, and anything else is a value.
pub open spec fn action_of(state: ArgState, token: Seq<u8>) -> ArgAction {
    match flag_state(token) {
        Some(next) => ArgAction::Expect(next),
        None => if is_help(token) {
            ArgAction::Help
        } else {
            value_action(state, token)
        },
    }
}

/// The state after a token: a flag moves the machine to its setting, and
/// every other token leaves it where it is.
pub open spec fn state_after(state: ArgState, token: Seq<u8>) -> ArgState {
    match flag_state(token) {
        Some(next) => next,
        None => state,
    }
}

/// Whether two byte strings are the same.
fn same_bytes(left: &[u8], right: &[u8]) -> (same: bool)
    ensures
        same <==> left@ == right@,
{
    if left.len() != right.len() {
        return false;
    }
    let mut i: usize = 0;
    while i < left.len()
        invariant
            i <= left.len(),
            left.len() == right.len(),
            forall|k: int| 0 <= k < i ==> left@[k] == right@[k],
        decreases left.len() - i,
    {
        if left[i] != right[i] {
            return false;
        }
        i = i + 1;
    }
    assert(left@ =~= right@);
    true
}

/// Whether the token is one of two spellings.
fn is_either(token: &[u8], short: &str, long: &str) -> (found: bool)
    ensures
        found <==> token@ == short.spec_bytes() || token@ == long.spec_bytes(),
{
    same_bytes(token, short.as_bytes()) || same_bytes(token, long.as_bytes())
}

/// The setting that a flag announces, or `None` for a token that is no flag.
pub fn parse_flag(token: &str) -> (state: Option<ArgState>)
    ensures
        state == flag_state(token.spec_bytes()),
{
    let bytes = token.as_bytes();
    if is_either(bytes, "-x", "--x_coor") {
        Some(ArgState::FocalX)
    } else if is_either(bytes, "-y", "--y_coor") {
        Some(ArgState::FocalY)
    } else if is_either(bytes, "-r", "--range") {
        Some(ArgState::RangeWidth)
    } else if is_either(bytes, "-w", "--width") {
        Some(ArgState::ImageWidth)
    } else if is_either(bytes, "-ht", "--height") {
        Some(ArgState::ImageHeight)
    } else if is_either(bytes, "-a", "--algorithm") {
        Some(ArgState::Algorithm)
    } else if is_either(bytes, "-z", "--zoom") {
        Some(ArgState::Zoom)
    } else if is_either(bytes, "-f", "--frames") {
        Some(ArgState::FrameCount)
    } else if is_either(bytes, "-t", "--threads") {
        Some(ArgState::ThreadCount)
    } else {
        None
    }
}

/// The escape-time rule of the given name, or `None` where no rule has it.
pub fn parse_algorithm(name: &str) -> (rule: Option<Algorithm>)
    ensures
        rule == algorithm_named(name.spec_bytes()),
{
    if is_either(name.as_bytes(), "mandelbrot", "Mandelbrot") {
        Some(Algorithm::Mandelbrot)
    } else {
        None
    }
}

/// In a run of digits, the digits up to any point denote no more than the
/// whole run does.
pub proof fn lemma_numeral_prefix(digits: Seq<u8>, k: int)
    requires
        0 <= k <= digits.len(),
        forall|i: int| 0 <= i < digits.len() ==> 0x30 <= #[trigger] digits[i] <= 0x39,
    ensures
        numeral_value(digits.take(k)) <= numeral_value(digits),
    decreases digits.len() - k,
{
    if k == digits.len() {
        assert(digits.take(k) =~= digits);
    } else {
        lemma_numeral_prefix(digits, k + 1);
        assert(digits.take(k + 1).drop_last() =~= digits.take(k));
    }
}

/// Reads a whole number: digits, with or without a plus sign in front.
/// Returns `None` for anything else, and for a number that does not fit in
/// 32 bits.
pub fn parse_count(token: &str) -> (count: Option<u32>)
    ensures
        count == count_of(token.spec_bytes()),
{
    let bytes = token.as_bytes();
    let start: usize = if bytes.len() >= 1 && bytes[0] == 0x2bu8 {
        1
    } else {
        0
    };
    if start >= bytes.len() {
        return None;
    }
    let ghost digits = unsigned_part(bytes@);
    assert(digits =~= bytes@.subrange(start as int, bytes@.len() as int));
    let mut value: u32 = 0;
    let mut i: usize = start;
    while i < bytes.len()
        invariant
            start <= i <= bytes.len(),
            start < bytes.len(),
            bytes@ == token.spec_bytes(),
            digits == unsigned_part(bytes@),
            digits == bytes@.subrange(start as int, bytes@.len() as int),
            forall|k: int| 0 <= k < i - start ==> 0x30 <= #[trigger] digits[k] <= 0x39,
            value as nat == numeral_value(digits.take(i - start)),
        decreases bytes.len() - i,
    {
        let byte: u8 = bytes[i];
        if byte < 0x30u8 || byte > 0x39u8 {
            assert(digits[i - start] == byte);
            return None;
        }
        let digit: u32 = (byte - 0x30u8) as u32;
        proof {
            assert(digits[i - start] == byte);
            assert(digits.take(i - start + 1).drop_last() =~= digits.take(i - start));
            assert(digits.take(i - start + 1).last() == byte);
        }
        if value > (u32::MAX - digit) / 10 {
            proof {
                assert(numeral_value(digits.take(i - start + 1)) > u32::MAX);
                if is_digits(digits) {
                    lemma_numeral_prefix(digits, i - start + 1);
                }
            }
            return None;
        }
        value = value * 10 + digit;
        i = i + 1;
    }
    assert(digits.take(i - start) =~= digits);
    Some(value)
}

/// Reads one token in the given state: says what the token asks for and
/// which state the machine is in afterwards.
pub fn parse_arg(state: ArgState, token: &str) -> (step: (ArgState, ArgAction))
    ensures
        step.0 == state_after(state, token.spec_bytes()),
        step.1 == action_of(state, token.spec_bytes()),
{
    match parse_flag(token) {
        Some(next) => (next, ArgAction::Expect(next)),
        None => {
            if is_either(token.as_bytes(), "-h", "--help") {
                (state, ArgAction::Help)
            } else {
                let action = match state {
                    ArgState::Initial => ArgAction::UnknownArgument,
                    ArgState::Algorithm => match parse_algorithm(token) {
                        Some(rule) => ArgAction::Select(rule),
                        None => ArgAction::UnknownAlgorithm,
                    },
                    ArgState::FocalX | ArgState::FocalY | ArgState::RangeWidth | ArgState::Zoom => {
                        ArgAction::Real(state)
                    },
                    ArgState::ImageWidth
                    | ArgState::ImageHeight
                    | ArgState::FrameCount
                    | ArgState::ThreadCount => match parse_count(token) {
                        Some(count) => ArgAction::Count(state, count),
                        None => ArgAction::BadCount(state),
                    },
                };
                (state, action)
            }
        },
    }
}

/// A token that is no flag never moves the machine, and a flag moves it to
/// the same setting from every state.
pub proof fn lemma_flags_ignore_state(first: ArgState, second: ArgState, token: Seq<u8>)
    ensures
        flag_state(token) is Some ==> state_after(first, token) == state_after(second, token),
        flag_state(token) is None ==> state_after(first, token) == first,
        action_of(first, token) is Expect <==> flag_state(token) is Some,
{
}

/// A value is handed on only for a setting that takes one of its kind: a
/// real number for the focus, the span and the zoom factor, a whole number
/// for the frame size, the frame count and the worker count.
pub proof fn lemma_value_fits_setting(state: ArgState, token: Seq<u8>)
    ensures
        action_of(state, token) matches ArgAction::Real(setting) ==> setting == state
            && takes_real(state),
        action_of(state, token) matches ArgAction::Count(setting, count) ==> setting == state
            && takes_count(state) && count_of(token) == Some(count),
        action_of(state, token) matches ArgAction::BadCount(setting) ==> setting == state
            && takes_count(state) && count_of(token) is None,
{
}

/// The numeral that the frame header writes for a number is read back as
/// that number.
pub proof fn lemma_count_of_decimal(n: u32)
    ensures
        count_of(decimal(n as nat)) == Some(n),
{
    lemma_decimal_reads_back(n as nat);
    let numeral = decimal(n as nat);
    assert(numeral[0] != 0x2b);
    assert(unsigned_part(numeral) == numeral);
}

/// The bytes of a word of ASCII letters and signs are the codes of its
/// characters, one byte each.
proof fn lemma_word_bytes(word: &str)
    ensures
        is_ascii(word) ==> word.spec_bytes().len() == word@.len() && forall|i: int|
            0 <= i < word@.len() ==> #[trigger] word.spec_bytes()[i] == word@[i] as u8,
{
    is_ascii_spec_bytes(word);
}

/// The length and the first bytes of every word that the command line
/// knows: enough to tell every two of them apart.
proof fn lemma_word_heads()
    ensures
        "-x".spec_bytes().len() == 2
            && "-x".spec_bytes()[0] == 0x2du8
            && "-x".spec_bytes()[1] == 0x78u8,
        "--x_coor".spec_bytes().len() == 8
            && "--x_coor".spec_bytes()[0] == 0x2du8
            && "--x_coor".spec_bytes()[1] == 0x2du8
            && "--x_coor".spec_bytes()[2] == 0x78u8,
        "-y".spec_bytes().len() == 2
            && "-y".spec_bytes()[0] == 0x2du8
            && "-y".spec_bytes()[1] == 0x79u8,
        "--y_coor".spec_bytes().len() == 8
            && "--y_coor".spec_bytes()[0] == 0x2du8
            && "--y_coor".spec_bytes()[1] == 0x2du8
            && "--y_coor".spec_bytes()[2] == 0x79u8,
        "-r".spec_bytes().len() == 2
            && "-r".spec_bytes()[0] == 0x2du8
            && "-r".spec_bytes()[1] == 0x72u8,
        "--range".spec_bytes().len() == 7
            && "--range".spec_bytes()[0] == 0x2du8
            && "--range".spec_bytes()[1] == 0x2du8
            && "--range".spec_bytes()[2] == 0x72u8,
        "-w".spec_bytes().len() == 2
            && "-w".spec_bytes()[0] == 0x2du8
            && "-w".spec_bytes()[1] == 0x77u8,
        "--width".spec_bytes().len() == 7
            && "--width".spec_bytes()[0] == 0x2du8
            && "--width".spec_bytes()[1] == 0x2du8
            && "--width".spec_bytes()[2] == 0x77u8,
        "-ht".spec_bytes().len() == 3
            && "-ht".spec_bytes()[0] == 0x2du8
            && "-ht".spec_bytes()[1] == 0x68u8
            && "-ht".spec_bytes()[2] == 0x74u8,
        "--height".spec_bytes().len() == 8
            && "--height".spec_bytes()[0] == 0x2du8
            && "--height".spec_bytes()[1] == 0x2du8
            && "--height".spec_bytes()[2] == 0x68u8,
        "-a".spec_bytes().len() == 2
            && "-a".spec_bytes()[0] == 0x2du8
            && "-a".spec_bytes()[1] == 0x61u8,
        "--algorithm".spec_bytes().len() == 11
            && "--algorithm".spec_bytes()[0] == 0x2du8
            && "--algorithm".spec_bytes()[1] == 0x2du8
            && "--algorithm".spec_bytes()[2] == 0x61u8,
        "-z".spec_bytes().len() == 2
            && "-z".spec_bytes()[0] == 0x2du8
            && "-z".spec_bytes()[1] == 0x7au8,
        "--zoom".spec_bytes().len() == 6
            && "--zoom".spec_bytes()[0] == 0x2du8
            && "--zoom".spec_bytes()[1] == 0x2du8
            && "--zoom".spec_bytes()[2] == 0x7au8,
        "-f".spec_bytes().len() == 2
            && "-f".spec_bytes()[0] == 0x2du8
            && "-f".spec_bytes()[1] == 0x66u8,
        "--frames".spec_bytes().len() == 8
            && "--frames".spec_bytes()[0] == 0x2du8
            && "--frames".spec_bytes()[1] == 0x2du8
            && "--frames".spec_bytes()[2] == 0x66u8,
        "-t".spec_bytes().len() == 2
            && "-t".spec_bytes()[0] == 0x2du8
            && "-t".spec_bytes()[1] == 0x74u8,
        "--threads".spec_bytes().len() == 9
            && "--threads".spec_bytes()[0] == 0x2du8
            && "--threads".spec_bytes()[1] == 0x2du8
            && "--threads".spec_bytes()[2] == 0x74u8,
        "-h".spec_bytes().len() == 2
            && "-h".spec_bytes()[0] == 0x2du8
            && "-h".spec_bytes()[1] == 0x68u8,
        "--help".spec_bytes().len() == 6
            && "--help".spec_bytes()[0] == 0x2du8
            && "--help".spec_bytes()[1] == 0x2du8
            && "--help".spec_bytes()[2] == 0x68u8,
        "mandelbrot".spec_bytes().len() == 10
            && "mandelbrot".spec_bytes()[0] == 0x6du8
            && "mandelbrot".spec_bytes()[1] == 0x61u8
            && "mandelbrot".spec_bytes()[2] == 0x6eu8,
        "Mandelbrot".spec_bytes().len() == 10
            && "Mandelbrot".spec_bytes()[0] == 0x4du8
            && "Mandelbrot".spec_bytes()[1] == 0x61u8
            && "Mandelbrot".spec_bytes()[2] == 0x6eu8,
{
    assert("-x".spec_bytes().len() == 2
        && "-x".spec_bytes()[0] == 0x2du8
        && "-x".spec_bytes()[1] == 0x78u8) by {
        reveal_strlit("-x");
        lemma_word_bytes("-x");
    }
    assert("--x_coor".spec_bytes().len() == 8
        && "--x_coor".spec_bytes()[0] == 0x2du8
        && "--x_coor".spec_bytes()[1] == 0x2du8
        && "--x_coor".spec_bytes()[2] == 0x78u8) by {
        reveal_strlit("--x_coor");
        lemma_word_bytes("--x_coor");
    }
    assert("-y".spec_bytes().len() == 2
        && "-y".spec_bytes()[0] == 0x2du8
        && "-y".spec_bytes()[1] == 0x79u8) by {
        reveal_strlit("-y");
        lemma_word_bytes("-y");
    }
    assert("--y_coor".spec_bytes().len() == 8
        && "--y_coor".spec_bytes()[0] == 0x2du8
        && "--y_coor".spec_bytes()[1] == 0x2du8
        && "--y_coor".spec_bytes()[2] == 0x79u8) by {
        reveal_strlit("--y_coor");
        lemma_word_bytes("--y_coor");
    }
    assert("-r".spec_bytes().len() == 2
        && "-r".spec_bytes()[0] == 0x2du8
        && "-r".spec_bytes()[1] == 0x72u8) by {
        reveal_strlit("-r");
        lemma_word_bytes("-r");
    }
    assert("--range".spec_bytes().len() == 7
        && "--range".spec_bytes()[0] == 0x2du8
        && "--range".spec_bytes()[1] == 0x2du8
        && "--range".spec_bytes()[2] == 0x72u8) by {
        reveal_strlit("--range");
        lemma_word_bytes("--range");
    }
    assert("-w".spec_bytes().len() == 2
        && "-w".spec_bytes()[0] == 0x2du8
        && "-w".spec_bytes()[1] == 0x77u8) by {
        reveal_strlit("-w");
        lemma_word_bytes("-w");
    }
    assert("--width".spec_bytes().len() == 7
        && "--width".spec_bytes()[0] == 0x2du8
        && "--width".spec_bytes()[1] == 0x2du8
        && "--width".spec_bytes()[2] == 0x77u8) by {
        reveal_strlit("--width");
        lemma_word_bytes("--width");
    }
    assert("-ht".spec_bytes().len() == 3
        && "-ht".spec_bytes()[0] == 0x2du8
        && "-ht".spec_bytes()[1] == 0x68u8
        && "-ht".spec_bytes()[2] == 0x74u8) by {
        reveal_strlit("-ht");
        lemma_word_bytes("-ht");
    }
    assert("--height".spec_bytes().len() == 8
        && "--height".spec_bytes()[0] == 0x2du8
        && "--height".spec_bytes()[1] == 0x2du8
        && "--height".spec_bytes()[2] == 0x68u8) by {
        reveal_strlit("--height");
        lemma_word_bytes("--height");
    }
    assert("-a".spec_bytes().len() == 2
        && "-a".spec_bytes()[0] == 0x2du8
        && "-a".spec_bytes()[1] == 0x61u8) by {
        reveal_strlit("-a");
        lemma_word_bytes("-a");
    }
    assert("--algorithm".spec_bytes().len() == 11
        && "--algorithm".spec_bytes()[0] == 0x2du8
        && "--algorithm".spec_bytes()[1] == 0x2du8
        && "--algorithm".spec_bytes()[2] == 0x61u8) by {
        reveal_strlit("--algorithm");
        lemma_word_bytes("--algorithm");
    }
    assert("-z".spec_bytes().len() == 2
        && "-z".spec_bytes()[0] == 0x2du8
        && "-z".spec_bytes()[1] == 0x7au8) by {
        reveal_strlit("-z");
        lemma_word_bytes("-z");
    }
    assert("--zoom".spec_bytes().len() == 6
        && "--zoom".spec_bytes()[0] == 0x2du8
        && "--zoom".spec_bytes()[1] == 0x2du8
        && "--zoom".spec_bytes()[2] == 0x7au8) by {
        reveal_strlit("--zoom");
        lemma_word_bytes("--zoom");
    }
    assert("-f".spec_bytes().len() == 2
        && "-f".spec_bytes()[0] == 0x2du8
        && "-f".spec_bytes()[1] == 0x66u8) by {
        reveal_strlit("-f");
        lemma_word_bytes("-f");
    }
    assert("--frames".spec_bytes().len() == 8
        && "--frames".spec_bytes()[0] == 0x2du8
        && "--frames".spec_bytes()[1] == 0x2du8
        && "--frames".spec_bytes()[2] == 0x66u8) by {
        reveal_strlit("--frames");
        lemma_word_bytes("--frames");
    }
    assert("-t".spec_bytes().len() == 2
        && "-t".spec_bytes()[0] == 0x2du8
        && "-t".spec_bytes()[1] == 0x74u8) by {
        reveal_strlit("-t");
        lemma_word_bytes("-t");
    }
    assert("--threads".spec_bytes().len() == 9
        && "--threads".spec_bytes()[0] == 0x2du8
        && "--threads".spec_bytes()[1] == 0x2du8
        && "--threads".spec_bytes()[2] == 0x74u8) by {
        reveal_strlit("--threads");
        lemma_word_bytes("--threads");
    }
    assert("-h".spec_bytes().len() == 2
        && "-h".spec_bytes()[0] == 0x2du8
        && "-h".spec_bytes()[1] == 0x68u8) by {
        reveal_strlit("-h");
        lemma_word_bytes("-h");
    }
    assert("--help".spec_bytes().len() == 6
        && "--help".spec_bytes()[0] == 0x2du8
        && "--help".spec_bytes()[1] == 0x2du8
        && "--help".spec_bytes()[2] == 0x68u8) by {
        reveal_strlit("--help");
        lemma_word_bytes("--help");
    }
    assert("mandelbrot".spec_bytes().len() == 10
        && "mandelbrot".spec_bytes()[0] == 0x6du8
        && "mandelbrot".spec_bytes()[1] == 0x61u8
        && "mandelbrot".spec_bytes()[2] == 0x6eu8) by {
        reveal_strlit("mandelbrot");
        lemma_word_bytes("mandelbrot");
    }
    assert("Mandelbrot".spec_bytes().len() == 10
        && "Mandelbrot".spec_bytes()[0] == 0x4du8
        && "Mandelbrot".spec_bytes()[1] == 0x61u8
        && "Mandelbrot".spec_bytes()[2] == 0x6eu8) by {
        reveal_strlit("Mandelbrot");
        lemma_word_bytes("Mandelbrot");
    }
}

/// Every spelling of a flag announces its own setting, the two requests
/// for help and the names of the rules are no flags, and a rule's name is
/// no request for help.
pub proof fn lemma_flag_table()
    ensures
        flag_state("-x".spec_bytes()) == Some(ArgState::FocalX),
        flag_state("--x_coor".spec_bytes()) == Some(ArgState::FocalX),
        flag_state("-y".spec_bytes()) == Some(ArgState::FocalY),
        flag_state("--y_coor".spec_bytes()) == Some(ArgState::FocalY),
        flag_state("-r".spec_bytes()) == Some(ArgState::RangeWidth),
        flag_state("--range".spec_bytes()) == Some(ArgState::RangeWidth),
        flag_state("-w".spec_bytes()) == Some(ArgState::ImageWidth),
        flag_state("--width".spec_bytes()) == Some(ArgState::ImageWidth),
        flag_state("-ht".spec_bytes()) == Some(ArgState::ImageHeight),
        flag_state("--height".spec_bytes()) == Some(ArgState::ImageHeight),
        flag_state("-a".spec_bytes()) == Some(ArgState::Algorithm),
        flag_state("--algorithm".spec_bytes()) == Some(ArgState::Algorithm),
        flag_state("-z".spec_bytes()) == Some(ArgState::Zoom),
        flag_state("--zoom".spec_bytes()) == Some(ArgState::Zoom),
        flag_state("-f".spec_bytes()) == Some(ArgState::FrameCount),
        flag_state("--frames".spec_bytes()) == Some(ArgState::FrameCount),
        flag_state("-t".spec_bytes()) == Some(ArgState::ThreadCount),
        flag_state("--threads".spec_bytes()) == Some(ArgState::ThreadCount),
        flag_state("-h".spec_bytes()) is None && is_help("-h".spec_bytes()),
        flag_state("--help".spec_bytes()) is None && is_help("--help".spec_bytes()),
        flag_state("mandelbrot".spec_bytes()) is None && !is_help("mandelbrot".spec_bytes()),
        algorithm_named("mandelbrot".spec_bytes()) == Some(Algorithm::Mandelbrot),
        flag_state("Mandelbrot".spec_bytes()) is None && !is_help("Mandelbrot".spec_bytes()),
        algorithm_named("Mandelbrot".spec_bytes()) == Some(Algorithm::Mandelbrot),
{
    lemma_word_heads();
}

} // verus!
