use grid_ui::grid::{Alignment, DividerStrategy, Grid};
use grid_ui::out::{Action, Handler, OutToString, SafeHandler};
use grid_ui::process::DrawProcess;
use grid_ui::trim::{FormatError, Ignore, TrimStrategy, TrimmedText};

fn grid(start_x: usize, start_y: usize, end_x: usize, end_y: usize) -> Grid {
    Grid { start_x, start_y, end_x, end_y }
}

/// Breaks the input into lines as wide as the process, the last one padded
/// with spaces; what finds no room comes back joined.
struct Wrap {
    trimmed: usize,
    given_back: usize,
}

impl TrimStrategy for Wrap {
    type Input = String;
    type Error = String;

    fn trim(&mut self, text: String, chunk: &DrawProcess, _a: Alignment) -> Vec<TrimmedText> {
        self.trimmed += 1;
        let width = chunk.width();
        let chars: Vec<char> = text.chars().collect();
        chars
            .chunks(width.max(1))
            .map(|part| {
                let mut line: String = part.iter().collect();
                while line.chars().count() < width {
                    line.push(' ');
                }
                TrimmedText(line)
            })
            .collect()
    }

    fn back(&mut self, text: Vec<TrimmedText>, _chunk: &DrawProcess, _a: Alignment) -> String {
        self.given_back += 1;
        text.into_iter().map(|t| t.0).collect::<Vec<_>>().join("|")
    }
}

/// Records every action, and fails on the action with the given number.
struct Recorder {
    fail_at: Option<usize>,
}

impl Handler for Recorder {
    type OutputDevice = Vec<String>;
    type Error = usize;

    fn handle(&mut self, out: &mut Vec<String>, input: &Action) -> Result<(), usize> {
        if self.fail_at == Some(out.len()) {
            return Err(out.len());
        }
        match input {
            Action::MoveTo(x, y) => out.push(format!("@{},{}", x, y)),
            Action::Print(text) => out.push(format!("={}", text)),
        }
        Ok(())
    }
}

impl SafeHandler for Recorder {
    fn safe_handle(&mut self, out: &mut Vec<String>, input: &Action) {
        match input {
            Action::MoveTo(x, y) => out.push(format!("@{},{}", x, y)),
            Action::Print(text) => out.push(format!("={}", text)),
        }
    }
}

#[test]
fn a_strategy_may_make_several_lines() {
    let mut wrap = Wrap { trimmed: 0, given_back: 0 };
    let mut process = grid(0, 0, 3, 4).into_process(DividerStrategy::Beginning);
    assert!(process.add_to_section("abcdefg".to_string(), &mut wrap, Alignment::Plus).is_ok());
    let mut output = String::new();
    process.print_safe(&mut OutToString, &mut output);
    assert_eq!(output, "abc\ndef\ng  \n   \n");
    assert_eq!((wrap.trimmed, wrap.given_back), (1, 0));
}

#[test]
fn a_strategy_may_make_no_line() {
    let mut wrap = Wrap { trimmed: 0, given_back: 0 };
    let mut process = grid(0, 0, 3, 0).into_process(DividerStrategy::Beginning);
    assert!(process.add_to_section(String::new(), &mut wrap, Alignment::Plus).is_ok());
    assert!(process.add_to_section(String::new(), &mut wrap, Alignment::Minus).is_ok());
    assert_eq!((wrap.trimmed, wrap.given_back), (2, 0));
}

#[test]
fn lines_placed_before_the_section_was_full_stay() {
    let mut wrap = Wrap { trimmed: 0, given_back: 0 };
    let mut process = grid(0, 0, 3, 4).into_process(DividerStrategy::Halfway);
    let res = process.add_to_section("abcdefghijkl".to_string(), &mut wrap, Alignment::Plus);
    match res {
        Err(FormatError::NoSpace(back)) => assert_eq!(back, "ghi|jkl"),
        Ok(()) => panic!("four lines found room in two rows"),
    }
    assert_eq!((wrap.trimmed, wrap.given_back), (1, 1));
    let mut output = String::new();
    process.print_safe(&mut OutToString, &mut output);
    assert_eq!(output, "   \n   \nabc\ndef\n");
}

#[test]
fn several_lines_in_minus_read_upwards() {
    let mut wrap = Wrap { trimmed: 0, given_back: 0 };
    let mut process = grid(0, 0, 3, 4).into_process(DividerStrategy::End);
    assert!(process.add_to_section("abcdef".to_string(), &mut wrap, Alignment::Minus).is_ok());
    let res = process.add_to_section("ghijklmno".to_string(), &mut wrap, Alignment::Minus);
    match res {
        Err(FormatError::NoSpace(back)) => assert_eq!(back, "mno"),
        Ok(()) => panic!("five lines found room in four rows"),
    }
    let mut output = String::new();
    process.print_safe(&mut OutToString, &mut output);
    assert_eq!(output, "jkl\nghi\ndef\nabc\n");
}

#[test]
fn a_batch_with_a_wrapping_strategy() {
    let mut wrap = Wrap { trimmed: 0, given_back: 0 };
    let mut process = grid(0, 0, 2, 3).into_process(DividerStrategy::Beginning);
    let results = process.add_to_section_lines(
        vec!["abcd".to_string(), "efgh".to_string(), "".to_string()],
        &mut wrap,
        Alignment::Plus,
    );
    assert_eq!(results.len(), 3);
    assert!(results[0].is_ok());
    match &results[1] {
        Err(FormatError::NoSpace(back)) => assert_eq!(back, "gh"),
        Ok(()) => panic!("two lines found room in one row"),
    }
    assert!(results[2].is_ok());
    assert_eq!((wrap.trimmed, wrap.given_back), (3, 1));
    let mut output = String::new();
    process.print_safe(&mut OutToString, &mut output);
    assert_eq!(output, "ab\ncd\nef\n");
}

#[test]
fn print_hands_over_the_actions_in_order() {
    let mut process = grid(2, 1, 4, 3).into_process(DividerStrategy::Halfway);
    assert!(process.add_to_section("lo".to_string(), &mut Ignore, Alignment::Plus).is_ok());
    let mut seen = Vec::new();
    assert_eq!(process.print(&mut Recorder { fail_at: None }, &mut seen), Ok(()));
    assert_eq!(seen, vec!["@2,1", "=  ", "@2,2", "=lo"]);
}

#[test]
fn print_stops_at_the_first_failure() {
    let mut process = grid(2, 1, 4, 4).into_process(DividerStrategy::Halfway);
    let mut seen = Vec::new();
    assert_eq!(process.print(&mut Recorder { fail_at: Some(3) }, &mut seen), Err(3));
    assert_eq!(seen, vec!["@2,1", "=  ", "@2,2"]);
    let mut seen = Vec::new();
    assert_eq!(process.print(&mut Recorder { fail_at: Some(0) }, &mut seen), Err(0));
    assert!(seen.is_empty());
    let mut seen = Vec::new();
    assert_eq!(process.print(&mut Recorder { fail_at: Some(6) }, &mut seen), Ok(()));
    assert_eq!(seen.len(), 6);
}

#[test]
fn print_safe_hands_over_every_action() {
    let mut process = grid(0, 0, 1, 2).into_process(DividerStrategy::End);
    assert!(process.add_to_section("x".to_string(), &mut Ignore, Alignment::Minus).is_ok());
    let mut seen = Vec::new();
    process.print_safe(&mut Recorder { fail_at: Some(0) }, &mut seen);
    assert_eq!(seen, vec!["@0,0", "= ", "@0,1", "=x"]);
}

#[test]
fn out_to_string_ignores_the_cursor() {
    let mut output = String::new();
    assert_eq!(OutToString.handle(&mut output, &Action::MoveTo(3, 4)), Ok(()));
    assert_eq!(output, "");
    assert_eq!(OutToString.handle(&mut output, &Action::Print("abc")), Ok(()));
    assert_eq!(output, "abc\n");
    OutToString.safe_handle(&mut output, &Action::MoveTo(0, 0));
    OutToString.safe_handle(&mut output, &Action::Print(""));
    assert_eq!(output, "abc\n\n");
}

#[test]
fn ignore_passes_the_text_through() {
    let process = grid(0, 0, 2, 2).into_process(DividerStrategy::Halfway);
    let lines = Ignore.trim("much too long".to_string(), &process, Alignment::Plus);
    assert_eq!(lines, vec![TrimmedText("much too long".to_string())]);
    let back = Ignore.back(lines.clone(), &process, Alignment::Minus);
    assert_eq!(back, lines);
}
