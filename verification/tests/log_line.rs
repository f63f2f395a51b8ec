use facts::log_line::{is_end_marker, LogLine};
use regex::Regex;

/// The shapes of lines as regular expressions.
struct Shapes {
    error: Regex,
    state: Regex,
    event: Regex,
    goodbye: Regex,
}

fn shapes() -> Shapes {
    Shapes {
        error: Regex::new(r"^\s*\d+\.\d+\sError\s.+?\s+(?P<msg>.+?)\s*$").unwrap(),
        state: Regex::new(
            r"^\s*\d+\.\d+\sInfo.+?changing\sstate\sfrom\(.+?\)\sto\((?P<newstate>.+?)\)$",
        )
        .unwrap(),
        event: Regex::new(
            r"^\d{4,}+-\d{2}-\d{2}\s\d{2}:\d{2}:\d{2}\s\[(?P<event>.+?)\]\s(?P<msg>.+)$",
        )
        .unwrap(),
        goodbye: Regex::new(r"^\s*\d+\.\d+\sGoodbye$").unwrap(),
    }
}

fn by_regex(shapes: &Shapes, line: &str) -> LogLine {
    let (error, state, event) = (&shapes.error, &shapes.state, &shapes.event);
    if let Some(cap) = error.captures(line) {
        LogLine::Error(cap["msg"].to_string())
    } else if let Some(cap) = state.captures(line) {
        LogLine::Transition(cap["newstate"].to_string())
    } else if let Some(cap) = event.captures(line) {
        LogLine::Event(cap["event"].to_string(), cap["msg"].to_string())
    } else {
        LogLine::Other
    }
}


fn corpus() -> Vec<String> {
    let mut lines: Vec<String> = vec![
        "",
        " ",
        "0.1",
        "0.1 ",
        "   0.000 2020-01-01 12:00:00; Factorio 0.18.1 (build 1, linux64, headless)",
        "   0.531 Info ServerMultiplayerManager.cpp:776: updateTick(4294967295) changing state from(Ready) to(PreparedToHostGame)",
        "0.1 Info changing state from(Start) to(Ready)",
        "0.1 Info  changing state from(Start) to(Ready)",
        "0.1 Info x changing state from(Start) to(Ready)",
        "0.2 Info x changing state from(Ready) to(InGame)",
        "0.2 Info x changing state from(A) to(B) to(C)",
        "0.2 Info x changing state from(A) to(B) changing state from(C) to(D)",
        "0.2 Info x changing state from() to(B)",
        "0.2 Info x changing state from(A) to()",
        "0.2 Info x changing state from(A) to(B) ",
        "0.2 Info x changing state from(A)  to(B)",
        "0.2 Info x changing  state from(A) to(B)",
        "0.2 Info x changing\tstate\u{a0}from(A)\u{2003}to(B)",
        "0.2 Info x changing state from(A) to(B))",
        "0.2 Info x changing state from()) to(B)",
        "0.2 Info x changing state from(A\nB) to(C)",
        "0.2 Info x\ny changing state from(A) to(C)",
        "0.2 Info x changing state from(A) to(C\nD)",
        "0.2 Info x changing state from(A) to(C)\n",
        "0.2 Infox changing state from(A) to(C)",
        "0.2 info x changing state from(A) to(C)",
        " \t 12.345 Info x changing state from(InGame) to(InGameSavingMap)",
        "12. Info x changing state from(InGame) to(InGameSavingMap)",
        ".5 Info x changing state from(InGame) to(InGameSavingMap)",
        "1.5Info x changing state from(InGame) to(InGameSavingMap)",
        "1.5  Info x changing state from(InGame) to(InGameSavingMap)",
        "a 1.5 Info x changing state from(InGame) to(InGameSavingMap)",
        "   0.531 Error ServerMultiplayerManager.cpp:776: MultiplayerManager failed: Host address is already in use.",
        "   0.531 Error ServerMultiplayerManager.cpp:776: MultiplayerManager failed: Host address is already in use.   ",
        "   0.531 Error ServerMultiplayerManager.cpp:776:    MultiplayerManager failed: Host address is already in use.\t",
        "0.5 Error a b",
        "0.5 Error a  b  ",
        "0.5 Error a b c",
        "0.5 Error  a b",
        "0.5 Error a",
        "0.5 Error a ",
        "0.5 Error a  ",
        "0.5 Error a   ",
        "0.5 Error a \n",
        "0.5 Error a \n ",
        "0.5 Error a  \n",
        "0.5 Error a b\n",
        "0.5 Error a b\nc",
        "0.5 Error a\nb c",
        "0.5 Error \n b c",
        "0.5 Error",
        "0.5 Error ",
        "0.5 Error  ",
        "0.5 Error   ",
        "0.5 Error    ",
        "0.5 Errors a b",
        "0.5 Error Info x changing state from(A) to(B)",
        "2020-01-01 12:00:00 [JOIN] Alice joined the game",
        "2020-01-01 12:00:05 [LEAVE] Alice left the game",
        "2020-01-01 12:00:05 [CHAT] Alice: hello [world] you",
        "2020-01-01 12:00:05 [CHAT] ] x",
        "2020-01-01 12:00:05 []] x",
        "2020-01-01 12:00:05 [] x",
        "2020-01-01 12:00:05 [A] ",
        "2020-01-01 12:00:05 [A]  ",
        "2020-01-01 12:00:05 [A]",
        "2020-01-01 12:00:05 [A]x",
        "2020-01-01 12:00:05 [A]] y",
        "2020-01-01 12:00:05 [A\nB] y",
        "2020-01-01 12:00:05 [A] y\n",
        "2020-01-01 12:00:05 [A] y\nz",
        "2020-01-01 12:00:05 [A] [B] y",
        "2020-01-01 12:00:05 [A]\ty",
        "2020-01-01\t12:00:05\u{3000}[A] y",
        "12020-01-01 12:00:05 [A] y",
        "202-01-01 12:00:05 [A] y",
        "2020-1-01 12:00:05 [A] y",
        "2020-01-01 12:00:5 [A] y",
        "2020-01-011 12:00:05 [A] y",
        "2020-01-01  12:00:05 [A] y",
        " 2020-01-01 12:00:05 [A] y",
        "2020-01-01 12:00:05 (A) y",
        "2020/01/01 12:00:05 [A] y",
        "\u{661}\u{662}.\u{6f3} Info x changing state from(Ready) to(InGame)",
        "1.\u{1d7ce} Error a b",
        "\u{ff11}.\u{ff12} Goodbye",
        "\u{966}\u{967}\u{968}\u{969}-\u{e50}\u{e51}-01 1\u{1e950}:00:05 [A] y",
        "\u{2160}.5 Goodbye",
        "\u{b2}.5 Goodbye",
        "1.5\u{2028}Goodbye",
        "  12.5 Goodbye",
        "12.5 Goodbye",
        "12.5 Goodbye ",
        "12.5 Goodbye\n",
        "12.5  Goodbye",
        "12.5\tGoodbye",
        "12.5 goodbye",
        "12.5 Goodby",
        "Goodbye",
        "12 Goodbye",
        "1.2.3 Goodbye",
    ]
    .into_iter()
    .map(|s| s.to_string())
    .collect();
    // Every line, cut at every position: most are no line of any shape.
    let whole = lines.clone();
    for line in whole.iter() {
        let chars: Vec<char> = line.chars().collect();
        for cut in 0..chars.len() {
            lines.push(chars[..cut].iter().collect());
            lines.push(chars[cut..].iter().collect());
        }
    }
    lines
}

#[test]
fn classify_agrees_with_the_regular_expressions() {
    let shapes = shapes();
    for line in corpus() {
        assert_eq!(LogLine::classify(&line), by_regex(&shapes, &line), "line {:?}", line);
    }
}

#[test]
fn end_marker_agrees_with_the_regular_expression() {
    let shapes = shapes();
    for line in corpus() {
        assert_eq!(is_end_marker(&line), shapes.goodbye.is_match(&line), "line {:?}", line);
    }
}

#[test]
fn state_line_gives_the_new_state() {
    assert_eq!(
        LogLine::classify("0.1 Info x changing state from(Start) to(Ready)"),
        LogLine::Transition("Ready".to_string())
    );
}

#[test]
fn state_line_needs_free_text_after_info() {
    assert_eq!(LogLine::classify("0.1 Infochanging state from(Start) to(Ready)"), LogLine::Other);
    assert_eq!(
        LogLine::classify("0.1 Info changing state from(Start) to(Ready)"),
        LogLine::Transition("Ready".to_string())
    );
}

#[test]
fn state_line_prefers_the_shortest_old_name() {
    assert_eq!(
        LogLine::classify("0.2 Info x changing state from(A) to(B) to(C)"),
        LogLine::Transition("B) to(C".to_string())
    );
}

#[test]
fn error_line_gives_the_trimmed_message() {
    assert_eq!(
        LogLine::classify("0.5 Error main.cpp:1:   out of luck  \t"),
        LogLine::Error("out of luck".to_string())
    );
}

#[test]
fn error_line_without_message_takes_a_space() {
    assert_eq!(LogLine::classify("0.5 Error a  "), LogLine::Error(" ".to_string()));
    assert_eq!(LogLine::classify("0.5 Error a "), LogLine::Other);
}

#[test]
fn error_line_comes_before_state_line() {
    assert_eq!(
        LogLine::classify("0.5 Error Info x changing state from(A) to(B)"),
        LogLine::Error("x changing state from(A) to(B)".to_string())
    );
}

#[test]
fn event_line_gives_tag_and_message() {
    assert_eq!(
        LogLine::classify("2020-01-01 12:00:05 [CHAT] Alice: hello [world] you"),
        LogLine::Event("CHAT".to_string(), "Alice: hello [world] you".to_string())
    );
}

#[test]
fn event_line_prefers_the_shortest_tag() {
    assert_eq!(
        LogLine::classify("2020-01-01 12:00:05 [A] [B] y"),
        LogLine::Event("A".to_string(), "[B] y".to_string())
    );
}

#[test]
fn other_lines_are_other() {
    assert_eq!(LogLine::classify(""), LogLine::Other);
    assert_eq!(
        LogLine::classify("   0.000 2020-01-01 12:00:00; Factorio 0.18.1 (build 1, linux64, headless)"),
        LogLine::Other
    );
}

#[test]
fn end_marker_takes_the_whole_line() {
    assert!(is_end_marker("  12.5 Goodbye"));
    assert!(!is_end_marker("12.5 Goodbye "));
    assert!(!is_end_marker("Goodbye"));
}

/// A small generator of numbers that gives the same series every time.
struct Series(u64);

impl Series {
    fn next(&mut self, bound: usize) -> usize {
        self.0 = self.0.wrapping_mul(6364136223846793005).wrapping_add(1442695040888963407);
        ((self.0 >> 33) as usize) % bound
    }
}

/// `line` with a few characters put in, taken out or changed.
fn garbled(series: &mut Series, line: &str) -> String {
    let alphabet: Vec<char> = " \t\n\u{a0}09.\u{663}-:[]()EIx]) to(changing state from(".chars().collect();
    let mut chars: Vec<char> = line.chars().collect();
    for _ in 0..1 + series.next(3) {
        let c = alphabet[series.next(alphabet.len())];
        let at = series.next(chars.len() + 1);
        match series.next(3) {
            0 => chars.insert(at, c),
            1 if at < chars.len() => {
                chars.remove(at);
            },
            _ if at < chars.len() => chars[at] = c,
            _ => chars.push(c),
        }
    }
    chars.into_iter().collect()
}

#[test]
fn classify_agrees_on_garbled_lines() {
    let shapes = shapes();
    let seeds = [
        "   0.531 Info ServerMultiplayerManager.cpp:776: updateTick(4294967295) changing state from(Ready) to(PreparedToHostGame)",
        "0.2 Info x changing state from(A) to(B) to(C)",
        "0.2 Info changing state from(A) changing state from(B) to(C)",
        "   0.531 Error ServerMultiplayerManager.cpp:776: MultiplayerManager failed: Host address is already in use.",
        "0.5 Error a  b  ",
        "0.5 Error a   ",
        "2020-01-01 12:00:05 [CHAT] Alice: hello [world] you",
        "2020-01-01 12:00:00 [JOIN] Alice joined the game",
        "  12.5 Goodbye",
    ];
    let mut series = Series(2020);
    for round in 0..4000 {
        let line = garbled(&mut series, seeds[round % seeds.len()]);
        assert_eq!(LogLine::classify(&line), by_regex(&shapes, &line), "line {:?}", line);
        assert_eq!(is_end_marker(&line), shapes.goodbye.is_match(&line), "line {:?}", line);
    }
}
