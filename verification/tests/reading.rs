use riostream::console::Console;
use riostream::stream::{flush, rin, Failure};

#[test]
fn read_stores_the_integer_of_the_line() {
    let mut console = Console::new();
    console.input.feed("42\n");
    let mut target: i32 = 0;
    let next = rin.read(&mut console, &mut target);
    assert_eq!(next, Ok(rin));
    assert_eq!(target, 42);
    assert_eq!(console.input.pending(), "");
}

#[test]
fn read_fails_on_a_line_that_is_no_integer() {
    let mut console = Console::new();
    console.input.feed("abc\n");
    let mut target: i32 = 7;
    let next = rin.read(&mut console, &mut target);
    assert_eq!(
        next,
        Err(Failure::Parse(String::from("\"abc\n\" is not a i32")))
    );
    assert_eq!(target, 7);
    assert_eq!(console.input.pending(), "");
}

#[test]
fn read_fails_at_the_end_of_the_input() {
    let mut console = Console::new();
    let mut number: u64 = 9;
    assert_eq!(rin.read(&mut console, &mut number), Err(Failure::Read));
    assert_eq!(number, 9);
    let mut text = String::from("kept");
    assert_eq!(rin.read(&mut console, &mut text), Err(Failure::Read));
    assert_eq!(text, "kept");
    assert_eq!(console.input.pending(), "");
}

#[test]
fn read_takes_one_line_at_a_time() {
    let mut console = Console::new();
    console.input.feed("hello world\n-12\nrest");
    let mut a = String::new();
    let mut b = 42;
    let next = rin
        .read(&mut console, &mut a)
        .unwrap()
        .read(&mut console, &mut b);
    assert_eq!(next, Ok(rin));
    assert_eq!(a, "hello world");
    assert_eq!(b, -12);
    assert_eq!(console.input.pending(), "rest");
}

#[test]
fn read_takes_a_last_line_without_line_feed() {
    let mut console = Console::new();
    console.input.feed("7\n8");
    let mut first: u8 = 0;
    let mut second: u8 = 0;
    assert!(rin.read(&mut console, &mut first).is_ok());
    assert!(rin.read(&mut console, &mut second).is_ok());
    assert_eq!((first, second), (7, 8));
    assert_eq!(rin.read(&mut console, &mut second), Err(Failure::Read));
    assert_eq!(second, 8);
}

#[test]
fn read_names_a_line_without_line_feed_as_it_stands() {
    let mut console = Console::new();
    console.input.feed("1.5");
    let mut target: u16 = 3;
    assert_eq!(
        rin.read(&mut console, &mut target),
        Err(Failure::Parse(String::from("\"1.5\" is not a u16")))
    );
    assert_eq!(target, 3);
}

#[test]
fn read_of_an_empty_line() {
    let mut console = Console::new();
    console.input.feed("\n\nz\n");
    let mut text = String::from("before");
    assert!(rin.read(&mut console, &mut text).is_ok());
    assert_eq!(text, "");
    let mut number: i64 = 1;
    assert_eq!(
        rin.read(&mut console, &mut number),
        Err(Failure::Parse(String::from("\"\n\" is not a i64")))
    );
    assert_eq!(number, 1);
    assert_eq!(console.input.pending(), "z\n");
}

#[test]
fn read_keeps_text_outside_ascii() {
    let mut console = Console::new();
    console.input.feed("gr\u{fc}\u{df}e \u{1f600}\n\u{4e16}\u{754c}\n");
    let mut text = String::new();
    assert!(rin.read(&mut console, &mut text).is_ok());
    assert_eq!(text, "gr\u{fc}\u{df}e \u{1f600}");
    assert_eq!(console.input.pending(), "\u{4e16}\u{754c}\n");
    let mut number: u32 = 0;
    assert_eq!(
        rin.read(&mut console, &mut number),
        Err(Failure::Parse(String::from(
            "\"\u{4e16}\u{754c}\n\" is not a u32"
        )))
    );
}

#[test]
fn read_does_not_trim_the_line() {
    let mut console = Console::new();
    console.input.feed(" 42\n42 \n42\r\n");
    let mut target: i32 = 0;
    assert!(rin.read(&mut console, &mut target).is_err());
    assert!(rin.read(&mut console, &mut target).is_err());
    assert_eq!(
        rin.read(&mut console, &mut target),
        Err(Failure::Parse(String::from("\"42\r\n\" is not a i32")))
    );
    assert_eq!(target, 0);
}

#[test]
fn read_leaves_the_outputs_alone() {
    let mut console = Console::new();
    console.input.feed("1\n");
    let mut target: i32 = 0;
    assert!(rin.read(&mut console, &mut target).is_ok());
    assert!(console.out.requests().is_empty());
    assert!(console.err.requests().is_empty());
}

#[test]
fn drain_changes_nothing() {
    let mut console = Console::new();
    console.input.feed("5\nleft\n");
    let mut target: i32 = 0;
    rin.read(&mut console, &mut target)
        .unwrap()
        .drain(&mut console, flush);
    assert_eq!(target, 5);
    assert_eq!(console.input.pending(), "left\n");
    assert!(console.out.requests().is_empty());
    assert!(console.err.requests().is_empty());
    rin.drain(&mut console, flush);
    assert_eq!(console.input.pending(), "left\n");
}

#[test]
fn feed_adds_behind_what_is_pending() {
    let mut console = Console::new();
    console.input.feed("12");
    console.input.feed("3\n4");
    assert_eq!(console.input.pending(), "123\n4");
    let mut target: i32 = 0;
    assert!(rin.read(&mut console, &mut target).is_ok());
    assert_eq!(target, 123);
}

#[test]
fn take_line_tells_whether_the_line_was_ended() {
    let mut console = Console::new();
    console.input.feed("a\nb");
    let first = console.input.take_line().unwrap();
    assert_eq!((first.text.as_str(), first.terminated), ("a", true));
    let second = console.input.take_line().unwrap();
    assert_eq!((second.text.as_str(), second.terminated), ("b", false));
    assert!(console.input.take_line().is_none());
}

#[derive(Debug, PartialEq)]
enum Answer {
    Yes,
    No,
}

fn answer(text: &str) -> Option<Answer> {
    match text {
        "yes" => Some(Answer::Yes),
        "no" => Some(Answer::No),
        _ => None,
    }
}

#[test]
fn store_takes_what_any_parser_found() {
    let mut console = Console::new();
    console.input.feed("yes\nmaybe\n");
    let mut target = Answer::No;
    let line = console.input.take_line().unwrap();
    let found = answer(&line.text);
    assert_eq!(rin.store(&line, found, "Answer", &mut target), Ok(rin));
    assert_eq!(target, Answer::Yes);
    let line = console.input.take_line().unwrap();
    let found = answer(&line.text);
    assert_eq!(
        rin.store(&line, found, "Answer", &mut target),
        Err(Failure::Parse(String::from("\"maybe\n\" is not a Answer")))
    );
    assert_eq!(target, Answer::Yes);
}

#[test]
fn store_names_an_unended_line_without_line_feed() {
    let mut console = Console::new();
    console.input.feed("maybe");
    let mut target = Answer::No;
    let line = console.input.take_line().unwrap();
    assert_eq!(
        rin.store(&line, None, "Answer", &mut target),
        Err(Failure::Parse(String::from("\"maybe\" is not a Answer")))
    );
    assert_eq!(target, Answer::No);
}

#[test]
fn message_of_each_failure() {
    assert_eq!(Failure::Read.message(), "no line could be read");
    assert_eq!(
        Failure::Parse(String::from("\"x\" is not a u8")).message(),
        "\"x\" is not a u8"
    );
}
