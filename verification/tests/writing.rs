use riostream::console::Console;
use riostream::sink::Request;
use riostream::stream::{endl, flush, rerr, rout};

#[test]
fn test() {
    let mut console = Console::new();
    rout.write(&mut console, 1)
        .write(&mut console, " ")
        .write(&mut console, "HelloWorld!")
        .terminate(&mut console, endl);
    assert_eq!(console.out.emitted(), b"1 HelloWorld!\n".to_vec());
    assert_eq!(console.out.delivered(), b"1 HelloWorld!\n".to_vec());
    assert_eq!(
        console.out.requests(),
        &[
            Request::Write(b"1".to_vec()),
            Request::Write(b" ".to_vec()),
            Request::Write(b"HelloWorld!".to_vec()),
            Request::Write(b"\n".to_vec()),
            Request::Flush,
        ]
    );
    assert!(console.err.requests().is_empty());
    assert_eq!(console.input.pending(), "");
}

#[test]
fn write_emits_the_text_and_nothing_else() {
    let mut console = Console::new();
    let _ = rout.write(&mut console, -305i64);
    assert_eq!(console.out.requests(), &[Request::Write(b"-305".to_vec())]);
    assert_eq!(console.out.emitted(), b"-305".to_vec());
    assert_eq!(console.out.delivered(), Vec::<u8>::new());
}

#[test]
fn write_encodes_text_as_utf8() {
    let mut console = Console::new();
    let _ = rout.write(&mut console, "h\u{e9}llo \u{4e16}\u{754c} \u{1f600}");
    assert_eq!(
        console.out.emitted(),
        vec![
            0x68, 0xc3, 0xa9, 0x6c, 0x6c, 0x6f, 0x20, 0xe4, 0xb8, 0x96, 0xe7, 0x95, 0x8c, 0x20,
            0xf0, 0x9f, 0x98, 0x80
        ]
    );
}

#[test]
fn write_takes_owned_and_borrowed_values() {
    let mut console = Console::new();
    let owned = String::from("owned");
    let number = 17u8;
    let _ = rout
        .write(&mut console, &owned)
        .write(&mut console, &number)
        .write(&mut console, owned);
    assert_eq!(console.out.emitted(), b"owned17owned".to_vec());
}

#[test]
fn write_of_empty_text_is_still_a_write() {
    let mut console = Console::new();
    let _ = rout.write(&mut console, "");
    assert_eq!(console.out.requests(), &[Request::Write(Vec::new())]);
    assert_eq!(console.out.emitted(), Vec::<u8>::new());
}

#[test]
fn terminate_appends_one_line_feed_and_flushes() {
    let mut console = Console::new();
    let next = rout.write(&mut console, "abc");
    assert_eq!(console.out.delivered(), Vec::<u8>::new());
    next.terminate(&mut console, endl);
    assert_eq!(console.out.emitted(), b"abc\n".to_vec());
    assert_eq!(console.out.delivered(), b"abc\n".to_vec());
    assert_eq!(console.out.requests().last(), Some(&Request::Flush));
}

#[test]
fn terminate_alone_writes_only_the_line_feed() {
    let mut console = Console::new();
    rout.terminate(&mut console, endl);
    assert_eq!(
        console.out.requests(),
        &[Request::Write(vec![10]), Request::Flush]
    );
}

#[test]
fn flush_writes_nothing() {
    let mut console = Console::new();
    rout.write(&mut console, "abc").flush(&mut console, flush);
    assert_eq!(
        console.out.requests(),
        &[Request::Write(b"abc".to_vec()), Request::Flush]
    );
    assert_eq!(console.out.emitted(), b"abc".to_vec());
    assert_eq!(console.out.delivered(), b"abc".to_vec());
}

#[test]
fn bytes_after_the_last_flush_are_not_delivered() {
    let mut console = Console::new();
    rout.write(&mut console, "a").flush(&mut console, flush);
    rout.write(&mut console, "b").terminate(&mut console, endl);
    let _ = rout.write(&mut console, "c");
    assert_eq!(console.out.emitted(), b"ab\nc".to_vec());
    assert_eq!(console.out.delivered(), b"ab\n".to_vec());
}

#[test]
fn chain_keeps_the_order_of_its_writes() {
    let mut console = Console::new();
    let _ = rout
        .write(&mut console, "first,")
        .write(&mut console, 2u32)
        .write(&mut console, ",third");
    assert_eq!(console.out.emitted(), b"first,2,third".to_vec());
    assert_eq!(
        console.out.requests(),
        &[
            Request::Write(b"first,".to_vec()),
            Request::Write(b"2".to_vec()),
            Request::Write(b",third".to_vec()),
        ]
    );
}

#[test]
fn two_chains_follow_each_other() {
    let mut console = Console::new();
    rout.write(&mut console, 1).terminate(&mut console, endl);
    rout.write(&mut console, 2).terminate(&mut console, endl);
    assert_eq!(console.out.emitted(), b"1\n2\n".to_vec());
}

#[test]
fn diagnostic_channel_is_apart_from_the_primary_one() {
    let mut console = Console::new();
    rerr.write(&mut console, 42)
        .write(&mut console, "Hello, World!!")
        .terminate(&mut console, endl);
    rout.write(&mut console, "out").flush(&mut console, flush);
    rerr.write(&mut console, "!").flush(&mut console, flush);
    assert_eq!(console.err.emitted(), b"42Hello, World!!\n!".to_vec());
    assert_eq!(console.err.delivered(), b"42Hello, World!!\n!".to_vec());
    assert_eq!(console.out.emitted(), b"out".to_vec());
    assert_eq!(
        console.err.requests(),
        &[
            Request::Write(b"42".to_vec()),
            Request::Write(b"Hello, World!!".to_vec()),
            Request::Write(vec![10]),
            Request::Flush,
            Request::Write(b"!".to_vec()),
            Request::Flush,
        ]
    );
}

#[test]
fn writing_leaves_the_input_alone() {
    let mut console = Console::new();
    console.input.feed("still here\n");
    rout.write(&mut console, 5).terminate(&mut console, endl);
    rerr.flush(&mut console, flush);
    assert_eq!(console.input.pending(), "still here\n");
}
