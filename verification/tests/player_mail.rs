use ec_data::player_mail::{
    escape_field, format_mail_line, parse_mail_queue, unescape_field, MailQueueError,
    QueuedPlayerMail,
};

fn mail(sender: u8, recipient: u8, year: u16, body: &str) -> QueuedPlayerMail {
    QueuedPlayerMail {
        sender_empire_id: sender,
        recipient_empire_id: recipient,
        year,
        body: body.to_string(),
    }
}

#[test]
fn escape_field_escapes_backslash_newline_and_tab() {
    assert_eq!(escape_field("a\\b\nc\td"), "a\\\\b\\nc\\td");
    assert_eq!(escape_field("plain"), "plain");
}

#[test]
fn unescape_field_reverses_escapes_and_keeps_unknown_ones() {
    assert_eq!(unescape_field("a\\\\b\\nc\\td"), "a\\b\nc\td");
    assert_eq!(unescape_field("x\\qy"), "x\\qy");
    assert_eq!(unescape_field("end\\"), "end\\");
}

#[test]
fn unescape_after_escape_gives_back_the_body() {
    for body in ["", "hello", "tab\there", "line\nbreak", "back\\slash\\n", "\\\t\n\\"] {
        assert_eq!(unescape_field(&escape_field(body)), body);
    }
}

#[test]
fn format_mail_line_writes_tab_separated_fields() {
    let line = format_mail_line(&mail(1, 2, 3001, "hi\tthere"));
    assert_eq!(line, "1\t2\t3001\thi\\tthere\n");
}

#[test]
fn parse_mail_queue_reads_written_lines() {
    let first = mail(3, 4, 3002, "Greetings\nfrom afar");
    let second = mail(200, 1, 65535, "");
    let mut text = String::new();
    text.push_str(&format_mail_line(&first));
    text.push_str(&format_mail_line(&second));
    let parsed = parse_mail_queue(&text).expect("queue");
    assert_eq!(parsed, vec![first, second]);
}

#[test]
fn parse_mail_queue_skips_blank_and_short_lines() {
    let text = "\n   \n1\t2\t3\n4\t5\t6\tbody\r\n";
    let parsed = parse_mail_queue(text).expect("queue");
    assert_eq!(parsed, vec![mail(4, 5, 6, "body")]);
}

#[test]
fn parse_mail_queue_keeps_tabs_after_the_third_field() {
    let parsed = parse_mail_queue("1\t2\t3\ta\tb").expect("queue");
    assert_eq!(parsed, vec![mail(1, 2, 3, "a\tb")]);
}

#[test]
fn parse_mail_queue_accepts_a_plus_sign() {
    let parsed = parse_mail_queue("+7\t8\t9\tx").expect("queue");
    assert_eq!(parsed, vec![mail(7, 8, 9, "x")]);
}

#[test]
fn parse_mail_queue_reports_bad_numbers() {
    assert_eq!(parse_mail_queue("x\t2\t3\tb"), Err(MailQueueError::InvalidDigit));
    assert_eq!(parse_mail_queue("256\t1\t1\tb"), Err(MailQueueError::PosOverflow));
    assert_eq!(parse_mail_queue("\t1\t1\tb"), Err(MailQueueError::Empty));
    assert_eq!(parse_mail_queue("+\t1\t1\tb"), Err(MailQueueError::InvalidDigit));
    assert_eq!(parse_mail_queue("1\t2\t70000\tb"), Err(MailQueueError::PosOverflow));
    assert_eq!(parse_mail_queue("-1\t2\t3\tb"), Err(MailQueueError::InvalidDigit));
}

#[test]
fn parse_mail_queue_stops_at_the_first_bad_line() {
    let text = "1\t2\t3\tok\nbad\t2\t3\tx\n";
    assert_eq!(parse_mail_queue(text), Err(MailQueueError::InvalidDigit));
}
