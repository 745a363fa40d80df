use nvhoist::delivery::{Delivery, Event, IoFailure, NotifyError, Phase, Step};
use nvhoist::wire::encode_notification;

fn connected(command: &str) -> Delivery {
    let mut d = Delivery::new(command);
    assert_eq!(d.next_step(), Step::Connect);
    d.handle(Event::Connected);
    assert_eq!(d.next_step(), Step::Write);
    d
}

#[test]
fn fresh_delivery_asks_to_connect() {
    let d = Delivery::new("split a");
    assert_eq!(d.phase(), Phase::Unconnected);
    assert_eq!(d.sent(), 0);
    assert_eq!(d.outcome(), None);
    assert_eq!(d.unsent(), &encode_notification("split a").unwrap()[..]);
}

#[test]
fn connect_error_is_connect_failed() {
    let mut d = Delivery::new("split a");
    d.handle(Event::ConnectError);
    assert_eq!(d.next_step(), Step::Finish);
    assert_eq!(d.outcome(), Some(Err(NotifyError::ConnectFailed)));
    assert_eq!(d.sent(), 0);
}

#[test]
fn timeout_after_write_is_success() {
    let mut d = connected("split a");
    let n = d.unsent().len();
    d.handle(Event::Wrote(n));
    assert_eq!(d.next_step(), Step::Read);
    d.handle(Event::ReadError(IoFailure::WouldBlock));
    assert_eq!(d.outcome(), Some(Ok(())));
}

#[test]
fn timed_out_read_is_success() {
    let mut d = connected("split a");
    let n = d.unsent().len();
    d.handle(Event::Wrote(n));
    d.handle(Event::ReadError(IoFailure::TimedOut));
    assert_eq!(d.outcome(), Some(Ok(())));
}

#[test]
fn reply_after_write_is_success() {
    for m in [0usize, 1, 4096] {
        let mut d = connected("split a");
        let n = d.unsent().len();
        d.handle(Event::Wrote(n));
        d.handle(Event::Replied(m));
        assert_eq!(d.outcome(), Some(Ok(())));
    }
}

#[test]
fn other_read_error_is_read_failed() {
    for f in [IoFailure::Other, IoFailure::Interrupted] {
        let mut d = connected("split a");
        let n = d.unsent().len();
        d.handle(Event::Wrote(n));
        d.handle(Event::ReadError(f));
        assert_eq!(d.outcome(), Some(Err(NotifyError::ReadFailed)));
    }
}

#[test]
fn short_writes_are_continued() {
    let mut d = connected("split /tmp/x.txt");
    let total = d.unsent().len();
    let whole = d.unsent().to_vec();
    d.handle(Event::Wrote(5));
    assert_eq!(d.sent(), 5);
    assert_eq!(d.unsent(), &whole[5..]);
    d.handle(Event::WriteError(IoFailure::Interrupted));
    assert_eq!(d.next_step(), Step::Write);
    d.handle(Event::Wrote(total - 5));
    assert_eq!(d.sent(), total);
    assert_eq!(d.next_step(), Step::Read);
}

#[test]
fn broken_write_is_write_failed() {
    let mut d = connected("split /tmp/x.txt");
    d.handle(Event::Wrote(7));
    d.handle(Event::WriteError(IoFailure::Other));
    assert_eq!(d.outcome(), Some(Err(NotifyError::WriteFailed)));
    assert_eq!(d.sent(), 7);
    d.handle(Event::Wrote(3));
    assert_eq!(d.sent(), 7);
    assert_eq!(d.outcome(), Some(Err(NotifyError::WriteFailed)));
}

#[test]
fn zero_byte_write_is_write_failed() {
    let mut d = connected("split a");
    d.handle(Event::Wrote(0));
    assert_eq!(d.outcome(), Some(Err(NotifyError::WriteFailed)));
}

#[test]
fn write_timeout_is_write_failed() {
    let mut d = connected("split a");
    d.handle(Event::WriteError(IoFailure::WouldBlock));
    assert_eq!(d.outcome(), Some(Err(NotifyError::WriteFailed)));
    assert_eq!(d.sent(), 0);
}

#[test]
fn overlong_write_report_is_write_failed() {
    let mut d = connected("split a");
    let n = d.unsent().len();
    d.handle(Event::Wrote(n + 1));
    assert_eq!(d.outcome(), Some(Err(NotifyError::WriteFailed)));
    assert_eq!(d.sent(), 0);
}

#[test]
fn finished_delivery_ignores_events() {
    let mut d = connected("split a");
    let n = d.unsent().len();
    d.handle(Event::Wrote(n));
    d.handle(Event::Replied(0));
    d.handle(Event::ReadError(IoFailure::Other));
    d.handle(Event::ConnectError);
    assert_eq!(d.outcome(), Some(Ok(())));
    assert_eq!(d.sent(), n);
}

#[test]
fn unexpected_events_change_nothing() {
    let mut d = Delivery::new("split a");
    d.handle(Event::Wrote(3));
    d.handle(Event::Replied(1));
    assert_eq!(d.phase(), Phase::Unconnected);
    assert_eq!(d.sent(), 0);
}

#[test]
fn end_to_end_split_delivery() {
    let mut d = Delivery::new("split /tmp/x.txt");
    let mut received: Vec<u8> = Vec::new();
    loop {
        match d.next_step() {
            Step::Connect => d.handle(Event::Connected),
            Step::Write => {
                let chunk = d.unsent();
                let n = chunk.len().min(10);
                received.extend_from_slice(&chunk[..n]);
                d.handle(Event::Wrote(n));
            }
            Step::Read => d.handle(Event::ReadError(IoFailure::TimedOut)),
            Step::Finish => break,
        }
    }
    assert_eq!(d.outcome(), Some(Ok(())));
    let mut want = vec![0x93, 0x02, 0xac];
    want.extend_from_slice(b"nvim_command");
    want.push(0x91);
    want.push(0xb0);
    want.extend_from_slice(b"split /tmp/x.txt");
    assert_eq!(received, want);
}

#[test]
fn reply_at_the_bound_is_success_either_way() {
    let mut replied = connected("split b");
    let n = replied.unsent().len();
    replied.handle(Event::Wrote(n));
    let mut timed_out = connected("split b");
    timed_out.handle(Event::Wrote(n));
    replied.handle(Event::Replied(1));
    timed_out.handle(Event::ReadError(IoFailure::TimedOut));
    assert_eq!(replied.outcome(), Some(Ok(())));
    assert_eq!(timed_out.outcome(), replied.outcome());
}
