use gigabyte_kbd_backlight::ec::{
    EcAction, EcEvent, EcPort, Progress, EC_CMD_PORT, EC_DATA_PORT, EC_IBF, POLL_INTERVAL_MS,
    READY_TIMEOUT_MS, SETTLE_MS,
};
use gigabyte_kbd_backlight::error::{Error, IoFailure, IoKind};

/// A controller that exists in memory only: it is busy for as many looks as
/// it is told to be, has a clock that moves when the engine sleeps, and
/// keeps what was written.
struct Board {
    busy_looks: u64,
    now: u64,
    looks: u64,
    writes: Vec<(u64, u8)>,
    sleeps: Vec<u64>,
}

fn board(busy_looks: u64, now: u64) -> Board {
    Board { busy_looks, now, looks: 0, writes: Vec::new(), sleeps: Vec::new() }
}

fn perform(board: &mut Board, action: EcAction) -> EcEvent {
    match action {
        EcAction::Clock => EcEvent::Time { millis: board.now },
        EcAction::Read { port } => {
            assert_eq!(port, EC_CMD_PORT);
            board.looks += 1;
            if board.busy_looks > 0 {
                board.busy_looks -= 1;
                EcEvent::Byte { value: 0xF0 | EC_IBF }
            } else {
                EcEvent::Byte { value: 0xF0 & !EC_IBF }
            }
        }
        EcAction::Write { port, value } => {
            board.writes.push((port, value));
            EcEvent::Written
        }
        EcAction::Sleep { millis } => {
            board.sleeps.push(millis);
            board.now += millis;
            EcEvent::Slept
        }
    }
}

fn run(ec: &mut EcPort, first: EcAction, board: &mut Board) -> Result<(), Error> {
    let mut action = first;
    loop {
        assert_eq!(ec.pending(), Some(action));
        let event = perform(board, action);
        match ec.step(event) {
            Progress::Pending(next) => action = next,
            Progress::Finished(result) => return result,
            Progress::Idle => panic!("the engine was idle in the middle of a transaction"),
        }
    }
}

fn engine() -> EcPort {
    EcPort::open(Ok(())).unwrap()
}

fn register(reg: u8, value: u8) -> Vec<(u64, u8)> {
    vec![(0x66, 0x81), (0x62, reg), (0x62, value)]
}

fn brightness_writes(value: u8) -> Vec<(u64, u8)> {
    let mut writes = register(0xF9, 0x02);
    writes.extend(register(0xFA, value));
    writes.extend(register(0xF8, 0xC4));
    writes
}

#[test]
fn port_numbers() {
    assert_eq!(EC_DATA_PORT, 0x62);
    assert_eq!(EC_CMD_PORT, 0x66);
    assert_eq!(EC_IBF, 0x02);
    assert_eq!(READY_TIMEOUT_MS, 200);
    assert_eq!(POLL_INTERVAL_MS, 1);
    assert_eq!(SETTLE_MS, 50);
}

#[test]
fn open_gives_an_idle_engine() {
    let ec = engine();
    assert!(!ec.busy());
    assert_eq!(ec.pending(), None);
    assert_eq!(ec.written(), 0);
}

#[test]
fn open_tells_a_refusal_from_other_failures() {
    let refused = IoFailure { kind: IoKind::PermissionDenied, message: "Permission denied (os error 13)".to_string() };
    assert_eq!(EcPort::open(Err(refused)).err(), Some(Error::Permission));
    let missing = IoFailure { kind: IoKind::NotFound, message: "No such file or directory (os error 2)".to_string() };
    assert_eq!(
        EcPort::open(Err(missing)).err(),
        Some(Error::Io("No such file or directory (os error 2)".to_string()))
    );
    let other = IoFailure { kind: IoKind::Other, message: "boom".to_string() };
    assert_eq!(EcPort::open(Err(other)).err(), Some(Error::Io("boom".to_string())));
}

#[test]
fn an_idle_engine_answers_idle() {
    let mut ec = engine();
    assert_eq!(ec.step(EcEvent::Slept), Progress::Idle);
    assert_eq!(ec.step(EcEvent::Time { millis: 5 }), Progress::Idle);
    let failure = IoFailure { kind: IoKind::Other, message: "boom".to_string() };
    assert_eq!(ec.step(EcEvent::Failed(failure)), Progress::Idle);
    assert!(!ec.busy());
}

#[test]
fn set_brightness_maps_every_level_to_its_byte() {
    let expected: [u8; 10] = [0, 28, 57, 85, 113, 142, 170, 198, 227, 255];
    let mut level: u8 = 0;
    while level <= 9 {
        let mut ec = engine();
        let mut board = board(0, 1000);
        let first = ec.set_brightness(level).unwrap();
        assert_eq!(first, EcAction::Clock);
        assert_eq!(run(&mut ec, first, &mut board), Ok(()));
        assert_eq!(board.writes, brightness_writes(expected[level as usize]));
        let exact = (level as f64) * 255.0 / 9.0;
        assert_eq!(expected[level as usize], exact.round() as u8);
        level += 1;
    }
}

#[test]
fn set_brightness_refuses_a_level_above_nine() {
    let mut ec = engine();
    assert_eq!(ec.set_brightness(10), Err(Error::InvalidBrightness(10)));
    assert_eq!(ec.set_brightness(255), Err(Error::InvalidBrightness(255)));
    assert!(!ec.busy());
    assert_eq!(ec.pending(), None);
}

#[test]
fn a_refused_level_leaves_a_transaction_alone() {
    let mut ec = engine();
    let first = ec.turn_on();
    assert_eq!(ec.step(EcEvent::Time { millis: 3 }), Progress::Pending(EcAction::Read { port: 0x66 }));
    assert_eq!(ec.set_brightness(12), Err(Error::InvalidBrightness(12)));
    assert!(ec.busy());
    assert_eq!(ec.pending(), Some(EcAction::Read { port: 0x66 }));
    assert_eq!(first, EcAction::Clock);
}

#[test]
fn set_color_writes_blue_red_green() {
    let mut ec = engine();
    let mut board = board(0, 0);
    let first = ec.set_color(0x11, 0x22, 0x33);
    assert_eq!(run(&mut ec, first, &mut board), Ok(()));
    let mut expected = register(0xF9, 0x03);
    expected.extend(register(0xFA, 0x33));
    expected.extend(register(0xFB, 0x11));
    expected.extend(register(0xFC, 0x22));
    expected.extend(register(0xF8, 0xCA));
    assert_eq!(board.writes, expected);
    assert_eq!(board.sleeps, vec![50]);
    assert_eq!(board.looks, 15);
    assert_eq!(ec.written(), 15);
    assert!(!ec.busy());
}

#[test]
fn turn_on_and_turn_off() {
    let mut ec = engine();
    let mut on = board(0, 0);
    let first = ec.turn_on();
    assert_eq!(run(&mut ec, first, &mut on), Ok(()));
    assert_eq!(on.writes, brightness_writes(0xFF));
    let mut off = board(0, 0);
    let first = ec.turn_off();
    assert_eq!(run(&mut ec, first, &mut off), Ok(()));
    assert_eq!(off.writes, brightness_writes(0x00));
}

#[test]
fn wait_ready_succeeds_at_once_when_the_busy_bit_is_clear() {
    let mut ec = engine();
    assert_eq!(ec.turn_on(), EcAction::Clock);
    assert_eq!(ec.step(EcEvent::Time { millis: 77 }), Progress::Pending(EcAction::Read { port: 0x66 }));
    assert_eq!(
        ec.step(EcEvent::Byte { value: 0x00 }),
        Progress::Pending(EcAction::Write { port: 0x66, value: 0x81 })
    );
}

#[test]
fn wait_ready_looks_at_the_busy_bit_only() {
    let mut ec = engine();
    ec.turn_on();
    ec.step(EcEvent::Time { millis: 0 });
    assert_eq!(
        ec.step(EcEvent::Byte { value: 0xFD }),
        Progress::Pending(EcAction::Write { port: 0x66, value: 0x81 })
    );
    let mut other = engine();
    other.turn_on();
    other.step(EcEvent::Time { millis: 0 });
    assert_eq!(other.step(EcEvent::Byte { value: 0x02 }), Progress::Pending(EcAction::Sleep { millis: 1 }));
}

#[test]
fn wait_ready_times_out_after_200_ms() {
    let mut ec = engine();
    let mut board = board(u64::MAX, 5000);
    let first = ec.turn_on();
    assert_eq!(run(&mut ec, first, &mut board), Err(Error::EcTimeout));
    assert_eq!(board.now, 5200);
    assert_eq!(board.looks, 200);
    assert_eq!(board.writes, Vec::<(u64, u8)>::new());
    assert_eq!(board.sleeps, vec![1; 200]);
    assert!(!ec.busy());
    assert_eq!(ec.written(), 0);
}

#[test]
fn wait_ready_holds_the_time_against_the_start_of_the_wait() {
    let mut ec = engine();
    ec.turn_on();
    ec.step(EcEvent::Time { millis: 1000 });
    assert_eq!(ec.step(EcEvent::Byte { value: 0x02 }), Progress::Pending(EcAction::Sleep { millis: 1 }));
    assert_eq!(ec.step(EcEvent::Slept), Progress::Pending(EcAction::Clock));
    assert_eq!(ec.step(EcEvent::Time { millis: 1199 }), Progress::Pending(EcAction::Read { port: 0x66 }));
    assert_eq!(ec.step(EcEvent::Byte { value: 0x02 }), Progress::Pending(EcAction::Sleep { millis: 1 }));
    assert_eq!(ec.step(EcEvent::Slept), Progress::Pending(EcAction::Clock));
    assert_eq!(ec.step(EcEvent::Time { millis: 1200 }), Progress::Finished(Err(Error::EcTimeout)));
}

#[test]
fn a_clock_that_runs_backwards_does_not_end_the_wait() {
    let mut ec = engine();
    ec.turn_on();
    ec.step(EcEvent::Time { millis: 1000 });
    ec.step(EcEvent::Byte { value: 0x02 });
    ec.step(EcEvent::Slept);
    assert_eq!(ec.step(EcEvent::Time { millis: 3 }), Progress::Pending(EcAction::Read { port: 0x66 }));
}

#[test]
fn a_controller_that_is_slow_is_waited_for() {
    let mut ec = engine();
    let mut board = board(150, 0);
    let first = ec.turn_off();
    assert_eq!(run(&mut ec, first, &mut board), Ok(()));
    assert_eq!(board.writes, brightness_writes(0x00));
    assert_eq!(board.looks, 150 + 9);
    assert_eq!(board.now, 150 + 50);
}

#[test]
fn every_wait_has_its_own_deadline() {
    let mut ec = engine();
    let mut board = board(0, 0);
    let mut action = ec.turn_on();
    let mut busy_left_in_this_wait: u64 = 150;
    let result = loop {
        let event = match action {
            EcAction::Read { .. } if busy_left_in_this_wait > 0 => {
                busy_left_in_this_wait -= 1;
                board.looks += 1;
                EcEvent::Byte { value: 0x02 }
            }
            EcAction::Write { .. } => {
                busy_left_in_this_wait = 150;
                perform(&mut board, action)
            }
            other => perform(&mut board, other),
        };
        match ec.step(event) {
            Progress::Pending(next) => action = next,
            Progress::Finished(result) => break result,
            Progress::Idle => panic!("idle"),
        }
    };
    assert_eq!(result, Ok(()));
    assert_eq!(board.writes, brightness_writes(0xFF));
    assert_eq!(board.now, 9 * 150 + 50);
}

#[test]
fn a_timeout_in_the_middle_gives_the_rest_up() {
    let mut ec = engine();
    let mut board = board(0, 0);
    let mut action = ec.set_color(1, 2, 3);
    let result = loop {
        if board.writes.len() == 4 {
            board.busy_looks = u64::MAX;
        }
        let event = perform(&mut board, action);
        match ec.step(event) {
            Progress::Pending(next) => action = next,
            Progress::Finished(result) => break result,
            Progress::Idle => panic!("idle"),
        }
    };
    assert_eq!(result, Err(Error::EcTimeout));
    assert_eq!(board.writes, vec![(0x66, 0x81), (0x62, 0xF9), (0x62, 0x03), (0x66, 0x81)]);
    assert_eq!(ec.written(), 4);
    assert!(!ec.busy());
}

#[test]
fn a_failure_of_the_port_ends_the_transaction() {
    let mut ec = engine();
    ec.turn_on();
    ec.step(EcEvent::Time { millis: 0 });
    let failure = IoFailure { kind: IoKind::PermissionDenied, message: "Operation not permitted (os error 1)".to_string() };
    assert_eq!(
        ec.step(EcEvent::Failed(failure)),
        Progress::Finished(Err(Error::Io("Operation not permitted (os error 1)".to_string())))
    );
    assert!(!ec.busy());
    assert_eq!(ec.step(EcEvent::Byte { value: 0 }), Progress::Idle);
}

#[test]
fn an_event_that_answers_nothing_is_passed_over() {
    let mut ec = engine();
    ec.turn_on();
    assert_eq!(ec.step(EcEvent::Written), Progress::Pending(EcAction::Clock));
    assert_eq!(ec.step(EcEvent::Slept), Progress::Pending(EcAction::Clock));
    assert_eq!(ec.step(EcEvent::Byte { value: 0 }), Progress::Pending(EcAction::Clock));
    assert_eq!(ec.step(EcEvent::Time { millis: 9 }), Progress::Pending(EcAction::Read { port: 0x66 }));
    assert_eq!(ec.step(EcEvent::Time { millis: 900 }), Progress::Pending(EcAction::Read { port: 0x66 }));
    assert_eq!(ec.step(EcEvent::Written), Progress::Pending(EcAction::Read { port: 0x66 }));
    assert_eq!(
        ec.step(EcEvent::Byte { value: 0 }),
        Progress::Pending(EcAction::Write { port: 0x66, value: 0x81 })
    );
    assert_eq!(
        ec.step(EcEvent::Byte { value: 0 }),
        Progress::Pending(EcAction::Write { port: 0x66, value: 0x81 })
    );
    assert_eq!(ec.written(), 0);
    assert_eq!(ec.step(EcEvent::Written), Progress::Pending(EcAction::Clock));
    assert_eq!(ec.written(), 1);
}

#[test]
fn a_new_command_drops_the_one_in_progress() {
    let mut ec = engine();
    let mut board = board(0, 0);
    ec.turn_on();
    ec.step(EcEvent::Time { millis: 0 });
    ec.step(EcEvent::Byte { value: 0 });
    ec.step(EcEvent::Written);
    assert_eq!(ec.written(), 1);
    let first = ec.turn_off();
    assert_eq!(ec.written(), 0);
    assert_eq!(run(&mut ec, first, &mut board), Ok(()));
    assert_eq!(board.writes, brightness_writes(0x00));
}

#[test]
fn the_delay_follows_the_last_write() {
    let mut ec = engine();
    let mut action = ec.turn_on();
    let mut board = board(0, 0);
    let mut seen: Vec<EcAction> = vec![action];
    loop {
        let event = perform(&mut board, action);
        match ec.step(event) {
            Progress::Pending(next) => {
                seen.push(next);
                action = next;
            }
            Progress::Finished(result) => {
                assert_eq!(result, Ok(()));
                break;
            }
            Progress::Idle => panic!("idle"),
        }
    }
    assert_eq!(seen.len(), 9 * 3 + 1);
    assert_eq!(seen[0], EcAction::Clock);
    assert_eq!(seen[1], EcAction::Read { port: 0x66 });
    assert_eq!(seen[2], EcAction::Write { port: 0x66, value: 0x81 });
    assert_eq!(seen[3], EcAction::Clock);
    assert_eq!(seen[26], EcAction::Write { port: 0x62, value: 0xC4 });
    assert_eq!(seen[27], EcAction::Sleep { millis: 50 });
}
