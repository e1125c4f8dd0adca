use mini_log::no_std_logger::{
    LoggerNS, LoggingTypeNS, OverflowError, MAX_LOG_ENTRIES, MAX_LOG_LENGTH,
};
use std::cell::{Cell, RefCell};

type Seen = RefCell<Vec<(Vec<u8>, usize, LoggingTypeNS)>>;

/// Runs a pass that records what each callback was handed.
fn replay(logger: &LoggerNS, printed: &Seen, crashed: &Seen) -> Result<(), OverflowError> {
    logger.parse_logger(
        |m: [u8; MAX_LOG_LENGTH], id: usize, k: LoggingTypeNS| {
            printed.borrow_mut().push((m.to_vec(), id, k));
            Ok(())
        },
        |m: [u8; MAX_LOG_LENGTH], id: usize, k: LoggingTypeNS| {
            crashed.borrow_mut().push((m.to_vec(), id, k));
        },
    )
}

fn padded(m: &[u8]) -> Vec<u8> {
    let mut v = m.to_vec();
    v.resize(MAX_LOG_LENGTH, 0);
    v
}

fn ids(seen: &Seen) -> Vec<usize> {
    seen.borrow().iter().map(|e| e.1).collect()
}

#[test]
fn new_logger_is_empty() {
    let logger = LoggerNS::new_logger_ns();
    let printed: Seen = RefCell::new(Vec::new());
    let crashed: Seen = RefCell::new(Vec::new());
    assert_eq!(replay(&logger, &printed, &crashed), Ok(()));
    assert!(printed.borrow().is_empty());
    assert!(crashed.borrow().is_empty());
}

#[test]
fn capacity_is_exhausted_after_all_slots() {
    let mut logger = LoggerNS::new_logger_ns();
    for i in 0..MAX_LOG_ENTRIES {
        assert_eq!(logger.add_log(b"entry", i), Ok(i));
    }
    assert_eq!(logger.add_log(b"one too many", 0), Err(OverflowError::BufferEntryOverflow));
    assert_eq!(logger.add_marker(None, None), Err(OverflowError::BufferEntryOverflow));
    assert_eq!(logger.add_warning(b"w", 1), Err(OverflowError::BufferEntryOverflow));
    assert_eq!(logger.add_error(b"e", 2), Err(OverflowError::BufferEntryOverflow));
    // A failed append leaves the pool as it was.
    let printed: Seen = RefCell::new(Vec::new());
    let crashed: Seen = RefCell::new(Vec::new());
    assert_eq!(replay(&logger, &printed, &crashed), Ok(()));
    assert_eq!(printed.borrow().len(), MAX_LOG_ENTRIES);
}

#[test]
fn pass_visits_in_append_order() {
    let mut logger = LoggerNS::new_logger_ns();
    assert_eq!(logger.add_log(b"five", 5), Ok(0));
    assert_eq!(logger.add_warning(b"six", 6), Ok(1));
    assert_eq!(logger.add_marker(Some(b"seven"), Some(7)), Ok(2));
    let printed: Seen = RefCell::new(Vec::new());
    let crashed: Seen = RefCell::new(Vec::new());
    assert_eq!(replay(&logger, &printed, &crashed), Ok(()));
    assert_eq!(ids(&printed), vec![5, 6, 7]);
}

#[test]
fn mixed_pass_keeps_order_across_callbacks() {
    let mut logger = LoggerNS::new_logger_ns();
    logger.add_log(b"five", 5).unwrap();
    logger.add_error(b"six", 6).unwrap();
    logger.add_log(b"seven", 7).unwrap();
    let order: RefCell<Vec<usize>> = RefCell::new(Vec::new());
    let r = logger.parse_logger(
        |_m: [u8; MAX_LOG_LENGTH], id: usize, _k: LoggingTypeNS| {
            order.borrow_mut().push(id);
            Ok(())
        },
        |_m: [u8; MAX_LOG_LENGTH], id: usize, _k: LoggingTypeNS| {
            order.borrow_mut().push(id);
        },
    );
    assert_eq!(r, Err(OverflowError::FatalObserved(6)));
    assert_eq!(order.into_inner(), vec![5, 6, 7]);
}

#[test]
fn last_fatal_wins() {
    let mut logger = LoggerNS::new_logger_ns();
    logger.add_error(b"first", 10).unwrap();
    logger.add_log(b"between", 15).unwrap();
    logger.add_error(b"second", 20).unwrap();
    let printed: Seen = RefCell::new(Vec::new());
    let crashed: Seen = RefCell::new(Vec::new());
    assert_eq!(replay(&logger, &printed, &crashed), Err(OverflowError::FatalObserved(20)));
    assert_eq!(ids(&printed), vec![15]);
    assert_eq!(ids(&crashed), vec![10, 20]);
    assert_eq!(crashed.borrow()[0].2, LoggingTypeNS::Error);
}

#[test]
fn long_message_is_truncated() {
    let mut logger = LoggerNS::new_logger_ns();
    let long: Vec<u8> = (0..2000usize).map(|i| (i % 251) as u8 + 1).collect();
    logger.add_log(&long, 1).unwrap();
    let printed: Seen = RefCell::new(Vec::new());
    let crashed: Seen = RefCell::new(Vec::new());
    replay(&logger, &printed, &crashed).unwrap();
    assert_eq!(printed.borrow()[0].0, long[..MAX_LOG_LENGTH].to_vec());
}

#[test]
fn exact_width_message_is_kept_whole() {
    let mut logger = LoggerNS::new_logger_ns();
    let exact: Vec<u8> = vec![42u8; MAX_LOG_LENGTH];
    logger.add_warning(&exact, 3).unwrap();
    let printed: Seen = RefCell::new(Vec::new());
    let crashed: Seen = RefCell::new(Vec::new());
    replay(&logger, &printed, &crashed).unwrap();
    assert_eq!(printed.borrow()[0], (exact, 3, LoggingTypeNS::Warning));
}

#[test]
fn short_and_empty_messages_are_zero_padded() {
    let mut logger = LoggerNS::new_logger_ns();
    logger.add_log(b"abc", 1).unwrap();
    logger.add_log(b"", 2).unwrap();
    let printed: Seen = RefCell::new(Vec::new());
    let crashed: Seen = RefCell::new(Vec::new());
    replay(&logger, &printed, &crashed).unwrap();
    assert_eq!(printed.borrow()[0].0, padded(b"abc"));
    assert_eq!(printed.borrow()[1].0, vec![0u8; MAX_LOG_LENGTH]);
}

#[test]
fn default_marker_uses_placeholder_and_zero() {
    let mut logger = LoggerNS::new_logger_ns();
    assert_eq!(logger.add_marker(None, None), Ok(0));
    assert_eq!(logger.add_marker(Some(b"given"), None), Ok(1));
    assert_eq!(logger.add_marker(None, Some(8)), Ok(2));
    let printed: Seen = RefCell::new(Vec::new());
    let crashed: Seen = RefCell::new(Vec::new());
    replay(&logger, &printed, &crashed).unwrap();
    let seen = printed.borrow();
    assert_eq!(seen[0], (padded(b"Marker Place"), 0, LoggingTypeNS::Marker));
    assert_eq!(seen[1], (padded(b"given"), 0, LoggingTypeNS::Marker));
    assert_eq!(seen[2], (padded(b"Marker Place"), 8, LoggingTypeNS::Marker));
}

#[test]
fn released_slot_is_reused_and_overwritten() {
    let mut logger = LoggerNS::new_logger_ns();
    assert_eq!(logger.add_log(b"old", 1), Ok(0));
    assert_eq!(logger.release(0), Ok(()));
    assert_eq!(logger.add_error(b"new", 2), Ok(0));
    let printed: Seen = RefCell::new(Vec::new());
    let crashed: Seen = RefCell::new(Vec::new());
    assert_eq!(replay(&logger, &printed, &crashed), Err(OverflowError::FatalObserved(2)));
    assert!(printed.borrow().is_empty());
    assert_eq!(crashed.borrow()[0], (padded(b"new"), 2, LoggingTypeNS::Error));
}

#[test]
fn lowest_free_slot_is_taken_first() {
    let mut logger = LoggerNS::new_logger_ns();
    for i in 0..10usize {
        assert_eq!(logger.add_log(b"x", i), Ok(i));
    }
    assert_eq!(logger.release(7), Ok(()));
    assert_eq!(logger.release(3), Ok(()));
    assert_eq!(logger.add_log(b"y", 30), Ok(3));
    assert_eq!(logger.add_log(b"z", 70), Ok(7));
    assert_eq!(logger.add_log(b"w", 100), Ok(10));
    let printed: Seen = RefCell::new(Vec::new());
    let crashed: Seen = RefCell::new(Vec::new());
    replay(&logger, &printed, &crashed).unwrap();
    assert_eq!(ids(&printed), vec![0, 1, 2, 30, 4, 5, 6, 70, 8, 9, 100]);
}

#[test]
fn released_slots_are_skipped() {
    let mut logger = LoggerNS::new_logger_ns();
    logger.add_log(b"a", 1).unwrap();
    logger.add_error(b"b", 2).unwrap();
    logger.add_log(b"c", 3).unwrap();
    assert_eq!(logger.release(1), Ok(()));
    // Releasing a free slot again changes nothing.
    assert_eq!(logger.release(1), Ok(()));
    let printed: Seen = RefCell::new(Vec::new());
    let crashed: Seen = RefCell::new(Vec::new());
    assert_eq!(replay(&logger, &printed, &crashed), Ok(()));
    assert_eq!(ids(&printed), vec![1, 3]);
    assert!(crashed.borrow().is_empty());
}

#[test]
fn release_outside_pool_is_invalid_index() {
    let mut logger = LoggerNS::new_logger_ns();
    logger.add_log(b"a", 1).unwrap();
    assert_eq!(
        logger.release(MAX_LOG_ENTRIES),
        Err(OverflowError::InvalidIndex(MAX_LOG_ENTRIES))
    );
    assert_eq!(logger.release(usize::MAX), Err(OverflowError::InvalidIndex(usize::MAX)));
    assert_eq!(logger.add_log(b"b", 2), Ok(1));
}

#[test]
fn no_fatal_pass_renders_each_record_once() {
    let mut logger = LoggerNS::new_logger_ns();
    logger.add_marker(None, None).unwrap();
    logger.add_log(b"l", 1).unwrap();
    logger.add_warning(b"w", 2).unwrap();
    let renders = Cell::new(0usize);
    let crashes = Cell::new(0usize);
    let r = logger.parse_logger(
        |_m: [u8; MAX_LOG_LENGTH], _id: usize, _k: LoggingTypeNS| {
            renders.set(renders.get() + 1);
            Ok(())
        },
        |_m: [u8; MAX_LOG_LENGTH], _id: usize, _k: LoggingTypeNS| {
            crashes.set(crashes.get() + 1);
        },
    );
    assert_eq!(r, Ok(()));
    assert_eq!(renders.get(), 3);
    assert_eq!(crashes.get(), 0);
}

#[test]
fn render_failure_stops_the_pass() {
    let mut logger = LoggerNS::new_logger_ns();
    logger.add_log(b"a", 1).unwrap();
    logger.add_log(b"b", 2).unwrap();
    logger.add_error(b"c", 3).unwrap();
    let seen: RefCell<Vec<usize>> = RefCell::new(Vec::new());
    let crashes = Cell::new(0usize);
    let r = logger.parse_logger(
        |_m: [u8; MAX_LOG_LENGTH], id: usize, _k: LoggingTypeNS| {
            seen.borrow_mut().push(id);
            if id == 2 { Err(OverflowError::BufferEntryOverflow) } else { Ok(()) }
        },
        |_m: [u8; MAX_LOG_LENGTH], _id: usize, _k: LoggingTypeNS| {
            crashes.set(crashes.get() + 1);
        },
    );
    assert_eq!(r, Err(OverflowError::RenderFailure));
    assert_eq!(seen.into_inner(), vec![1, 2]);
    assert_eq!(crashes.get(), 0);
}

#[test]
fn append_stores_the_given_kind() {
    let mut logger = LoggerNS::new_logger_ns();
    assert_eq!(logger.append(b"w", 4, LoggingTypeNS::Warning), Ok(0));
    assert_eq!(logger.append(b"f", 9, LoggingTypeNS::Error), Ok(1));
    let printed: Seen = RefCell::new(Vec::new());
    let crashed: Seen = RefCell::new(Vec::new());
    assert_eq!(replay(&logger, &printed, &crashed), Err(OverflowError::FatalObserved(9)));
    assert_eq!(printed.borrow()[0], (padded(b"w"), 4, LoggingTypeNS::Warning));
    assert_eq!(crashed.borrow()[0], (padded(b"f"), 9, LoggingTypeNS::Error));
}
