use vstd::prelude::*;

verus! {

broadcast use vstd::string::group_string_axioms;

/// The message of a marker created without one.
pub const INIT_MARK: &'static str = "Logging Enabled";

/// The identifier of a marker created without one.
pub const INIT_MARK_ID: usize = 0;

/// A sample log message.
pub const TEST_LOG: &'static str = "Testing Log";

/// A sample log identifier.
pub const TEST_LOG_ID: usize = 1;

/// A sample warning message.
pub const TEST_WARN: &'static str = "Testing Warning";

/// A sample warning identifier.
pub const TEST_WARN_ID: usize = 2;

/// A sample error message.
pub const TEST_ERROR: &'static str = "Testing Error";

/// A sample error identifier.
pub const TEST_ERROR_ID: usize = 3;

/// The kind of a record.
#[derive(Default, Clone, Copy, Debug, PartialEq, Eq, Structural)]
pub enum LoggingType {
    /// An unrecoverable error: a pass over the logger reports failure.
    Error,
    /// Potentially hazardous behaviour.
    Warning,
    /// Ordinary information.
    Log,
    /// A point reached in the program; the default kind.
    #[default]
    Marker,
}

/// A growable logger: records are kept in insertion order, in three
/// parallel vectors.
#[derive(Default, Clone, Debug, PartialEq)]
pub struct Logger {
    log: Vec<String>,
    log_id: Vec<usize>,
    log_type: Vec<LoggingType>,
}

impl View for Logger {
    type V = Seq<(Seq<char>, usize, LoggingType)>;

    /// The records in insertion order: message, identifier, kind.
    closed spec fn view(&self) -> Seq<(Seq<char>, usize, LoggingType)> {
        Seq::new(self.log@.len(), |i: int| (self.log@[i]@, self.log_id@[i], self.log_type@[i]))
    }
}

/// The index of the last error record among the first `n` records.
pub open spec fn last_error_index(records: Seq<(Seq<char>, usize, LoggingType)>, n: int) -> Option<
    int,
>
    decreases n,
{
    if n <= 0 {
        None
    } else if records[n - 1].2 == LoggingType::Error {
        Some(n - 1)
    } else {
        last_error_index(records, n - 1)
    }
}

/// `f` may have been handed the record `rec` and returned.
pub open spec fn handed<F: Fn(String, usize, LoggingType)>(
    f: F,
    rec: (Seq<char>, usize, LoggingType),
) -> bool {
    exists|m: String| m@ == rec.0 && #[trigger] call_ensures(f, (m, rec.1, rec.2), ())
}

/// Record `rec` went to the callback that its kind selects.
pub open spec fn dispatched<S: Fn(String, usize, LoggingType), P: Fn(String, usize, LoggingType)>(
    printer: S,
    crasher: P,
    rec: (Seq<char>, usize, LoggingType),
) -> bool {
    if rec.2 == LoggingType::Error {
        handed(crasher, rec)
    } else {
        handed(printer, rec)
    }
}

impl Logger {
    /// The three parallel vectors have one element per record.
    pub closed spec fn wf(&self) -> bool {
        &&& self.log_id@.len() == self.log@.len()
        &&& self.log_type@.len() == self.log@.len()
    }

    /// Creates a logger that holds one marker, with the default message and
    /// identifier.
    pub fn new_logger() -> (r: Self)
        ensures
            r.wf(),
            r@ == seq![(INIT_MARK@, INIT_MARK_ID, LoggingType::Marker)],
    {
        let mut log: Vec<String> = Vec::new();
        log.push(INIT_MARK.to_string());
        let mut log_id: Vec<usize> = Vec::new();
        log_id.push(INIT_MARK_ID);
        let mut log_type: Vec<LoggingType> = Vec::new();
        log_type.push(LoggingType::Marker);
        let r = Logger { log, log_id, log_type };
        assert(r@ =~= seq![(INIT_MARK@, INIT_MARK_ID, LoggingType::Marker)]);
        r
    }

    fn push_record(&mut self, log: &str, log_id: usize, kind: LoggingType)
        requires
            old(self).wf(),
        ensures
            final(self).wf(),
            final(self)@ == old(self)@.push((log@, log_id, kind)),
    {
        self.log.push(log.to_string());
        self.log_id.push(log_id);
        self.log_type.push(kind);
        assert(self@ =~= old(self)@.push((log@, log_id, kind)));
    }

    /// Adds a marker; a missing message or identifier takes the default.
    pub fn add_marker(&mut self, log: Option<&str>, log_id: Option<usize>)
        requires
            old(self).wf(),
        ensures
            final(self).wf(),
            final(self)@ == old(self)@.push(
                (
                    match log {
                        Some(s) => s@,
                        None => INIT_MARK@,
                    },
                    match log_id {
                        Some(n) => n,
                        None => INIT_MARK_ID,
                    },
                    LoggingType::Marker,
                ),
            ),
    {
        let log_str: &str = match log {
            Some(s) => s,
            None => INIT_MARK,
        };
        let log_id_val: usize = match log_id {
            Some(n) => n,
            None => INIT_MARK_ID,
        };
        self.push_record(log_str, log_id_val, LoggingType::Marker);
    }

    /// Adds an ordinary log record.
    pub fn add_log(&mut self, log: &str, log_id: usize)
        requires
            old(self).wf(),
        ensures
            final(self).wf(),
            final(self)@ == old(self)@.push((log@, log_id, LoggingType::Log)),
    {
        self.push_record(log, log_id, LoggingType::Log);
    }

    /// Adds a warning record.
    pub fn add_warning(&mut self, log: &str, log_id: usize)
        requires
            old(self).wf(),
        ensures
            final(self).wf(),
            final(self)@ == old(self)@.push((log@, log_id, LoggingType::Warning)),
    {
        self.push_record(log, log_id, LoggingType::Warning);
    }

    /// Adds an error record; a pass over the logger then reports failure.
    pub fn add_error(&mut self, log: &str, log_id: usize)
        requires
            old(self).wf(),
        ensures
            final(self).wf(),
            final(self)@ == old(self)@.push((log@, log_id, LoggingType::Error)),
    {
        self.push_record(log, log_id, LoggingType::Error);
    }

    /// Replays the records in insertion order: markers, logs and warnings go
    /// to `printer`, errors to `crasher`, each with its message, identifier
    /// and kind.
    ///
    /// Returns the index of the last error record if there is one, and
    /// success otherwise; the caller decides whether to stop the program.
    pub fn parse_logger<S, P>(&self, printer: S, crasher: P) -> (r: Result<(), usize>) where
        S: Fn(String, usize, LoggingType),
        P: Fn(String, usize, LoggingType),

        requires
            self.wf(),
            forall|m: String, id: usize, k: LoggingType| call_requires(printer, (m, id, k)),
            forall|m: String, id: usize, k: LoggingType| call_requires(crasher, (m, id, k)),
        ensures
            match last_error_index(self@, self@.len() as int) {
                Some(i) => r == Err::<(), usize>(i as usize),
                None => r == Ok::<(), usize>(()),
            },
            forall|i: int|
                0 <= i < self@.len() ==> dispatched(printer, crasher, #[trigger] self@[i]),
    {
        let mut last_error: Option<usize> = None;
        let mut i: usize = 0;
        while i < self.log.len()
            invariant
                self.wf(),
                i <= self@.len(),
                forall|m: String, id: usize, k: LoggingType| call_requires(printer, (m, id, k)),
                forall|m: String, id: usize, k: LoggingType| call_requires(crasher, (m, id, k)),
                match last_error_index(self@, i as int) {
                    Some(j) => last_error == Some(j as usize),
                    None => last_error is None,
                },
                forall|j: int| 0 <= j < i ==> dispatched(printer, crasher, #[trigger] self@[j]),
            decreases self@.len() - i,
        {
            let message = self.log[i].clone();
            let id = self.log_id[i];
            let kind = self.log_type[i];
            match kind {
                LoggingType::Error => {
                    crasher(message, id, kind);
                    assert(call_ensures(crasher, (message, id, kind), ()));
                    last_error = Some(i);
                },
                _ => {
                    printer(message, id, kind);
                    assert(call_ensures(printer, (message, id, kind), ()));
                },
            }
            assert(dispatched(printer, crasher, self@[i as int]));
            i += 1;
        }
        match last_error {
            Some(idx) => Err(idx),
            None => Ok(()),
        }
    }
    /// The number of records.
    pub fn len(&self) -> (r: usize)
        requires
            self.wf(),
        ensures
            r == self@.len(),
    {
        self.log.len()
    }

    /// The message of record `i`.
    pub fn message(&self, i: usize) -> (r: &str)
        requires
            self.wf(),
            i < self@.len(),
        ensures
            r@ == self@[i as int].0,
    {
        self.log[i].as_str()
    }

    /// The identifier of record `i`.
    pub fn log_id(&self, i: usize) -> (r: usize)
        requires
            self.wf(),
            i < self@.len(),
        ensures
            r == self@[i as int].1,
    {
        self.log_id[i]
    }
}

} // verus!
