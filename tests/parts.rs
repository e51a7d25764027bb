use std::sync::{Arc, Mutex};

use kool::capacity::Capacity;
use kool::control::{source_kind_of, Config, CurveStep, SourceKind};
use kool::error::{Code, Error};
use kool::event::Event;
use kool::job::PollingJob;
use kool::signal::Signal;
use kool::source::{program_result, reading_from_text, ProgramOutcome};

fn config(src_type: &str, points: Vec<Vec<i64>>) -> Config {
    Config {
        name: String::from("cpu"),
        interval: 1001,
        src_path: String::from("/sys/temp"),
        src_type: String::from(src_type),
        src_args: None,
        dest_path: String::from("/sys/pwm"),
        dest_min: 0,
        dest_max: 255,
        default_dest_percent: None,
        curve: None,
        points,
    }
}

#[test]
fn error_keeps_code_and_message() {
    let e = Error::new(Code::Timeout, String::from("Command timedout"));
    assert_eq!(e.code(), Code::Timeout);
    assert_eq!(e.message(), "Command timedout");
    assert_eq!(e.to_string(), "Command timedout");
}

#[test]
fn signal_delivers_to_each_listener_in_order() {
    let seen: Arc<Mutex<Vec<String>>> = Arc::new(Mutex::new(Vec::new()));
    let mut signal: Signal<Box<dyn Fn(Arc<Event>)>> = Signal::new();
    signal.notify(Event::Log(String::from("nobody listens")));
    for tag in ["a", "b"] {
        let seen = Arc::clone(&seen);
        signal.connect(Box::new(move |e: Arc<Event>| {
            if let Event::Log(text) = e.as_ref() {
                seen.lock().unwrap().push(format!("{tag}:{text}"));
            }
        }));
    }
    signal.notify(Event::Log(String::from("hello")));
    assert_eq!(*seen.lock().unwrap(), vec!["a:hello", "b:hello"]);
}

#[test]
fn capacity_admits_up_to_its_workers() {
    let mut c = Capacity::new();
    assert!(!c.try_reserve());
    c.register_worker();
    c.register_worker();
    assert!(c.try_reserve());
    assert!(c.try_reserve());
    assert!(!c.try_reserve());
    assert_eq!(c.reserved(), 2);
    c.claim();
    assert_eq!((c.in_flight(), c.reserved()), (1, 1));
    c.release();
    c.acquire();
    c.acquire();
    assert_eq!(c.in_flight(), 2);
    assert!(!c.try_reserve());
    c.clear_reservations();
    assert_eq!(c.reserved(), 0);
    c.release();
    assert!(c.try_reserve());
    c.deregister_worker();
    assert_eq!(c.total_workers(), 1);
}

#[test]
fn polling_job_is_due_strictly_after_timeout() {
    let mut j = PollingJob::new(true, 50, 100);
    assert!(!j.is_due(150));
    assert!(j.is_due(151));
    assert!(!j.is_due(20));
    j.running = true;
    assert!(!j.is_due(151));
    let idle = PollingJob::new(false, 50, 100);
    assert!(!idle.is_due(1000));
}

#[test]
fn source_kind_ignores_letter_case() {
    assert_eq!(config("File", vec![]).source_kind().unwrap(), SourceKind::File);
    assert_eq!(config("PROGRAM", vec![]).source_kind().unwrap(), SourceKind::Program);
    assert_eq!(config("socket", vec![]).source_kind().unwrap_err().code(), Code::SourceTypeIsRequired);
    assert_eq!(source_kind_of("file").unwrap(), SourceKind::File);
    assert_eq!(source_kind_of("File").unwrap_err().code(), Code::SourceTypeIsRequired);
}

#[test]
fn source_timeout_is_half_the_interval() {
    assert_eq!(config("file", vec![]).source_timeout(), 500);
}

#[test]
fn curve_selects_breakpoints() {
    let c = config("file", vec![vec![30, 0], vec![50, 40], vec![70, 100]]);
    assert_eq!(
        c.select_point(40).unwrap(),
        CurveStep::Interpolate { in_min: 50, in_max: 70, in_current: 40, out_min: 40, out_max: 100 }
    );
    assert_eq!(
        c.select_point(10).unwrap(),
        CurveStep::Interpolate { in_min: 30, in_max: 50, in_current: 10, out_min: 0, out_max: 40 }
    );
    assert_eq!(c.select_point(70).unwrap(), CurveStep::Raw(100));
    assert_eq!(c.select_point(65).unwrap(), CurveStep::Raw(100));
    assert_eq!(c.select_point(90).unwrap(), CurveStep::Raw(0));
}

#[test]
fn curve_rejects_bad_points() {
    let empty = config("file", vec![]);
    assert_eq!(empty.select_point(1).unwrap_err().code(), Code::InvalidConfigCurvePoints);
    let short = config("file", vec![vec![30, 0], vec![50]]);
    assert_eq!(short.select_point(1).unwrap_err().code(), Code::InvalidConfigCurvePoints);
}

#[test]
fn readings_parse_as_integers() {
    assert_eq!(reading_from_text("42").unwrap(), 42);
    assert_eq!(reading_from_text("-7").unwrap(), -7);
    assert_eq!(reading_from_text("+5").unwrap(), 5);
    assert_eq!(reading_from_text("9223372036854775807").unwrap(), i64::MAX);
    for bad in ["", "42\n", " 1", "1.5", "-", "9223372036854775808"] {
        assert_eq!(reading_from_text(bad).unwrap_err().code(), Code::UnableToParse);
    }
}

#[test]
fn program_outcomes_map_to_readings_or_errors() {
    assert_eq!(program_result(ProgramOutcome::SpawnFailed).unwrap_err().code(), Code::UnableToSpawnCommand);
    assert_eq!(program_result(ProgramOutcome::TimedOut).unwrap_err().code(), Code::Timeout);
    let ok = ProgramOutcome::Exited { code: Some(0), stdout: Some(String::from("1234")) };
    assert_eq!(program_result(ok).unwrap(), 1234);
    let failed = ProgramOutcome::Exited { code: Some(1), stdout: Some(String::from("1234")) };
    assert_eq!(program_result(failed).unwrap_err().code(), Code::General);
    let killed = ProgramOutcome::Exited { code: None, stdout: Some(String::from("1")) };
    assert_eq!(program_result(killed).unwrap_err().code(), Code::General);
    let no_output = ProgramOutcome::Exited { code: Some(0), stdout: None };
    assert_eq!(program_result(no_output).unwrap_err().code(), Code::General);
    let garbage = ProgramOutcome::Exited { code: Some(0), stdout: Some(String::from("hot")) };
    assert_eq!(program_result(garbage).unwrap_err().code(), Code::UnableToParse);
}
