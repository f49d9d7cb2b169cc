use veri::cli::{Cli, ExitCode};
use veri::orchestrator::{pytest_engine_args, pytest_exit_code};
use veri::python_worker::PythonWorker;

fn strings(v: &[&str]) -> Vec<String> {
    v.iter().map(|s| s.to_string()).collect()
}

#[test]
fn no_options_runs_the_current_directory() {
    assert_eq!(pytest_engine_args(&Cli::defaults(), &vec![], &vec![]), strings(&["."]));
    let mut cli = Cli::defaults();
    cli.all = true;
    assert!(pytest_engine_args(&cli, &vec![], &vec![]).is_empty());
}

#[test]
fn options_become_pytest_flags() {
    let mut cli = Cli::defaults();
    cli.verbose = 2;
    cli.quiet = true;
    cli.no_capture = true;
    cli.exitfirst = true;
    cli.maxfail = Some(3);
    cli.keyword = Some("fast".to_string());
    cli.marker = Some("unit".to_string());
    cli.junit_xml = Some("out.xml".to_string());
    cli.workers = Some("4".to_string());
    let args = pytest_engine_args(&cli, &strings(&["build"]), &strings(&["tests/a.py"]));
    assert_eq!(
        args,
        strings(&[
            "-v", "-v", "-q", "-s", "-x", "--maxfail", "3", "-k", "fast", "-m", "unit", "--junit-xml", "out.xml", "-n",
            "4", "--ignore", "build", "tests/a.py",
        ])
    );
}

#[test]
fn one_worker_adds_no_flag() {
    let mut cli = Cli::defaults();
    cli.workers = Some("1".to_string());
    assert_eq!(pytest_engine_args(&cli, &vec![], &strings(&["t"])), strings(&["t"]));
}

#[test]
fn pytest_statuses() {
    assert_eq!(pytest_exit_code(0), ExitCode::Success);
    assert_eq!(pytest_exit_code(1), ExitCode::TestFailure);
    assert_eq!(pytest_exit_code(2), ExitCode::Interrupted);
    assert_eq!(pytest_exit_code(4), ExitCode::UsageError);
    assert_eq!(pytest_exit_code(5), ExitCode::InternalError);
    assert_eq!(pytest_exit_code(-1), ExitCode::InternalError);
}

#[test]
fn worker_command_for_pytest_engine() {
    let w = PythonWorker::new("/proj".to_string(), "/proj/.veri/cache".to_string());
    assert_eq!(w.pytest_engine_command(&vec![]), strings(&["-m", "veri_worker", "pytest-engine", "--work-dir", "/proj"]));
    assert_eq!(
        w.pytest_engine_command(&strings(&["-x", "t.py"])),
        strings(&["-m", "veri_worker", "pytest-engine", "--work-dir", "/proj", "--pytest-args", "-x", "t.py"])
    );
}
