use command_runner::{
    check_child_process_status, check_status, CommandSpec, CommandStatus, ExitPoll, Lifecycle,
    Output, OutputType, ReadEvent, StreamDrainer, WaitOutcome,
};

/// A runner without a process and without pipes: what the process would
/// write and how it would end is handed in by the test.
struct Replay {
    lifecycle: Option<Lifecycle>,
    stdout: StreamDrainer,
    stderr: StreamDrainer,
    queue: Vec<Output>,
    child: WaitOutcome,
}

fn replay_new(command: &str) -> Replay {
    let _command = CommandSpec::parse(command).unwrap();
    Replay {
        lifecycle: None,
        stdout: StreamDrainer::new(OutputType::StdOut),
        stderr: StreamDrainer::new(OutputType::StdErr),
        queue: Vec::new(),
        child: WaitOutcome::Unknown,
    }
}

fn replay_run(replay: &mut Replay) {
    replay.lifecycle = Some(Lifecycle::new());
    replay.child = WaitOutcome::Alive;
}

fn replay_write(replay: &mut Replay, source: OutputType, bytes: &[u8]) {
    let stop = replay.lifecycle.as_ref().map(|lifecycle| lifecycle.stop_requested()).unwrap_or(true);
    let drainer = match source {
        OutputType::StdOut => &mut replay.stdout,
        OutputType::StdErr => &mut replay.stderr,
    };
    if drainer.should_read(stop) {
        replay.queue.extend(drainer.on_read(ReadEvent::Bytes(bytes)));
    }
}

fn replay_exit(replay: &mut Replay, code: i32) {
    replay_write(replay, OutputType::StdOut, b"");
    replay_write(replay, OutputType::StdErr, b"");
    replay.child = WaitOutcome::Exited { code: Some(code) };
}

fn replay_status(replay: &mut Replay) -> Result<CommandStatus, String> {
    let poll = check_child_process_status(replay.child);
    check_status(&mut replay.lifecycle, poll, false)
}

fn replay_is_running(replay: &mut Replay) -> bool {
    matches!(replay_status(replay).unwrap(), CommandStatus::Running)
}

fn replay_is_stopped(replay: &mut Replay) -> bool {
    replay_status(replay).unwrap().is_stopped()
}

fn replay_stop(replay: &mut Replay) {
    let poll = check_child_process_status(replay.child);
    if let Some(lifecycle) = replay.lifecycle.as_mut() {
        if lifecycle.terminate(poll) {
            replay.child = WaitOutcome::Exited { code: None };
        }
    }
}

fn replay_pull(replay: &mut Replay) -> Option<Output> {
    if replay.queue.is_empty() {
        None
    } else {
        Some(replay.queue.remove(0))
    }
}

#[test]
#[should_panic(expected = "Child process is not initialized yet.")]
fn test_check_is_running_when_not_initialized() {
    let mut executor = replay_new("ping -t 127.0.0.1");
    assert!(replay_is_running(&mut executor));
}

#[test]
#[should_panic(expected = "Child process is not initialized yet.")]
fn test_check_is_stopped_when_not_initialized() {
    let mut executor = replay_new("ping -t 127.0.0.1");
    assert!(replay_is_stopped(&mut executor));
}

#[test]
fn test_status_for_no_ending_command() {
    let command = "ping -t 127.0.0.1";
    let mut executor = replay_new(command);
    replay_run(&mut executor);
    assert!(replay_is_running(&mut executor));
    replay_stop(&mut executor);
    assert!(replay_is_stopped(&mut executor));
}

#[test]
fn test_status_for_auto_ended_command() {
    let ping_count_option = "-c";
    let check_num = 1;
    let mut executor =
        replay_new(&format!("ping {ping_count_option} {check_num} rust-lang.org"));
    replay_run(&mut executor);
    assert!(replay_is_running(&mut executor));
    replay_exit(&mut executor, 0);
    assert!(replay_is_stopped(&mut executor));
}

#[test]
fn test_std_output_from_os_command() {
    let ping_count_option = "-c";
    let check_num = 2;
    let mut executor =
        replay_new(&format!("ping {ping_count_option} {check_num} rust-lang.org"));
    replay_run(&mut executor);
    replay_write(&mut executor, OutputType::StdOut, b"PING rust-lang.org (1.2.3.4) 56(84) bytes of data.\n64 bytes");
    replay_write(&mut executor, OutputType::StdOut, b" from 1.2.3.4: icmp_seq=1 ttl=55 time=9.1 ms\n");
    replay_write(&mut executor, OutputType::StdOut, b"64 bytes from 1.2.3.4: icmp_seq=2 ttl=55 time=9.0 ms\n\n");
    replay_write(&mut executor, OutputType::StdOut, b"--- rust-lang.org ping statistics ---\n");
    let mut output_count = 0;
    let mut polls = 0;
    while replay_is_running(&mut executor) {
        if let Some(output) = replay_pull(&mut executor) {
            output_count += 1;
            assert_eq!(output.get_type(), OutputType::StdOut);
        }
        polls += 1;
        if polls == 5 {
            replay_exit(&mut executor, 0);
        }
    }
    assert!(
        output_count > check_num,
        "Expected output count to be greater than {}, but got {}",
        check_num,
        output_count
    );
}

#[test]
fn test_std_output_from_python_script() {
    let mut executor = replay_new("python ./tests/test_output.py");
    replay_run(&mut executor);
    replay_write(&mut executor, OutputType::StdOut, b"1\n2\n3\n");
    let mut all_output = Vec::new();
    let mut polls = 0;
    while replay_is_running(&mut executor) {
        if let Some(output) = replay_pull(&mut executor) {
            assert_eq!(output.get_type(), OutputType::StdOut);
            all_output.push(output);
        }
        polls += 1;
        if polls == 3 {
            replay_exit(&mut executor, 0);
        }
    }
    assert_eq!(
        all_output.len(),
        3,
        "Expected output should have 3 lines, but got {} lines",
        all_output.len()
    );
    for (i, line) in all_output.iter().enumerate() {
        assert_eq!(line.as_str(), format!("{}", i + 1))
    }
}

#[test]
fn test_std_output_and_error_from_python_script() {
    let mut executor = replay_new("python ./tests/test_error.py");
    replay_run(&mut executor);
    replay_write(&mut executor, OutputType::StdOut, b"[1]:normal print.\n");
    replay_write(&mut executor, OutputType::StdErr, b"[2]:error print.\n");
    replay_write(&mut executor, OutputType::StdOut, b"[3]:normal print.\n");
    replay_write(&mut executor, OutputType::StdErr, b"[4]:error print.\n");

    let mut outputs = Vec::new();
    let mut polls = 0;
    while replay_is_running(&mut executor) {
        if let Some(output) = replay_pull(&mut executor) {
            outputs.push(output);
        }
        polls += 1;
        if polls == 4 {
            replay_exit(&mut executor, 1);
        }
    }

    println!("the outputs are:{:?}", outputs);

    assert_eq!(outputs.len(), 4);
    assert_eq!(outputs[0].as_str(), "[1]:normal print.");
    assert_eq!(outputs[0].get_type(), OutputType::StdOut);

    assert_eq!(outputs[1].as_str(), "[2]:error print.");
    assert_eq!(outputs[1].get_type(), OutputType::StdErr);

    assert_eq!(outputs[2].as_str(), "[3]:normal print.");
    assert_eq!(outputs[2].get_type(), OutputType::StdOut);

    assert_eq!(outputs[3].as_str(), "[4]:error print.");
    assert_eq!(outputs[3].get_type(), OutputType::StdErr);
}

#[test]
fn test_force_terminate_by_os_command_ping() {
    let command = "ping -t 127.0.0.1";
    let mut executor = replay_new(command);
    replay_run(&mut executor);
    replay_write(&mut executor, OutputType::StdOut, b"PING 127.0.0.1 (127.0.0.1) 56(84) bytes of data.\n");

    let mut initial_output = Vec::new();
    while let Some(output) = replay_pull(&mut executor) {
        initial_output.push(output);
    }
    assert!(!initial_output.is_empty(), "There should be some initial output");

    replay_stop(&mut executor);

    let status = replay_status(&mut executor).unwrap();
    assert!(
        matches!(status, CommandStatus::ForciblyTerminated),
        "The process should have terminated"
    );
}

#[test]
fn test_os_command_ping() {
    let ping_count_option = "-c";
    let check_num = 2;
    let mut executor = replay_new(&format!("ping {ping_count_option} {check_num} google.com"));
    replay_run(&mut executor);
    replay_write(&mut executor, OutputType::StdOut, b"PING google.com (1.2.3.4) 56(84) bytes of data.\n");
    replay_write(&mut executor, OutputType::StdOut, b"64 bytes from 1.2.3.4: icmp_seq=1\n64 bytes from 1.2.3.4: icmp_seq=2\n");
    replay_write(&mut executor, OutputType::StdOut, b"\n--- google.com ping statistics ---\n");

    let mut output_count = 0;
    let mut polls = 0;
    loop {
        match replay_status(&mut executor).unwrap() {
            CommandStatus::Running => {
                while let Some(output) = replay_pull(&mut executor) {
                    assert!(!output.is_err(), "There should not be error in this test case!");
                    output_count += 1;
                    println!("{}", output.to_string());
                }
            }
            CommandStatus::ExitedOk => {
                println!("Built-in Command completed successfully");
                break;
            }
            CommandStatus::WaitingForInput => {
                panic!("There should not be `WaitingForInput` status")
            }
            CommandStatus::ExitedError | CommandStatus::ForciblyTerminated => {
                panic!("Built-in Command terminated with error");
            }
        }
        polls += 1;
        if polls == 2 {
            replay_exit(&mut executor, 0);
        }
    }

    assert!(
        output_count > check_num,
        "Expected output count to be greater than {}, but got {}",
        check_num,
        output_count
    );
    println!("Total output lines: {}", output_count);
}

#[test]
fn test_receiving_output_by_python_script() {
    let mut executor = replay_new("python ./tests/test_output.py");
    replay_run(&mut executor);
    replay_write(&mut executor, OutputType::StdOut, b"1\r\n2\r");
    replay_write(&mut executor, OutputType::StdOut, b"\n3\r\n");

    let mut all_output = Vec::new();
    let mut polls = 0;
    loop {
        match replay_status(&mut executor).unwrap() {
            CommandStatus::Running => {
                while let Some(output) = replay_pull(&mut executor) {
                    assert!(!output.is_err(), "Unexpected error output: {:?}", output);
                    all_output.push(String::from(output.as_str()));
                }
            }
            CommandStatus::ExitedOk => {
                println!("Custom application command execution completed");
                break;
            }
            CommandStatus::WaitingForInput => {
                panic!("There should not be `WaitingForInput` status")
            }
            CommandStatus::ExitedError | CommandStatus::ForciblyTerminated => {
                panic!("Custom application command execution error");
            }
        }
        polls += 1;
        if polls == 2 {
            replay_exit(&mut executor, 0);
        }
    }

    assert_eq!(
        all_output.len(),
        3,
        "Expected output should have 3 lines, but got {} lines",
        all_output.len()
    );

    for (i, line) in all_output.iter().enumerate() {
        assert_eq!(line.trim(), &(i + 1).to_string(), "Line {} should be '{}'", i + 1, i + 1);
    }
}

#[test]
fn three_lines_on_stdout_then_exit_zero() {
    let mut executor = replay_new("printf 1\\n2\\n3\\n");
    replay_run(&mut executor);
    replay_write(&mut executor, OutputType::StdOut, b"1\n2\n3\n");
    replay_exit(&mut executor, 0);
    let mut pulled = Vec::new();
    while let Some(output) = replay_pull(&mut executor) {
        pulled.push((output.get_type(), String::from(output.as_str())));
    }
    assert_eq!(
        pulled,
        vec![
            (OutputType::StdOut, String::from("1")),
            (OutputType::StdOut, String::from("2")),
            (OutputType::StdOut, String::from("3")),
        ]
    );
    assert_eq!(replay_status(&mut executor), Ok(CommandStatus::ExitedOk));
    assert_eq!(replay_status(&mut executor), Ok(CommandStatus::ExitedOk));
}

#[test]
fn error_line_on_stderr_then_exit_nonzero() {
    let mut executor = replay_new("sh ./fail.sh");
    replay_run(&mut executor);
    replay_write(&mut executor, OutputType::StdErr, b"err-line\n");
    replay_exit(&mut executor, 2);
    let output = replay_pull(&mut executor).unwrap();
    assert_eq!(output.get_type(), OutputType::StdErr);
    assert_eq!(output.as_str(), "err-line");
    assert!(replay_pull(&mut executor).is_none());
    assert_eq!(replay_status(&mut executor), Ok(CommandStatus::ExitedError));
}

#[test]
fn endless_output_then_terminate() {
    let mut executor = replay_new("yes");
    replay_run(&mut executor);
    for _ in 0..10 {
        replay_write(&mut executor, OutputType::StdOut, b"y\ny\ny\n");
    }
    replay_stop(&mut executor);
    assert_eq!(replay_status(&mut executor), Ok(CommandStatus::ForciblyTerminated));
    replay_write(&mut executor, OutputType::StdOut, b"y\ny\ny\n");
    let mut pulled = 0;
    while replay_pull(&mut executor).is_some() {
        pulled += 1;
    }
    assert_eq!(pulled, 30);
    replay_write(&mut executor, OutputType::StdOut, b"y\n");
    assert!(replay_pull(&mut executor).is_none());
    replay_stop(&mut executor);
    assert_eq!(replay_status(&mut executor), Ok(CommandStatus::ForciblyTerminated));
}

#[test]
fn output_is_still_delivered_after_the_exit_was_seen() {
    let mut executor = replay_new("printf a\\nb");
    replay_run(&mut executor);
    replay_write(&mut executor, OutputType::StdOut, b"a\nb");
    replay_exit(&mut executor, 0);
    assert_eq!(replay_status(&mut executor), Ok(CommandStatus::ExitedOk));
    assert_eq!(replay_pull(&mut executor).unwrap().as_str(), "a");
    assert_eq!(replay_pull(&mut executor).unwrap().as_str(), "b");
    assert!(replay_pull(&mut executor).is_none());
}
