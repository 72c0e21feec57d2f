use stream_window::buffer::WindowBuffer;
use stream_window::capture::{CaptureAction, CaptureEvent, CaptureWorker, CAPTURE_MILLIS};
use stream_window::transcribe::{
    LoopAction, LoopEvent, LoopPhase, TranscriptionLoop, FAILURE_STATUS, SAMPLE_RATE, TICK_MILLIS,
};

#[test]
fn capture_worker_appends_and_records_again() {
    let mut worker = CaptureWorker::new();
    let mut window = WindowBuffer::new();
    assert!(worker.is_running());
    assert_eq!(worker.next_action(), CaptureAction::Record { millis: 300 });
    assert_eq!(CAPTURE_MILLIS, 300);
    let action = worker.step(&mut window, CaptureEvent::Recorded { chunk: vec![1, 2, 3] });
    assert_eq!(action, CaptureAction::Record { millis: 300 });
    let action = worker.step(&mut window, CaptureEvent::Recorded { chunk: vec![4] });
    assert_eq!(action, CaptureAction::Record { millis: 300 });
    assert_eq!(window.snapshot(), vec![1, 2, 3, 4]);
    assert!(worker.is_running());
}

#[test]
fn capture_worker_evicts_through_the_window() {
    let mut worker = CaptureWorker::new();
    let mut window = WindowBuffer::new();
    for i in 0..17 {
        worker.step(&mut window, CaptureEvent::Recorded { chunk: vec![i as i16; 100] });
    }
    let held = window.snapshot();
    assert_eq!(held.len(), 1600);
    assert_eq!(held[0], 1);
    assert_eq!(held[1599], 16);
}

#[test]
fn device_failure_stops_the_worker_and_leaves_the_window() {
    let mut worker = CaptureWorker::new();
    let mut window = WindowBuffer::new();
    worker.step(&mut window, CaptureEvent::Recorded { chunk: vec![1, 2] });
    assert_eq!(worker.step(&mut window, CaptureEvent::DeviceFailed), CaptureAction::Stop);
    assert!(!worker.is_running());
    assert_eq!(worker.next_action(), CaptureAction::Stop);
    assert_eq!(window.snapshot(), vec![1, 2]);
    let action = worker.step(&mut window, CaptureEvent::Recorded { chunk: vec![3] });
    assert_eq!(action, CaptureAction::Stop);
    assert_eq!(window.snapshot(), vec![1, 2]);
}

#[test]
fn loop_starts_with_a_sleep() {
    let looping = TranscriptionLoop::new(2);
    assert_eq!(looping.current_phase(), LoopPhase::Sleeping);
    assert_eq!(looping.channel_count(), 2);
    assert_eq!(TICK_MILLIS, 3000);
    assert!(matches!(looping.start(), LoopAction::Sleep { millis: 3000 }));
}

#[test]
fn tick_hands_the_first_half_of_a_stereo_snapshot_to_the_engine() {
    let mut looping = TranscriptionLoop::new(2);
    let action = looping.step(LoopEvent::TimerFired { snapshot: vec![1, 2, 3, 4, 5, 6] });
    match action {
        LoopAction::Transcribe { mono, sample_rate } => {
            assert_eq!(mono, vec![1, 2, 3]);
            assert_eq!(sample_rate, 16000);
            assert_eq!(SAMPLE_RATE, 16000);
            let waveform: Vec<f32> = mono.iter().map(|v| *v as f32 / 32768.0).collect();
            assert_eq!(waveform, vec![1.0 / 32768.0, 2.0 / 32768.0, 3.0 / 32768.0]);
        }
        _ => panic!("the engine was not asked"),
    }
    assert_eq!(looping.current_phase(), LoopPhase::Transcribing);
}

#[test]
fn transcript_is_emitted_and_the_loop_sleeps_again() {
    let mut looping = TranscriptionLoop::new(1);
    looping.step(LoopEvent::TimerFired { snapshot: vec![1, 2] });
    let action = looping.step(LoopEvent::Transcribed { text: String::from("hello") });
    match action {
        LoopAction::Emit { text, then_sleep_millis } => {
            assert_eq!(text, "hello");
            assert_eq!(then_sleep_millis, 3000);
        }
        _ => panic!("the transcript was not emitted"),
    }
    assert_eq!(looping.current_phase(), LoopPhase::Sleeping);
}

#[test]
fn engine_failure_on_the_fifth_tick_ends_the_process() {
    let mut looping = TranscriptionLoop::new(1);
    let mut printed: Vec<String> = Vec::new();
    let mut exit: Option<(i32, String)> = None;
    assert!(matches!(looping.start(), LoopAction::Sleep { .. }));
    for tick in 1..=5 {
        let asked = looping.step(LoopEvent::TimerFired { snapshot: vec![tick as i16; 4] });
        assert!(matches!(asked, LoopAction::Transcribe { .. }));
        let outcome = if tick < 5 {
            LoopEvent::Transcribed { text: format!("transcript {}", tick) }
        } else {
            LoopEvent::EngineFailed { message: String::from("device unavailable") }
        };
        match looping.step(outcome) {
            LoopAction::Emit { text, .. } => printed.push(text),
            LoopAction::Exit { status, message } => exit = Some((status, message)),
            _ => panic!("neither a transcript nor an exit"),
        }
    }
    assert_eq!(printed, vec!["transcript 1", "transcript 2", "transcript 3", "transcript 4"]);
    let (status, message) = exit.unwrap();
    assert_ne!(status, 0);
    assert_eq!(status, FAILURE_STATUS);
    assert_eq!(message, "device unavailable");
    assert_eq!(looping.current_phase(), LoopPhase::Halted);
}

#[test]
fn halted_loop_stays_halted() {
    let mut looping = TranscriptionLoop::new(1);
    looping.step(LoopEvent::TimerFired { snapshot: vec![] });
    looping.step(LoopEvent::EngineFailed { message: String::from("gone") });
    assert!(matches!(looping.start(), LoopAction::Nothing));
    assert!(matches!(looping.step(LoopEvent::TimerFired { snapshot: vec![1] }), LoopAction::Nothing));
    assert!(matches!(
        looping.step(LoopEvent::Transcribed { text: String::from("late") }),
        LoopAction::Nothing
    ));
    assert_eq!(looping.current_phase(), LoopPhase::Halted);
}

#[test]
fn events_that_do_not_fit_the_phase_are_ignored() {
    let mut looping = TranscriptionLoop::new(1);
    assert!(matches!(
        looping.step(LoopEvent::Transcribed { text: String::from("early") }),
        LoopAction::Nothing
    ));
    assert!(matches!(
        looping.step(LoopEvent::EngineFailed { message: String::from("early") }),
        LoopAction::Nothing
    ));
    assert_eq!(looping.current_phase(), LoopPhase::Sleeping);
    looping.step(LoopEvent::TimerFired { snapshot: vec![1] });
    assert!(matches!(looping.step(LoopEvent::TimerFired { snapshot: vec![2] }), LoopAction::Nothing));
    assert_eq!(looping.current_phase(), LoopPhase::Transcribing);
}

#[test]
fn worker_and_reader_take_turns_on_a_guarded_window() {
    let window = std::sync::Arc::new(std::sync::Mutex::new(WindowBuffer::new()));
    let writer = window.clone();
    let mut worker = CaptureWorker::new();
    for i in 0..20 {
        let action = {
            let mut guarded = writer.lock().unwrap();
            worker.step(&mut guarded, CaptureEvent::Recorded { chunk: vec![i as i16; 10] })
        };
        assert_eq!(action, CaptureAction::Record { millis: 300 });
        let copy = window.lock().unwrap().snapshot();
        assert_eq!(copy.len() % 10, 0);
        assert!(copy.len() <= 160);
        assert_eq!(&copy[copy.len() - 10..], &vec![i as i16; 10][..]);
    }
    let copy = window.lock().unwrap().snapshot();
    assert_eq!(copy.len(), 160);
    assert_eq!(copy[0], 4);
    assert_eq!(copy[159], 19);
}
