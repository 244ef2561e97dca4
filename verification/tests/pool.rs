use rustpynet::python_pool::pool::PythonTaskQueue;
use rustpynet::python_pool::pool::WorkerAction;
use rustpynet::python_pool::pool::WorkerState;
use rustpynet::python_pool::pool::finish_outcome;
use rustpynet::python_pool::pool::lock_backoff_millis;
use rustpynet::python_pool::pool::resolve_received;
use rustpynet::python_pool::pool::worker_step;
use rustpynet::python_pool::pool::ENQUEUE_BACKOFF_CAP_MILLIS;
use rustpynet::python_pool::pool::IDLE_POLL_MILLIS;
use rustpynet::python_pool::pool::WORKER_BACKOFF_CAP_MILLIS;
use rustpynet::python_pool::values::PythonTaskContext;
use rustpynet::python_pool::values::PythonTaskError;
use rustpynet::python_pool::values::PythonTaskResult;

const OP_SUM: u8 = 0;
const OP_PRODUCT: u8 = 1;
const OP_SUM_WITH_DICT: u8 = 2;
const OP_DIVIDE_BY_ZERO: u8 = 3;

/// Runs one opcode against the given input context, the way the embedding
/// application would run user work inside its exclusive context.
fn run_opcode(opcode: &u8, context: &PythonTaskContext) -> Result<PythonTaskResult, String> {
    match *opcode {
        OP_SUM => Ok(PythonTaskResult::Int(1 + 2)),
        OP_PRODUCT => Ok(PythonTaskResult::Int(2 * 3)),
        OP_SUM_WITH_DICT => {
            let a = match context.lookup("a") {
                Some(PythonTaskContext::Int(value)) => *value,
                _ => return Err("KeyError: 'a'".to_string()),
            };
            let b = match context.lookup("b") {
                Some(PythonTaskContext::Int(value)) => *value,
                _ => return Err("KeyError: 'b'".to_string()),
            };
            Ok(PythonTaskResult::Int(a + b))
        }
        OP_DIVIDE_BY_ZERO => Err("ZeroDivisionError: division by zero".to_string()),
        _ => Err("unknown opcode".to_string()),
    }
}

#[test]
fn test_compute_sum() {
    let mut queue: PythonTaskQueue<u8> = PythonTaskQueue::new();
    let receiver = queue.enqueue(OP_SUM, PythonTaskContext::Nothing);
    let log = queue.drain_batch(run_opcode);
    assert_eq!(log.len(), 1);
    let result = PythonTaskQueue::<u8>::wait_for_result(receiver);
    match result {
        Ok(PythonTaskResult::Int(value)) => assert_eq!(value, 3),
        _ => panic!("Test failed!"),
    }
}

#[test]
fn test_compute_product() {
    let mut queue: PythonTaskQueue<u8> = PythonTaskQueue::new();
    let receiver = queue.enqueue(OP_PRODUCT, PythonTaskContext::Nothing);
    queue.drain_batch(run_opcode);
    let result = PythonTaskQueue::<u8>::wait_for_result(receiver);
    match result {
        Ok(PythonTaskResult::Int(value)) => assert_eq!(value, 6),
        _ => panic!("Test failed!"),
    }
}

#[test]
fn test_compute_sum_with_dict() {
    let mut queue: PythonTaskQueue<u8> = PythonTaskQueue::new();
    let context = PythonTaskContext::Dict(vec![
        ("a".to_string(), PythonTaskContext::Int(5)),
        ("b".to_string(), PythonTaskContext::Int(7)),
    ]);
    let receiver = queue.enqueue(OP_SUM_WITH_DICT, context);
    queue.drain_batch(run_opcode);
    let result = PythonTaskQueue::<u8>::wait_for_result(receiver);
    match result {
        Ok(PythonTaskResult::Int(value)) => assert_eq!(value, 12),
        _ => panic!("Test failed!"),
    }
}

#[test]
fn test_python_error() {
    let mut queue: PythonTaskQueue<u8> = PythonTaskQueue::new();
    let receiver = queue.enqueue(OP_DIVIDE_BY_ZERO, PythonTaskContext::Nothing);
    queue.drain_batch(run_opcode);
    let result = PythonTaskQueue::<u8>::wait_for_result(receiver);
    match result {
        Err(PythonTaskError::PythonError(message)) => {
            assert_eq!(message, "ZeroDivisionError: division by zero");
        }
        _ => panic!("Test failed! Should have raised a Python error."),
    }
}

#[test]
fn test_error_isolation_next_task_still_completes() {
    let mut queue: PythonTaskQueue<u8> = PythonTaskQueue::new();
    let failing = queue.enqueue(OP_DIVIDE_BY_ZERO, PythonTaskContext::Nothing);
    let healthy = queue.enqueue(OP_SUM, PythonTaskContext::Nothing);
    let log = queue.drain_batch(run_opcode);
    assert_eq!(log.len(), 2);
    match PythonTaskQueue::<u8>::wait_for_result(failing) {
        Err(PythonTaskError::PythonError(_)) => {}
        _ => panic!("the failing task should report a Python error"),
    }
    match PythonTaskQueue::<u8>::wait_for_result(healthy) {
        Ok(PythonTaskResult::Int(value)) => assert_eq!(value, 3),
        _ => panic!("the healthy task should still complete"),
    }
}

#[test]
fn test_fifo_order() {
    let mut queue: PythonTaskQueue<u8> = PythonTaskQueue::new();
    let first = queue.enqueue(OP_SUM, PythonTaskContext::Nothing);
    let second = queue.enqueue(OP_PRODUCT, PythonTaskContext::Nothing);
    let third = queue.enqueue(OP_DIVIDE_BY_ZERO, PythonTaskContext::Nothing);
    let log = queue.drain_batch(run_opcode);
    assert_eq!(log.len(), 3);
    assert_eq!(log[0].ticket, 0);
    assert_eq!(log[1].ticket, 1);
    assert_eq!(log[2].ticket, 2);
    assert!(matches!(log[0].outcome, Ok(PythonTaskResult::Int(3))));
    assert!(matches!(log[1].outcome, Ok(PythonTaskResult::Int(6))));
    assert!(matches!(log[2].outcome, Err(PythonTaskError::PythonError(_))));
    match PythonTaskQueue::<u8>::wait_for_result(first) {
        Ok(PythonTaskResult::Int(value)) => assert_eq!(value, 3),
        _ => panic!("first caller should see its own result"),
    }
    match PythonTaskQueue::<u8>::wait_for_result(second) {
        Ok(PythonTaskResult::Int(value)) => assert_eq!(value, 6),
        _ => panic!("second caller should see its own result"),
    }
    match PythonTaskQueue::<u8>::wait_for_result(third) {
        Err(PythonTaskError::PythonError(_)) => {}
        _ => panic!("third caller should see its own error"),
    }
}

#[test]
fn test_ten_submissions_each_get_their_result() {
    let mut queue: PythonTaskQueue<u8> = PythonTaskQueue::new();
    let mut receivers = Vec::new();
    let mut index = 0;
    while index < 10 {
        receivers.push(queue.enqueue(OP_SUM, PythonTaskContext::Nothing));
        index += 1;
    }
    assert_eq!(queue.len(), 10);
    let log = queue.drain_batch(run_opcode);
    assert_eq!(log.len(), 10);
    assert_eq!(queue.len(), 0);
    let mut correct = 0;
    for receiver in receivers {
        match PythonTaskQueue::<u8>::wait_for_result(receiver) {
            Ok(PythonTaskResult::Int(value)) => {
                if value == 3 {
                    correct += 1;
                }
            }
            _ => panic!("Test failed!"),
        }
    }
    assert_eq!(correct, 10);
}

#[test]
fn test_dropped_receiver_does_not_stop_drain() {
    let mut queue: PythonTaskQueue<u8> = PythonTaskQueue::new();
    let abandoned = queue.enqueue(OP_SUM, PythonTaskContext::Nothing);
    let waiting = queue.enqueue(OP_PRODUCT, PythonTaskContext::Nothing);
    drop(abandoned);
    let log = queue.drain_batch(run_opcode);
    assert_eq!(log.len(), 2);
    assert!(!log[0].delivered);
    assert!(log[1].delivered);
    match PythonTaskQueue::<u8>::wait_for_result(waiting) {
        Ok(PythonTaskResult::Int(value)) => assert_eq!(value, 6),
        _ => panic!("the remaining task should still complete"),
    }
}

#[test]
fn test_wait_for_result_reports_disconnection() {
    let mut queue: PythonTaskQueue<u8> = PythonTaskQueue::new();
    let receiver = queue.enqueue(OP_SUM, PythonTaskContext::Nothing);
    drop(queue);
    match PythonTaskQueue::<u8>::wait_for_result(receiver) {
        Err(PythonTaskError::OtherError(message)) => {
            assert_eq!(
                message,
                "Failed to receive result from worker thread due to: receiving on an empty and disconnected channel."
            );
        }
        _ => panic!("a disconnected channel must surface as OtherError"),
    }
}

#[test]
fn test_enqueue_counts() {
    let mut queue: PythonTaskQueue<u8> = PythonTaskQueue::new();
    assert_eq!(queue.len(), 0);
    assert_eq!(queue.tickets_issued(), 0);
    let first = queue.enqueue(OP_SUM, PythonTaskContext::Nothing);
    let second = queue.enqueue(OP_SUM, PythonTaskContext::Nothing);
    assert_eq!(queue.len(), 2);
    assert_eq!(queue.tickets_issued(), 2);
    queue.drain_batch(run_opcode);
    assert_eq!(queue.len(), 0);
    assert_eq!(queue.tickets_issued(), 2);
    drop(first);
    drop(second);
}

#[test]
fn test_execute_head_on_empty_queue() {
    let mut queue: PythonTaskQueue<u8> = PythonTaskQueue::new();
    let report = queue.execute_head(&run_opcode);
    assert!(report.is_none());
}

#[test]
fn test_execute_head_runs_one_task() {
    let mut queue: PythonTaskQueue<u8> = PythonTaskQueue::new();
    let first = queue.enqueue(OP_SUM, PythonTaskContext::Nothing);
    let second = queue.enqueue(OP_PRODUCT, PythonTaskContext::Nothing);
    let report = queue.execute_head(&run_opcode).expect("a task was pending");
    assert_eq!(report.ticket, 0);
    assert!(matches!(report.outcome, Ok(PythonTaskResult::Int(3))));
    assert_eq!(queue.len(), 1);
    match PythonTaskQueue::<u8>::wait_for_result(first) {
        Ok(PythonTaskResult::Int(value)) => assert_eq!(value, 3),
        _ => panic!("the head task's caller should have its result"),
    }
    drop(second);
}

#[test]
fn test_worker_step_transitions() {
    assert_eq!(
        worker_step(WorkerState::Idle, 0),
        (WorkerState::Idle, WorkerAction::SleepMillis(IDLE_POLL_MILLIS))
    );
    assert_eq!(
        worker_step(WorkerState::Idle, 4),
        (WorkerState::Draining, WorkerAction::AcquireContext)
    );
    assert_eq!(
        worker_step(WorkerState::Draining, 4),
        (WorkerState::Draining, WorkerAction::ExecuteHead)
    );
    assert_eq!(
        worker_step(WorkerState::Draining, 0),
        (WorkerState::Idle, WorkerAction::ReleaseContext)
    );
}

#[test]
fn test_lock_backoff_is_bounded() {
    let mut round = 0;
    while round < 100 {
        assert!(lock_backoff_millis(ENQUEUE_BACKOFF_CAP_MILLIS) < ENQUEUE_BACKOFF_CAP_MILLIS);
        assert!(lock_backoff_millis(WORKER_BACKOFF_CAP_MILLIS) < WORKER_BACKOFF_CAP_MILLIS);
        assert_eq!(lock_backoff_millis(1), 0);
        round += 1;
    }
}

#[test]
fn test_finish_outcome_conversion() {
    match finish_outcome(Ok(PythonTaskResult::Int(7))) {
        Ok(PythonTaskResult::Int(value)) => assert_eq!(value, 7),
        _ => panic!("a produced value must pass through untouched"),
    }
    match finish_outcome(Err("boom".to_string())) {
        Err(PythonTaskError::PythonError(message)) => assert_eq!(message, "boom"),
        _ => panic!("a raised failure must become PythonError"),
    }
}

#[test]
fn test_resolve_received() {
    match resolve_received(Some(Ok(PythonTaskResult::Bool(true)))) {
        Ok(PythonTaskResult::Bool(value)) => assert!(value),
        _ => panic!("a delivered outcome must pass through untouched"),
    }
    match resolve_received(None) {
        Err(PythonTaskError::OtherError(message)) => {
            assert_eq!(
                message,
                "Failed to receive result from worker thread due to: receiving on an empty and disconnected channel."
            );
        }
        _ => panic!("a disconnection must become OtherError"),
    }
}
