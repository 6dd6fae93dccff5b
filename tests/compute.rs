use vk_compute::diagnostics::{format_message, is_suppressed, Message, MessageSeverity, MessageType};
use vk_compute::kernel::{apply_kernel, initial_data, BUFFER_LEN, DISPATCH_SIZE, LOCAL_SIZE};
use vk_compute::readback::{format_dump, push_decimal};
use vk_compute::selection::{first_compute_family, requested_layer, select_compute_queue, VALIDATION_LAYER};
use vk_compute::sequence::{fatal_message, next_step, operation_name, Action, Run, RunState, Step};

const AFTER_GOLDEN: [u8; 128] = [
    0, 12, 24, 36, 48, 60, 72, 84, 96, 108, 120, 132, 144, 156, 168, 180, 192, 204, 216, 228,
    240, 252, 8, 21, 32, 45, 57, 69, 80, 93, 105, 117, 128, 141, 153, 165, 176, 189, 201, 213,
    224, 237, 249, 5, 16, 30, 42, 54, 64, 78, 90, 102, 112, 126, 138, 150, 160, 174, 186, 198,
    208, 222, 234, 246, 0, 15, 27, 39, 48, 63, 75, 87, 96, 111, 123, 135, 144, 159, 171, 183,
    192, 207, 219, 231, 240, 255, 11, 24, 32, 48, 60, 72, 80, 96, 108, 120, 128, 144, 156, 168,
    176, 192, 204, 216, 224, 240, 252, 8, 16, 33, 45, 57, 64, 81, 93, 105, 112, 129, 141, 153,
    160, 177, 189, 201, 208, 225, 237, 249,
];

fn severity(error: bool, warning: bool, information: bool, verbose: bool) -> MessageSeverity {
    MessageSeverity { error, warning, information, verbose }
}

fn kind(general: bool, validation: bool, performance: bool) -> MessageType {
    MessageType { general, validation, performance }
}

fn message(sev: MessageSeverity, ty: MessageType) -> Message {
    Message {
        severity: sev,
        ty,
        layer_prefix: "Validation".to_string(),
        description: "something happened".to_string(),
    }
}

fn expected_rows(values: &[u8]) -> String {
    let mut s = String::new();
    for (i, v) in values.iter().enumerate() {
        s.push_str(&format!("{} ", v));
        if i % 32 == 31 {
            s.push('\n');
        }
    }
    s
}

/// Drives a run, reporting `outcomes` in turn, and returns the steps carried
/// out and the final action.
fn drive(outcomes: &[bool]) -> (Vec<Step>, Action) {
    let mut run = Run::new();
    let mut performed = Vec::new();
    let mut i = 0;
    loop {
        match run.action() {
            Action::Perform(s) => {
                performed.push(s);
                let ok = if i < outcomes.len() { outcomes[i] } else { true };
                i += 1;
                run.report(ok);
            }
            other => return (performed, other),
        }
    }
}

#[test]
fn initial_data_is_the_index() {
    let d = initial_data();
    assert_eq!(d.len(), 128);
    assert_eq!(BUFFER_LEN, 128);
    for i in 0..128 {
        assert_eq!(d[i] as usize, i);
    }
}

#[test]
fn kernel_golden_values() {
    let mut d = initial_data();
    apply_kernel(&mut d, DISPATCH_SIZE);
    assert_eq!(d, AFTER_GOLDEN.to_vec());
    assert_eq!(&d[0..8], &[0, 12, 24, 36, 48, 60, 72, 84]);
}

#[test]
fn kernel_matches_word_reinterpretation() {
    let before = initial_data();
    let mut after = before.clone();
    apply_kernel(&mut after, DISPATCH_SIZE);
    for k in 0..32 {
        let w = u32::from_le_bytes([before[4 * k], before[4 * k + 1], before[4 * k + 2], before[4 * k + 3]]);
        let r = u32::from_le_bytes([after[4 * k], after[4 * k + 1], after[4 * k + 2], after[4 * k + 3]]);
        assert_eq!(r, w.wrapping_mul(12));
    }
}

#[test]
fn kernel_wraps_at_word_width() {
    let mut d = vec![255u8, 255, 255, 255];
    apply_kernel(&mut d, 1);
    assert_eq!(d, vec![244, 255, 255, 255]);
}

#[test]
fn kernel_leaves_unreached_and_partial_words() {
    let mut d = vec![1u8, 0, 0, 0, 2, 0, 0, 0, 3, 0];
    apply_kernel(&mut d, 1);
    assert_eq!(d, vec![12, 0, 0, 0, 2, 0, 0, 0, 3, 0]);
    let mut e = vec![1u8, 0, 0, 0, 2, 0, 0, 0, 3, 0];
    apply_kernel(&mut e, 128);
    assert_eq!(e, vec![12, 0, 0, 0, 24, 0, 0, 0, 3, 0]);
    let mut empty: Vec<u8> = Vec::new();
    apply_kernel(&mut empty, 128);
    assert!(empty.is_empty());
}

#[test]
fn dispatch_is_two_workgroups() {
    assert_eq!(DISPATCH_SIZE, 128);
    assert_eq!(DISPATCH_SIZE / LOCAL_SIZE, 2);
}

#[test]
fn before_dump_is_initial_fill() {
    let d = initial_data();
    let text = format_dump("Before data:", &d);
    let expected = format!("Before data:\n{}\n", expected_rows(&d));
    assert_eq!(text, expected);
    assert!(text.starts_with("Before data:\n0 1 2 3 "));
}

#[test]
fn after_dump_rows() {
    let text = format_dump("After data:", &AFTER_GOLDEN);
    let lines: Vec<&str> = text.split('\n').collect();
    assert_eq!(lines[0], "After data:");
    for row in 1..5 {
        assert_eq!(lines[row].split(' ').filter(|w| !w.is_empty()).count(), 32);
        assert!(lines[row].ends_with(' '));
    }
    assert_eq!(lines[5], "");
    assert_eq!(lines[6], "");
    assert_eq!(lines.len(), 7);
    assert!(lines[1].starts_with("0 12 24 36 48 "));
}

#[test]
fn dump_of_empty_data() {
    assert_eq!(format_dump("Before data:", &[]), "Before data:\n\n");
}

#[test]
fn decimal_notation() {
    for v in [0u8, 7, 10, 99, 100, 127, 200, 255] {
        let mut s = "x".to_string();
        push_decimal(&mut s, v);
        assert_eq!(s, format!("x{}", v));
    }
}

#[test]
fn info_general_is_suppressed() {
    let m = message(severity(false, false, true, false), kind(true, false, false));
    assert!(is_suppressed(&m.severity, &m.ty));
    assert_eq!(format_message(&m), None);
}

#[test]
fn message_lines() {
    let m = message(severity(true, false, false, false), kind(false, true, false));
    assert_eq!(format_message(&m), Some("[error:validation][Validation] something happened".to_string()));
    let m = message(severity(false, true, false, false), kind(true, false, false));
    assert_eq!(format_message(&m), Some("[warn:general][Validation] something happened".to_string()));
    let m = message(severity(false, false, true, false), kind(false, false, true));
    assert_eq!(format_message(&m), Some("[info:performance][Validation] something happened".to_string()));
    let m = message(severity(false, false, false, true), kind(true, false, false));
    assert_eq!(format_message(&m), Some("[verb:general][Validation] something happened".to_string()));
}

#[test]
fn message_labels_take_priority_order() {
    let m = message(severity(true, true, true, true), kind(false, true, true));
    assert_eq!(format_message(&m), Some("[error:performance][Validation] something happened".to_string()));
    let m = message(severity(false, true, false, true), kind(true, true, true));
    assert_eq!(format_message(&m), Some("[warn:general][Validation] something happened".to_string()));
    let m = message(severity(false, true, true, false), kind(true, true, true));
    assert_eq!(format_message(&m), None);
}

#[test]
fn layer_present_is_requested() {
    let avail = vec!["VK_LAYER_KHRONOS_validation".to_string(), VALIDATION_LAYER.to_string()];
    assert_eq!(requested_layer(&avail), Some("VK_LAYER_LUNARG_standard_validation"));
}

#[test]
fn layer_absent_is_tolerated() {
    let avail = vec!["VK_LAYER_KHRONOS_validation".to_string()];
    assert_eq!(requested_layer(&avail), None);
    assert_eq!(requested_layer(&Vec::new()), None);
    let (performed, last) = drive(&[]);
    assert_eq!(performed.len(), 14);
    assert_eq!(last, Action::Exit);
}

#[test]
fn first_compute_device_and_family() {
    let devices = vec![vec![false, false], vec![], vec![false, true, true], vec![true]];
    assert_eq!(select_compute_queue(&devices), Some((2, 1)));
    assert_eq!(first_compute_family(&devices[2]), Some(1));
    assert_eq!(first_compute_family(&devices[0]), None);
}

#[test]
fn no_compute_device_is_fatal() {
    assert_eq!(select_compute_queue(&vec![vec![false], vec![false, false]]), None);
    assert_eq!(select_compute_queue(&Vec::new()), None);
    let (performed, last) = drive(&[true, true, true, false]);
    assert_eq!(last, Action::Abort(Step::SelectDevice));
    assert!(!performed.contains(&Step::ReadAfter));
    assert!(!performed.contains(&Step::ReadBefore));
    let msg = fatal_message(Step::SelectDevice, "none found");
    assert_eq!(msg, "failed to find a device with a compute queue: none found");
}

#[test]
fn successful_run_reads_twice() {
    let (performed, last) = drive(&[true; 14]);
    assert_eq!(last, Action::Exit);
    assert_eq!(performed.iter().filter(|s| **s == Step::ReadBefore).count(), 1);
    assert_eq!(performed.iter().filter(|s| **s == Step::ReadAfter).count(), 1);
    let pos = |x: Step| performed.iter().position(|s| *s == x).unwrap();
    assert!(pos(Step::ReadBefore) < pos(Step::Submit));
    assert!(pos(Step::Submit) < pos(Step::AwaitCompletion));
    assert!(pos(Step::AwaitCompletion) < pos(Step::ReadAfter));
    assert_eq!(performed[0], Step::EnumerateLayers);
    assert_eq!(*performed.last().unwrap(), Step::ReadAfter);
}

#[test]
fn failed_wait_skips_after_read() {
    let mut outcomes = [true; 14];
    outcomes[12] = false;
    let (performed, last) = drive(&outcomes);
    assert_eq!(last, Action::Abort(Step::AwaitCompletion));
    assert_eq!(performed.len(), 13);
    assert!(!performed.contains(&Step::ReadAfter));
}

#[test]
fn failure_state_is_final() {
    let mut run = Run::new();
    run.report(false);
    assert_eq!(run.state, RunState::Failed(Step::EnumerateLayers));
    assert_eq!(run.action(), Action::Abort(Step::EnumerateLayers));
}

#[test]
fn step_order_and_names() {
    assert_eq!(next_step(Step::ReadBefore), Some(Step::BuildCommands));
    assert_eq!(next_step(Step::ReadAfter), None);
    assert_eq!(operation_name(Step::Submit), "submit the command buffer");
    assert_eq!(fatal_message(Step::AllocateBuffer, "out of memory"), "failed to allocate the data buffer: out of memory");
}
