use pjoin::config::Config;
use pjoin::drain::{run_tasks, TaskResult};

fn task(chunks: &[&[u8]], ok: bool) -> TaskResult {
    TaskResult { chunks: chunks.iter().map(|c| c.to_vec()).collect(), ok }
}

fn cfg(parallel: usize, buffer: usize) -> Config {
    Config::new(parallel, buffer).unwrap()
}

#[test]
fn ordered_output_regardless_of_speed() {
    // Three tasks producing "AAA", "BBBBB", "CC"; the middle one is the
    // slow one in real time, but order must follow submission order.
    let results = vec![
        task(&[b"AAA"], true),
        task(&[b"BB", b"BBB"], true),
        task(&[b"CC"], true),
    ];
    let r = run_tasks(&results, &cfg(2, 1 << 30));
    assert_eq!(r.output, b"AAABBBBBCC".to_vec());
    assert_eq!(r.failed_task, None);
}

#[test]
fn empty_input_writes_nothing() {
    let results: Vec<TaskResult> = Vec::new();
    let r = run_tasks(&results, &cfg(4, 1024));
    assert_eq!(r.output, Vec::<u8>::new());
    assert_eq!(r.failed_task, None);
}

#[test]
fn failure_reports_first_failing_task() {
    // Task 1 emits "X" and then fails: the run reports task 1 and the
    // output holds at most "X" — nothing of task 2.
    let results = vec![task(&[b"X"], false), task(&[b"YY"], true)];
    let r = run_tasks(&results, &cfg(2, 1 << 20));
    assert_eq!(r.failed_task, Some(1));
    assert_eq!(r.output, b"X".to_vec());
}

#[test]
fn failure_in_the_middle_keeps_earlier_output() {
    let results = vec![
        task(&[b"one,"], true),
        task(&[b"tw", b"o,"], false),
        task(&[b"three"], true),
    ];
    let r = run_tasks(&results, &cfg(3, 1 << 20));
    assert_eq!(r.failed_task, Some(2));
    assert_eq!(r.output, b"one,two,".to_vec());
}

#[test]
fn failure_with_no_chunks_emitted() {
    let results = vec![task(&[b"ab"], true), task(&[], false)];
    let r = run_tasks(&results, &cfg(1, 1 << 20));
    assert_eq!(r.failed_task, Some(2));
    assert_eq!(r.output, b"ab".to_vec());
}

#[test]
fn output_independent_of_concurrency_limit() {
    // Five tasks under limit 1 and limit 5: byte-identical output.
    let mk = || {
        vec![
            task(&[b"a"], true),
            task(&[b"bb", b"b"], true),
            task(&[], true),
            task(&[b"cccc"], true),
            task(&[b"d"], true),
        ]
    };
    let narrow = run_tasks(&mk(), &cfg(1, 1 << 30));
    let wide = run_tasks(&mk(), &cfg(5, 1 << 30));
    assert_eq!(narrow.output, wide.output);
    assert_eq!(narrow.failed_task, wide.failed_task);
    assert_eq!(narrow.output, b"abbbccccd".to_vec());
}

#[test]
fn output_length_is_sum_of_task_lengths() {
    let results = vec![
        task(&[b"12345"], true),
        task(&[b"678", b"90"], true),
        task(&[b""], true),
    ];
    let total: usize = results
        .iter()
        .map(|t| t.chunks.iter().map(|c| c.len()).sum::<usize>())
        .sum();
    let r = run_tasks(&results, &cfg(2, 1 << 20));
    assert_eq!(r.failed_task, None);
    assert_eq!(r.output.len(), total);
    assert_eq!(total, 10);
}

#[test]
fn manual_concatenation_round_trip() {
    // Feeding back each task's known output and concatenating by hand
    // must equal the run's output, byte for byte.
    let parts: Vec<&[u8]> = vec![b"alpha", b"", b"beta", b"gamma"];
    let results: Vec<TaskResult> = parts.iter().map(|p| task(&[p], true)).collect();
    let mut manual: Vec<u8> = Vec::new();
    for p in &parts {
        manual.extend_from_slice(p);
    }
    let r = run_tasks(&results, &cfg(2, 1 << 20));
    assert_eq!(r.output, manual);
}

#[test]
fn tiny_buffer_budget_still_drains_everything() {
    // A budget below the chunk capacity gives a channel depth of one;
    // the drain must still move every byte through.
    let results = vec![task(&[b"aa", b"bb", b"cc", b"dd"], true), task(&[b"e"], true)];
    let r = run_tasks(&results, &cfg(2, 1));
    assert_eq!(r.failed_task, None);
    assert_eq!(r.output, b"aabbccdde".to_vec());
}
