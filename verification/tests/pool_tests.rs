use textbatch::pool::{
    effective_pool_size, worker_step, Batch, Job, WorkerAction, WorkerEvent, WorkerState,
};

#[test]
fn pool_size_zero_is_coerced_to_one() {
    assert_eq!(effective_pool_size(0), 1);
    assert_eq!(effective_pool_size(1), 1);
    assert_eq!(effective_pool_size(4), 4);
}

#[test]
fn worker_runs_jobs_until_queue_closes() {
    assert_eq!(
        worker_step(WorkerState::Running, WorkerEvent::JobArrived),
        (WorkerState::Running, WorkerAction::RunJob)
    );
    assert_eq!(
        worker_step(WorkerState::Running, WorkerEvent::QueueClosed),
        (WorkerState::Stopped, WorkerAction::Exit)
    );
}

fn job(i: usize) -> Job {
    Job {
        filename: format!("file_{}.txt", i),
        meta: Ok(i as u64),
        content: Ok("a b\nc\n".to_string()),
    }
}

#[test]
fn fifty_jobs_all_delivered_by_shutdown() {
    let mut batch = Batch::new();
    for i in 0..50 {
        batch.submit(job(i));
    }
    assert_eq!(batch.pending.len(), 50);
    batch.shutdown();
    assert_eq!(batch.pending.len(), 0);
    assert_eq!(batch.results.len(), 50);
    for a in &batch.results {
        assert_eq!(a.stats.word_count, 3);
        assert_eq!(a.stats.line_count, 2);
        assert!(a.errors.is_empty());
    }
}

#[test]
fn one_result_per_file_no_duplicates_no_omissions() {
    let mut batch = Batch::new();
    for i in 0..3 {
        batch.submit(job(i));
    }
    batch.shutdown();
    assert_eq!(batch.results.len(), 3);
    let mut names: Vec<String> = batch.results.iter().map(|a| a.filename.clone()).collect();
    names.sort();
    assert_eq!(names, vec!["file_0.txt", "file_1.txt", "file_2.txt"]);
}

#[test]
fn failed_reads_still_deliver_results() {
    let mut batch = Batch::new();
    batch.submit(Job {
        filename: "gone.txt".to_string(),
        meta: Err("metadata error: gone".to_string()),
        content: Err("read error: gone".to_string()),
    });
    batch.submit(job(1));
    batch.shutdown();
    assert_eq!(batch.results.len(), 2);
    assert_eq!(batch.results[0].filename, "gone.txt");
    assert_eq!(batch.results[0].errors.len(), 2);
    assert_eq!(batch.results[0].stats.size_bytes, 0);
    assert!(batch.results[1].errors.is_empty());
}

#[test]
fn submission_is_fire_and_forget() {
    let mut batch = Batch::new();
    batch.submit(job(0));
    assert!(batch.queue_open);
    assert_eq!(batch.pending.len(), 1);
    assert_eq!(batch.results.len(), 0);
}

#[test]
fn shutting_down_twice_is_harmless() {
    let mut batch = Batch::new();
    batch.submit(job(0));
    batch.shutdown();
    assert!(!batch.queue_open);
    batch.shutdown();
    assert_eq!(batch.results.len(), 1);
    assert_eq!(batch.pending.len(), 0);
}
