use minicluster::cluster::{ClusterCoordinator, Task};
use minicluster::codec::HostCommand;

#[test]
fn task_carries_its_ids_and_payload() {
    let task = Task::new(vec![1, 2, 3], 7, 9);
    assert_eq!(task.get_uid(), 7);
    assert_eq!(task.get_guid(), 9);
    assert_eq!(task.data, vec![1, 2, 3]);
    assert_eq!(task.result, None);
}

#[test]
fn submitted_ids_are_pairwise_distinct() {
    let mut coord = ClusterCoordinator::new(b"prog".to_vec());
    let mut ids = Vec::new();
    for i in 0..5u8 {
        ids.push(coord.add_task(vec![i]));
    }
    for i in 0..ids.len() {
        for j in 0..ids.len() {
            if i != j {
                assert_ne!(ids[i], ids[j]);
            }
        }
    }
}

#[test]
fn connection_waits_when_no_task_is_idle() {
    let mut coord = ClusterCoordinator::new(b"prog".to_vec());
    let (cmd, task) = coord.handle_client();
    assert_eq!(cmd, HostCommand::Wait);
    assert!(task.is_none());
}

#[test]
fn dispatch_and_completion_surface_in_drain() {
    let mut coord = ClusterCoordinator::new(b"prog".to_vec());
    let uid = coord.add_task(b"payload".to_vec());
    let (cmd, task) = coord.handle_client();
    assert_eq!(cmd, HostCommand::Execute);
    let task = task.unwrap();
    assert_eq!(task.get_uid(), uid);
    assert_eq!(task.data, b"payload".to_vec());
    coord.finish_task(task, Some(vec![42]));
    let drained = coord.extract_computed().unwrap();
    assert_eq!(drained.len(), 1);
    assert_eq!(drained[0].get_uid(), uid);
    assert_eq!(drained[0].data, b"payload".to_vec());
    assert_eq!(drained[0].result, Some(vec![42]));
    // the bucket was swapped out whole
    assert!(coord.extract_computed().is_none());
}

#[test]
fn drain_is_none_before_any_success() {
    let mut coord = ClusterCoordinator::new(b"prog".to_vec());
    coord.add_task(vec![1]);
    assert!(coord.extract_computed().is_none());
}

#[test]
fn idle_pop_order_is_lifo() {
    let mut coord = ClusterCoordinator::new(b"prog".to_vec());
    let first = coord.add_task(vec![1]);
    let second = coord.add_task(vec![2]);
    let (_, task) = coord.handle_client();
    assert_eq!(task.unwrap().get_uid(), second);
    let (_, task) = coord.handle_client();
    assert_eq!(task.unwrap().get_uid(), first);
}

#[test]
fn failed_delivery_requeues_the_task_unmodified() {
    let mut coord = ClusterCoordinator::new(b"prog".to_vec());
    let uid = coord.add_task(b"fragile".to_vec());
    // fail delivery twice, succeed on the third attempt
    for _ in 0..2 {
        let (cmd, task) = coord.handle_client();
        assert_eq!(cmd, HostCommand::Execute);
        let task = task.unwrap();
        assert_eq!(task.data, b"fragile".to_vec());
        assert_eq!(task.result, None);
        coord.finish_task(task, None);
        assert!(coord.extract_computed().is_none());
    }
    let (cmd, task) = coord.handle_client();
    assert_eq!(cmd, HostCommand::Execute);
    let task = task.unwrap();
    assert_eq!(task.data, b"fragile".to_vec());
    coord.finish_task(task, Some(vec![1]));
    let drained = coord.extract_computed().unwrap();
    assert_eq!(drained.len(), 1);
    assert_eq!(drained[0].get_uid(), uid);
    assert_eq!(drained[0].data, b"fragile".to_vec());
    assert_eq!(drained[0].result, Some(vec![1]));
    // exactly once: nothing further accumulates
    assert!(coord.extract_computed().is_none());
    let (cmd, task) = coord.handle_client();
    assert_eq!(cmd, HostCommand::Wait);
    assert!(task.is_none());
}

#[test]
fn no_loss_no_duplication_across_many_tasks() {
    let mut coord = ClusterCoordinator::new(b"prog".to_vec());
    let mut expected: Vec<usize> = Vec::new();
    for i in 0..4u8 {
        expected.push(coord.add_task(vec![i]));
    }
    let mut seen: Vec<usize> = Vec::new();
    loop {
        let (cmd, task) = coord.handle_client();
        if cmd != HostCommand::Execute {
            break;
        }
        let task = task.unwrap();
        let echoed = task.data.clone();
        coord.finish_task(task, Some(echoed));
        if let Some(done) = coord.extract_computed() {
            for t in done {
                assert!(t.result.is_some());
                seen.push(t.get_uid());
            }
        }
    }
    seen.sort();
    let mut expected_sorted = expected.clone();
    expected_sorted.sort();
    assert_eq!(seen, expected_sorted);
}

#[test]
fn terminate_refuses_new_connections_but_not_dispatched_work() {
    let mut coord = ClusterCoordinator::new(b"prog".to_vec());
    coord.add_task(b"early".to_vec());
    coord.add_task(b"late".to_vec());
    // one task is dispatched before terminate
    let (cmd, dispatched) = coord.handle_client();
    assert_eq!(cmd, HostCommand::Execute);
    let dispatched = dispatched.unwrap();
    coord.terminate();
    assert!(coord.is_terminated());
    // a newly connecting worker is told Terminate and consumes no task
    let (cmd, task) = coord.handle_client();
    assert_eq!(cmd, HostCommand::Terminate);
    assert!(task.is_none());
    // the task dispatched before terminate still completes and surfaces
    coord.finish_task(dispatched, Some(vec![5]));
    let drained = coord.extract_computed().unwrap();
    assert_eq!(drained.len(), 1);
    assert_eq!(drained[0].data, b"late".to_vec());
    assert_eq!(drained[0].result, Some(vec![5]));
}

#[test]
fn coordinator_exposes_its_program_source() {
    let coord = ClusterCoordinator::new(b"int main() { return 0; }".to_vec());
    assert_eq!(coord.program(), &b"int main() { return 0; }".to_vec());
}
