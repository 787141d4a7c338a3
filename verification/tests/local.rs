use minicluster::threads::{ClusterCoordinator, Task};

fn count_last_byte(data: &Vec<u8>) -> Vec<u8> {
    let needle = data[data.len() - 1];
    let mut cnt = 0u64;
    for c in &data[..data.len() - 1] {
        if *c == needle {
            cnt += 1;
        }
    }
    cnt.to_le_bytes().to_vec()
}

#[test]
fn local_task_carries_its_ids_and_payload() {
    let task = Task::new(vec![1, 2], 3, 4, count_last_byte);
    assert_eq!(task.get_uid(), 3);
    assert_eq!(task.get_guid(), 4);
    assert_eq!(task.data, vec![1, 2]);
    assert_eq!(task.result, Vec::<u8>::new());
    assert!(task.program.is_some());
}

#[test]
fn end_to_end_four_tasks_counting_a_needle_byte() {
    let mut coord = ClusterCoordinator::new();
    let mut ids = Vec::new();
    for _ in 0..4 {
        ids.push(coord.add_task(b"aaba".to_vec(), count_last_byte));
    }
    for i in 0..ids.len() {
        for j in 0..ids.len() {
            if i != j {
                assert_ne!(ids[i], ids[j]);
            }
        }
    }
    let mut finished = Vec::new();
    while finished.len() != 4 {
        coord.handle_client();
        if let Some(done) = coord.extract_computed() {
            finished.extend(done);
        }
    }
    for task in &finished {
        assert_eq!(task.data, b"aaba".to_vec());
        assert_eq!(task.result, 2u64.to_le_bytes().to_vec());
    }
    coord.terminate();
}

#[test]
fn closures_can_capture_their_context() {
    let offset = 40u8;
    let add_offset = move |data: &Vec<u8>| vec![data[0] + offset];
    let mut coord = ClusterCoordinator::new();
    coord.add_task(vec![2], add_offset);
    coord.handle_client();
    let done = coord.extract_computed().unwrap();
    assert_eq!(done.len(), 1);
    assert_eq!(done[0].result, vec![42]);
}

#[test]
fn dispatch_step_does_nothing_when_idle_is_empty() {
    let mut coord: ClusterCoordinator<fn(&Vec<u8>) -> Vec<u8>> = ClusterCoordinator::new();
    coord.handle_client();
    assert!(coord.extract_computed().is_none());
}

#[test]
fn terminate_stops_the_dispatch_loop_from_taking_tasks() {
    let mut coord = ClusterCoordinator::new();
    coord.add_task(vec![9], count_last_byte);
    coord.terminate();
    assert!(coord.is_terminated());
    coord.handle_client();
    assert!(coord.extract_computed().is_none());
}

#[test]
fn completed_tasks_keep_their_callable_slot() {
    let mut coord = ClusterCoordinator::new();
    coord.add_task(vec![7, 7], count_last_byte);
    coord.handle_client();
    let done = coord.extract_computed().unwrap();
    assert!(done[0].program.is_some());
    assert_eq!(done[0].result, 1u64.to_le_bytes().to_vec());
}
