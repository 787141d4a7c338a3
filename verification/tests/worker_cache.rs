use minicluster::client::ClientReceiver;
use minicluster::store::TasksContainer;

#[test]
fn identical_program_bytes_compile_once() {
    let mut recv = ClientReceiver::new();
    let program = b"int main() { return 0; }".to_vec();
    // first poll: a miss, so the external compiler would be invoked
    assert_eq!(recv.lookup(&program), None);
    let artifact = recv.note_compiled(program.clone()).unwrap();
    // second poll with identical bytes: a hit, no compiler invocation
    assert_eq!(recv.lookup(&program), Some(artifact));
}

#[test]
fn distinct_programs_get_distinct_artifacts() {
    let mut recv = ClientReceiver::new();
    let first = recv.note_compiled(b"first".to_vec()).unwrap();
    let second = recv.note_compiled(b"second".to_vec()).unwrap();
    assert_ne!(first, second);
    assert_eq!(recv.lookup(&b"first".to_vec()), Some(first));
    assert_eq!(recv.lookup(&b"second".to_vec()), Some(second));
}

#[test]
fn eviction_forgets_one_program_only() {
    let mut recv = ClientReceiver::new();
    let doomed = recv.note_compiled(b"doomed".to_vec()).unwrap();
    let kept = recv.note_compiled(b"kept".to_vec()).unwrap();
    assert_eq!(recv.evict(&b"doomed".to_vec()), Some(doomed));
    assert_eq!(recv.lookup(&b"doomed".to_vec()), None);
    assert_eq!(recv.lookup(&b"kept".to_vec()), Some(kept));
}

#[test]
fn evicting_an_unknown_program_reports_nothing() {
    let mut recv = ClientReceiver::new();
    recv.note_compiled(b"known".to_vec()).unwrap();
    assert_eq!(recv.evict(&b"unknown".to_vec()), None);
}

#[test]
fn shutdown_sees_every_cached_artifact() {
    let mut recv = ClientReceiver::new();
    let a = recv.note_compiled(vec![1]).unwrap();
    let b = recv.note_compiled(vec![2]).unwrap();
    let c = recv.note_compiled(vec![3]).unwrap();
    assert_eq!(recv.artifacts(), vec![a, b, c]);
    recv.clear();
    assert_eq!(recv.artifacts(), Vec::<u64>::new());
    assert_eq!(recv.lookup(&vec![1]), None);
}

#[test]
fn container_pops_in_lifo_order() {
    let mut store: TasksContainer<u32> = TasksContainer::new();
    store.push_idle(1);
    store.push_idle(2);
    store.push_idle(3);
    assert_eq!(store.take_idle(), Some(3));
    assert_eq!(store.take_idle(), Some(2));
    store.push_idle(4);
    assert_eq!(store.take_idle(), Some(4));
    assert_eq!(store.take_idle(), Some(1));
    assert_eq!(store.take_idle(), None);
}

#[test]
fn succeeded_bucket_is_created_lazily_and_swapped_out_whole() {
    let mut store: TasksContainer<u32> = TasksContainer::new();
    assert_eq!(store.take_succeeded(), None);
    store.push_succeeded(10);
    store.push_succeeded(11);
    assert_eq!(store.take_succeeded(), Some(vec![10, 11]));
    assert_eq!(store.take_succeeded(), None);
}

#[test]
fn container_ids_count_up_from_zero() {
    let mut store: TasksContainer<u32> = TasksContainer::new();
    assert_eq!(store.get_new_uid(), 0);
    assert_eq!(store.get_new_uid(), 1);
    assert_eq!(store.get_new_uid(), 2);
}
