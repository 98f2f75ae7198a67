use shadow_core::host::Host;
use shadow_core::scheduler::{HostIter, NewScheduler};
use shadow_core::thread_per_host;

fn hosts(n: u32) -> Vec<Host> {
    (0..n).map(|i| Host::new(i, format!("host{}", i), [10, 0, 0, i as u8])).collect()
}

fn ids(queues: &[Vec<Host>]) -> Vec<Vec<u32>> {
    queues.iter().map(|q| q.iter().map(|h| h.id).collect()).collect()
}

#[test]
fn round_robin_five_hosts_three_threads() {
    let sched = NewScheduler::new(3, hosts(5));
    assert_eq!(sched.parallelism(), 3);
    assert_eq!(ids(&sched.join()), vec![vec![0, 3], vec![1, 4], vec![2]]);
}

#[test]
fn round_leaving_hosts_in_place_keeps_partition() {
    let mut sched = NewScheduler::new(3, hosts(5));
    sched.begin_scope();
    let mut iters: Vec<HostIter> = (0..3).map(HostIter::new).collect();
    // the workers take turns, each taking from its own queue first
    let mut seen = Vec::new();
    for _ in 0..3 {
        for it in iters.iter_mut() {
            if let Some(h) = it.next(&mut sched) {
                h.name.push_str("!");
                seen.push(h.id);
            }
        }
    }
    for it in iters {
        assert!(it.finish(&mut sched));
    }
    sched.set_hosts_need_swap();
    sched.begin_scope();
    seen.sort();
    assert_eq!(seen, vec![0, 1, 2, 3, 4]);
    let queues = sched.join();
    assert_eq!(ids(&queues), vec![vec![0, 3], vec![1, 4], vec![2]]);
    assert!(queues.iter().flatten().all(|h| h.name.ends_with('!')));
}

#[test]
fn one_worker_steals_every_host() {
    let mut sched = NewScheduler::new(3, hosts(5));
    let mut it = HostIter::new(1);
    let mut order = Vec::new();
    while let Some(h) = it.next(&mut sched) {
        order.push(h.id);
    }
    assert!(!it.holds_host());
    assert!(it.finish(&mut sched));
    // own queue first, then the queues after it in circular order
    assert_eq!(order, vec![1, 4, 2, 0, 3]);
    sched.set_hosts_need_swap();
    assert_eq!(ids(&sched.join()), vec![vec![], vec![1, 4, 2, 0, 3], vec![]]);
}

#[test]
fn partial_drain_is_reported() {
    let mut sched = NewScheduler::new(2, hosts(4));
    let mut it = HostIter::new(0);
    assert!(it.next(&mut sched).is_some());
    assert!(it.holds_host());
    assert!(!it.finish(&mut sched));
    let untouched = HostIter::new(1);
    assert!(!untouched.finish(&mut sched));
    // nothing was lost
    let mut all: Vec<u32> = sched.join().into_iter().flatten().map(|h| h.id).collect();
    all.sort();
    assert_eq!(all, vec![0, 1, 2, 3]);
}

#[test]
fn hosts_conserved_over_rounds() {
    let mut sched = NewScheduler::new(4, hosts(9));
    for round in 0..3 {
        sched.begin_scope();
        let mut iters: Vec<HostIter> = (0..4).map(HostIter::new).collect();
        let mut turn = round;
        loop {
            let mut any = false;
            for k in 0..4 {
                let it = &mut iters[(k + turn) % 4];
                if it.next(&mut sched).is_some() {
                    any = true;
                }
            }
            turn += 1;
            if !any {
                break;
            }
        }
        for it in iters {
            assert!(it.finish(&mut sched));
        }
        sched.set_hosts_need_swap();
    }
    let mut all: Vec<u32> = sched.join().into_iter().flatten().map(|h| h.id).collect();
    all.sort();
    assert_eq!(all, (0..9).collect::<Vec<u32>>());
}

#[test]
fn empty_host_set() {
    let mut sched = NewScheduler::new(2, Vec::new());
    sched.begin_scope();
    let mut it = HostIter::new(0);
    assert!(it.next(&mut sched).is_none());
    assert!(it.finish(&mut sched));
    assert_eq!(ids(&sched.join()), vec![Vec::<u32>::new(), vec![]]);
}

#[test]
fn thread_per_host_for_each() {
    let mut it = thread_per_host::HostIter::new(Some(Box::new(Host::new(1, "a".to_string(), [1, 2, 3, 4]))));
    it.for_each(|mut h| {
        h.name.push('b');
        h
    });
    let h = it.into_host().unwrap();
    assert_eq!(h.name, "ab");
    assert_eq!(h.id, 1);
}
