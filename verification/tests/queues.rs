use executor::{Launch, Notify, Park, Pool, Queues, Steal, WorkerStep};

/// Looks again for as long as looking fails.
fn find(queues: &mut Queues, worker: usize) -> Option<usize> {
    loop {
        match queues.find(worker) {
            Steal::Success(task) => return Some(task),
            Steal::Empty => return None,
            Steal::Retry => {}
        }
    }
}

/// Asks again for as long as looking for a task fails.
fn step(pool: &mut Pool, worker: usize, closed: bool) -> WorkerStep {
    loop {
        let step = pool.step(worker, closed);
        if step != WorkerStep::Retry {
            return step;
        }
    }
}

#[test]
fn steals_are_joined() {
    let (empty, one, two, retry) =
        (Steal::Empty, Steal::Success(1), Steal::Success(2), Steal::Retry);
    assert_eq!(one.or_else(two), one);
    assert_eq!(one.or_else(empty), one);
    assert_eq!(one.or_else(retry), one);
    assert_eq!(empty.or_else(two), two);
    assert_eq!(empty.or_else(empty), empty);
    assert_eq!(empty.or_else(retry), retry);
    assert_eq!(retry.or_else(two), two);
    assert_eq!(retry.or_else(empty), retry);
    assert_eq!(retry.or_else(retry), retry);
}

#[test]
fn empty_queues_hold_nothing() {
    let mut queues = Queues::new(2);
    assert_eq!(queues.workers(), 2);
    assert_eq!(queues.find(0), Steal::Empty);
    assert_eq!(queues.find(1), Steal::Empty);
}

#[test]
fn one_worker_runs_tasks_in_order() {
    let mut queues = Queues::new(1);
    for task in 0..100 {
        queues.push(task);
    }
    for task in 0..50 {
        assert_eq!(find(&mut queues, 0), Some(task));
    }
    queues.push(100);
    for task in 50..101 {
        assert_eq!(find(&mut queues, 0), Some(task));
    }
    assert_eq!(find(&mut queues, 0), None);
}

#[test]
fn worker_steals_from_its_peer() {
    let mut queues = Queues::new(2);
    for task in 10..20 {
        queues.push(task);
    }
    // However many tasks the first worker takes on, the second one gets hold of
    // all that are left.
    assert_eq!(find(&mut queues, 0), Some(10));
    let mut found = Vec::new();
    while let Some(task) = find(&mut queues, 1) {
        found.push(task);
    }
    found.sort();
    assert_eq!(found, (11..20).collect::<Vec<usize>>());
    assert_eq!(find(&mut queues, 0), None);
    assert_eq!(find(&mut queues, 1), None);
}

#[test]
fn workers_are_stolen_from_in_order() {
    let mut queues = Queues::new(3);
    assert_eq!(queues.steal_from_workers(), Steal::Empty);
    for task in 10..20 {
        queues.push(task);
    }
    // Nobody has taken these on.
    assert_eq!(queues.steal_from_workers(), Steal::Empty);
    assert_eq!(find(&mut queues, 1), Some(10));
    // Those that the second worker has taken on follow in order.
    let mut next = 11;
    while let Steal::Success(task) = queues.steal_from_workers() {
        assert_eq!(task, next);
        next += 1;
    }
    // The others are still in the injector.
    for task in next..20 {
        assert_eq!(find(&mut queues, 2), Some(task));
    }
    assert_eq!(find(&mut queues, 2), None);
}

#[test]
fn peers_are_left_alone_by_a_worker_that_was_given_a_task() {
    let mut queues = Queues::new(2);
    for task in 0..10 {
        queues.push(task);
    }
    assert_eq!(find(&mut queues, 0), Some(0));
    assert_eq!(queues.find_after(Steal::Success(42)), Steal::Success(42));
    for task in 1..10 {
        assert_eq!(find(&mut queues, 0), Some(task));
    }
}

#[test]
fn worker_that_was_given_none_turns_to_its_peers() {
    let mut queues = Queues::new(2);
    assert_eq!(queues.find_after(Steal::Empty), Steal::Empty);
    assert_eq!(queues.find_after(Steal::Retry), Steal::Retry);
    for task in 0..10 {
        queues.push(task);
    }
    // The injector is not asked again.
    assert_eq!(queues.find_after(Steal::Empty), Steal::Empty);
    assert_eq!(queues.find_after(Steal::Retry), Steal::Retry);
    assert_eq!(find(&mut queues, 0), Some(0));
    let mut next = 1;
    for first in [Steal::Retry, Steal::Empty] {
        while let Steal::Success(task) = queues.find_after(first) {
            assert_eq!(task, next);
            next += 1;
        }
        assert_eq!(queues.find_after(first), first);
    }
}

#[test]
fn worker_asks_its_own_queue_before_the_injector() {
    let mut queues = Queues::new(2);
    assert_eq!(queues.ask(0), Steal::Empty);
    for task in 0..10 {
        queues.push(task);
    }
    let mut next = 0;
    while next < 10 {
        match queues.ask(0) {
            Steal::Success(task) => {
                assert_eq!(task, next);
                next += 1;
            }
            first => assert_eq!(first, Steal::Retry),
        }
    }
    assert_eq!(queues.ask(0), Steal::Empty);
}

#[test]
fn worker_acts_on_what_it_has_found() {
    let mut pool = Pool::new(1, 1);
    assert_eq!(pool.decide(Steal::Success(9), false), WorkerStep::Run(9));
    assert_eq!(pool.decide(Steal::Success(9), true), WorkerStep::Run(9));
    assert_eq!(pool.decide(Steal::Retry, false), WorkerStep::Retry);
    assert_eq!(pool.decide(Steal::Retry, true), WorkerStep::Retry);
    assert_eq!(pool.decide(Steal::Empty, true), WorkerStep::Exit);
    assert_eq!(pool.decide(Steal::Empty, false), WorkerStep::Park(Park::Wait));
}

#[test]
fn every_task_is_found_once() {
    let mut queues = Queues::new(3);
    let mut found = Vec::new();
    for round in 0..40 {
        for task in 0..5 {
            queues.push(5 * round + task);
        }
        for worker in [round % 3, (round + 1) % 3, (round * 7) % 3] {
            found.extend(find(&mut queues, worker));
        }
    }
    queues.add_worker();
    while let Some(task) = find(&mut queues, 3) {
        found.push(task);
    }
    for worker in 0..4 {
        assert_eq!(find(&mut queues, worker), None);
    }
    found.sort();
    assert_eq!(found, (0..200).collect::<Vec<usize>>());
}

#[test]
fn task_numbers_count_up() {
    let mut pool = Pool::new(1, 1);
    assert_eq!(pool.allocate(), 0);
    assert_eq!(pool.allocate(), 1);
    assert_eq!(pool.allocate(), 2);
}

#[test]
fn worker_parks_when_there_is_nothing_to_run() {
    let mut pool = Pool::new(1, 1);
    assert_eq!(pool.step(0, false), WorkerStep::Park(Park::Wait));
    assert_eq!(pool.schedule(7), Notify::One);
    pool.woken();
    assert_eq!(step(&mut pool, 0, false), WorkerStep::Run(7));
    assert_eq!(pool.step(0, false), WorkerStep::Park(Park::Wait));
}

#[test]
fn worker_does_not_sleep_on_a_wake_up_left_behind() {
    let mut pool = Pool::new(1, 1);
    assert_eq!(pool.schedule(7), Notify::Nobody);
    assert_eq!(step(&mut pool, 0, false), WorkerStep::Run(7));
    assert_eq!(pool.step(0, false), WorkerStep::Park(Park::Skip));
    assert_eq!(pool.step(0, false), WorkerStep::Park(Park::Wait));
}

#[test]
fn worker_of_a_closed_pool_runs_what_is_left() {
    let mut pool = Pool::new(1, 1);
    pool.schedule(3);
    pool.schedule(4);
    assert_eq!(step(&mut pool, 0, true), WorkerStep::Run(3));
    assert_eq!(step(&mut pool, 0, true), WorkerStep::Run(4));
    assert_eq!(pool.step(0, true), WorkerStep::Exit);
    assert_eq!(pool.unpark_all(), Notify::Everyone);
}

#[test]
fn blocking_workers_are_started_up_to_the_limit() {
    let mut pool = Pool::new(0, 2);
    assert_eq!(pool.launch(0), Launch::Start(0));
    assert_eq!(pool.launch(1), Launch::Start(1));
    assert_eq!(pool.launch(2), Launch::Wake(Notify::Nobody));
    assert_eq!(pool.workers(), 2);
}

#[test]
fn sleeping_blocking_worker_is_preferred_to_a_new_one() {
    let mut pool = Pool::new(0, 2);
    assert_eq!(pool.launch(0), Launch::Start(0));
    assert_eq!(step(&mut pool, 0, false), WorkerStep::Run(0));
    assert_eq!(pool.step(0, false), WorkerStep::Park(Park::Wait));
    assert_eq!(pool.launch(1), Launch::Wake(Notify::One));
    assert_eq!(pool.workers(), 1);
    pool.woken();
    assert_eq!(step(&mut pool, 0, false), WorkerStep::Run(1));
    assert_eq!(pool.launch(2), Launch::Start(1));
}

#[test]
fn no_blocking_worker_is_started_where_none_may_be() {
    let mut pool = Pool::new(0, 0);
    assert_eq!(pool.launch(0), Launch::Wake(Notify::Nobody));
    assert_eq!(pool.workers(), 0);
}
