use executor::{
    BlockOn, Context, ContextError, Entry, Executor, Launch, Notify, Park, Parking, Polled,
    WorkerStep,
};

#[test]
fn executor_is_sized_to_the_machine() {
    let cpus = num_cpus::get().max(1);
    assert_eq!(Executor::new().async_workers(), cpus);
    assert_eq!(Executor::default().async_workers(), cpus);
    assert_eq!(Executor::new().blocking_workers(), 0);
    assert_eq!(Executor::new().blocking_limit(), cpus * 4);
    assert_eq!(Executor::with_workers(3, 5).async_workers(), 3);
    assert_eq!(Executor::with_workers(3, 5).blocking_limit(), 5);
}

#[test]
fn sizes_follow_the_number_of_processors() {
    assert_eq!(Executor::sizes(0), (1, 4));
    assert_eq!(Executor::sizes(1), (1, 4));
    assert_eq!(Executor::sizes(8), (8, 32));
    assert_eq!(Executor::sizes(usize::MAX / 4), (usize::MAX / 4, usize::MAX - 3));
    assert_eq!(Executor::sizes(usize::MAX / 4 + 1), (usize::MAX / 4 + 1, 0));
}

#[test]
fn both_kinds_of_tasks_are_numbered_on_their_own() {
    let mut executor = Executor::with_workers(1, 1);
    assert_eq!(executor.spawn(), (0, Notify::Nobody));
    assert_eq!(executor.spawn(), (1, Notify::Nobody));
    assert_eq!(executor.spawn_blocking(), (0, Launch::Start(0)));
    assert_eq!(executor.spawn_blocking(), (1, Launch::Wake(Notify::Nobody)));
    assert_eq!(executor.async_workers(), 1);
    assert_eq!(executor.blocking_workers(), 1);
}

#[test]
fn workers_sleep_and_are_woken() {
    let mut executor = Executor::with_workers(1, 1);
    assert_eq!(executor.async_worker(0), WorkerStep::Park(Park::Wait));
    assert_eq!(executor.spawn(), (0, Notify::One));
    executor.async_woken();
    assert_eq!(executor.spawn_blocking(), (0, Launch::Start(0)));
    while executor.blocking_worker(0) != WorkerStep::Run(0) {}
    assert_eq!(executor.blocking_worker(0), WorkerStep::Park(Park::Wait));
    assert_eq!(executor.schedule_blocking(5), Launch::Wake(Notify::One));
    executor.blocking_woken();
    while executor.blocking_worker(0) != WorkerStep::Run(5) {}
    while executor.async_worker(0) != WorkerStep::Run(0) {}
    assert_eq!(executor.schedule(0), Notify::Nobody);
    while executor.async_worker(0) != WorkerStep::Run(0) {}
}

#[test]
fn last_handle_shuts_the_executor_down() {
    let mut executor = Executor::with_workers(1, 1);
    executor.retain();
    assert_eq!(executor.upgrade(), Ok(()));
    assert_eq!(executor.release(), (Notify::Nobody, Notify::Nobody));
    assert_eq!(executor.release(), (Notify::Nobody, Notify::Nobody));
    assert_eq!(executor.async_worker(0), WorkerStep::Park(Park::Wait));
    assert_eq!(executor.release(), (Notify::Everyone, Notify::Everyone));
    executor.async_woken();
    assert_eq!(executor.async_worker(0), WorkerStep::Exit);
    assert_eq!(executor.upgrade(), Err((Notify::Everyone, Notify::Everyone)));
    assert_eq!(executor.upgrade(), Err((Notify::Everyone, Notify::Everyone)));
}

#[test]
fn tasks_that_are_queued_outlive_the_handles() {
    let mut executor = Executor::with_workers(1, 1);
    executor.spawn();
    executor.release();
    while executor.async_worker(0) != WorkerStep::Run(0) {}
    assert_eq!(executor.async_worker(0), WorkerStep::Exit);
}

#[test]
fn future_is_polled_until_it_is_ready() {
    let mut parking = Parking::new();
    assert!(matches!(
        Executor::block_on(Polled::<i32>::Pending, &mut parking),
        BlockOn::Park(Park::Wait)
    ));
    parking.woken();
    parking.unpark_one();
    assert!(matches!(
        Executor::block_on(Polled::<i32>::Pending, &mut parking),
        BlockOn::Park(Park::Skip)
    ));
    assert!(matches!(
        Executor::block_on(Polled::Ready(4), &mut parking),
        BlockOn::Return(4)
    ));
}

#[test]
fn thread_parks_once_after_each_pending_poll() {
    let mut parking = Parking::new();
    let mut answers = vec![
        Polled::Pending,
        Polled::Pending,
        Polled::Pending,
        Polled::Ready(4),
        Polled::Ready(5),
    ]
    .into_iter();
    let (mut polls, mut parks) = (0, 0);
    let output = loop {
        polls += 1;
        // Every other time the waker is called before the thread parks.
        if polls % 2 == 0 {
            assert_eq!(parking.unpark_one(), Notify::Nobody);
        }
        match Executor::block_on(answers.next().unwrap(), &mut parking) {
            BlockOn::Return(output) => break output,
            BlockOn::Park(Park::Skip) => {
                assert_eq!(polls % 2, 0);
                parks += 1;
            }
            BlockOn::Park(Park::Wait) => {
                assert_eq!(polls % 2, 1);
                parks += 1;
                parking.woken();
            }
        }
    };
    assert_eq!((output, polls, parks), (4, 4, 3));
    assert!(parking.is_empty());
}

#[test]
fn handles_are_counted() {
    let mut executor = Executor::with_workers(2, 3);
    for _ in 0..4 {
        executor.retain();
    }
    assert_eq!(executor.upgrade(), Ok(()));
    executor.spawn();
    executor.spawn_blocking();
    for _ in 0..5 {
        assert_eq!(executor.release(), (Notify::Nobody, Notify::Nobody));
    }
    assert_eq!(executor.async_workers(), 2);
    assert_eq!(executor.blocking_workers(), 1);
    assert_eq!(executor.release(), (Notify::Everyone, Notify::Everyone));
}

#[test]
fn block_on_joins_the_current_executor() {
    let mut executor = Executor::with_workers(1, 1);
    assert!(matches!(executor::block_on(Some(&mut executor)), Ok(Entry::Current)));
    assert_eq!(executor.release(), (Notify::Nobody, Notify::Nobody));
    assert_eq!(executor.release(), (Notify::Everyone, Notify::Everyone));
}

#[test]
fn block_on_starts_an_executor_where_there_is_none() {
    let cpus = num_cpus::get().max(1);
    match executor::block_on(None) {
        Ok(Entry::Fresh(executor)) => assert_eq!(executor.async_workers(), cpus),
        _ => panic!("no new executor"),
    }
}

#[test]
fn nothing_is_done_in_an_executor_that_is_shut_down() {
    let mut executor = Executor::with_workers(1, 1);
    executor.release();
    let error = ContextError::ShutDown(Notify::Everyone, Notify::Everyone);
    assert!(matches!(executor::block_on(Some(&mut executor)), Err(e) if e == error));
    assert_eq!(executor::spawn(Some(&mut executor)), Err(error));
    assert_eq!(executor::spawn_blocking(Some(&mut executor)), Err(error));
    assert_eq!(error.message(), "executor is shut down");
}

#[test]
fn nothing_is_spawned_outside_of_an_executor() {
    assert_eq!(executor::spawn(None), Err(ContextError::Outside));
    assert_eq!(executor::spawn_blocking(None), Err(ContextError::Outside));
    assert_eq!(
        ContextError::Outside.message(),
        "cannot implicitely spawn tasks outside of an executor context"
    );
}

#[test]
fn tasks_are_spawned_in_the_current_executor() {
    let mut executor = Executor::with_workers(1, 1);
    assert_eq!(executor::spawn(Some(&mut executor)), Ok((0, Notify::Nobody)));
    assert_eq!(executor::spawn_blocking(Some(&mut executor)), Ok((0, Launch::Start(0))));
    // No handle was kept.
    assert_eq!(executor.release(), (Notify::Everyone, Notify::Everyone));
}

#[test]
fn leaving_an_executor_undoes_entering_it() {
    let mut context = Context::new();
    assert_eq!(context.current(), None);
    let outer = context.enter("outer");
    assert_eq!(context.current(), Some(&"outer"));
    let inner = context.enter("inner");
    assert_eq!(context.current(), Some(&"inner"));
    context.leave(inner);
    assert_eq!(context.current(), Some(&"outer"));
    context.leave(outer);
    assert_eq!(context.current(), None);
}
