//! Futures run on an executor whose workers take turns on a single thread.
use async_task::{Runnable, Task};
use executor::{
    BlockOn, Context, Entry, Executor, Launch, Notify, Park, Parking, Polled, WorkerStep,
};
use futures::channel::mpsc::{self, UnboundedReceiver, UnboundedSender};
use futures::task::ArcWake;
use futures::StreamExt;
use std::collections::HashMap;
use std::future::Future;
use std::pin::Pin;
use std::sync::{Arc, Mutex};
use std::task::Poll;

/// The workers of one pool. Each of them is either asleep or not.
struct Workers {
    asleep: Vec<bool>,
    tasks: HashMap<usize, Runnable>,
}

struct State {
    core: Executor,
    context: Context<()>,
    asinc: Workers,
    blocking: Workers,
}

#[derive(Clone)]
struct Machine {
    state: Arc<Mutex<State>>,
}

/// Where the thread sleeps that runs a future to completion.
struct Bed {
    parking: Mutex<(Parking, bool)>,
}

impl ArcWake for Bed {
    fn wake_by_ref(bed: &Arc<Self>) {
        let mut guard = bed.parking.lock().unwrap();
        if guard.0.unpark_one() == Notify::One {
            guard.1 = true;
        }
    }
}

impl Workers {
    /// Picks one worker to wake.
    fn wake(&mut self, notify: Notify) -> bool {
        assert_ne!(notify, Notify::Everyone);
        match self.asleep.iter().position(|asleep| *asleep) {
            Some(worker) if notify == Notify::One => {
                self.asleep[worker] = false;
                true
            }
            _ => false,
        }
    }
}

impl State {
    fn signal_async(&mut self, notify: Notify) {
        if self.asinc.wake(notify) {
            self.core.async_woken();
        }
    }

    fn launch(&mut self, launch: Launch) {
        match launch {
            Launch::Start(worker) => {
                assert_eq!(worker, self.blocking.asleep.len());
                self.blocking.asleep.push(false);
            }
            Launch::Wake(notify) => {
                if self.blocking.wake(notify) {
                    self.core.blocking_woken();
                }
            }
        }
    }

    /// Lets each worker that is awake take one step. Returns the tasks that
    /// they run, or `None` if all of them are asleep.
    fn turn(&mut self) -> Option<Vec<Runnable>> {
        let mut idle = true;
        let mut runnables = Vec::new();
        for worker in 0..self.asinc.asleep.len() {
            if !self.asinc.asleep[worker] {
                idle = false;
                match self.core.async_worker(worker) {
                    WorkerStep::Run(id) => runnables.push(self.asinc.tasks.remove(&id).unwrap()),
                    WorkerStep::Park(Park::Wait) => self.asinc.asleep[worker] = true,
                    WorkerStep::Park(Park::Skip) | WorkerStep::Retry => {}
                    WorkerStep::Exit => panic!("a worker is done"),
                }
            }
        }
        for worker in 0..self.blocking.asleep.len() {
            if !self.blocking.asleep[worker] {
                idle = false;
                match self.core.blocking_worker(worker) {
                    WorkerStep::Run(id) => runnables.push(self.blocking.tasks.remove(&id).unwrap()),
                    WorkerStep::Park(Park::Wait) => self.blocking.asleep[worker] = true,
                    WorkerStep::Park(Park::Skip) | WorkerStep::Retry => {}
                    WorkerStep::Exit => panic!("a worker is done"),
                }
            }
        }
        if idle {
            None
        } else {
            Some(runnables)
        }
    }
}

impl Machine {
    /// A machine for a thread that is not running inside any executor.
    fn fresh() -> Self {
        match executor::block_on(None) {
            Ok(Entry::Fresh(core)) => Self::start(core),
            _ => panic!("no new executor"),
        }
    }

    fn start(core: Executor) -> Self {
        let asinc = Workers { asleep: vec![false; core.async_workers()], tasks: HashMap::new() };
        let blocking = Workers { asleep: Vec::new(), tasks: HashMap::new() };
        let state = State { core, context: Context::new(), asinc, blocking };
        Machine { state: Arc::new(Mutex::new(state)) }
    }

    fn spawn<F: Future>(&self, future: F) -> Task<F::Output>
    where
        F: Send + 'static,
        F::Output: Send + 'static,
    {
        let mut state = self.state.lock().unwrap();
        let inside = state.context.current().is_some();
        let (id, notify) = executor::spawn(inside.then_some(&mut state.core)).unwrap();
        let machine = self.clone();
        let (runnable, task) = async_task::spawn(future, move |runnable| {
            let mut state = machine.state.lock().unwrap();
            state.asinc.tasks.insert(id, runnable);
            let notify = state.core.schedule(id);
            state.signal_async(notify);
        });
        state.asinc.tasks.insert(id, runnable);
        state.signal_async(notify);
        task
    }

    fn spawn_blocking<T, F: FnOnce() -> T>(&self, f: F) -> Task<T>
    where
        F: Send + 'static,
        T: Send + 'static,
    {
        let mut state = self.state.lock().unwrap();
        let inside = state.context.current().is_some();
        let (id, launch) = executor::spawn_blocking(inside.then_some(&mut state.core)).unwrap();
        let machine = self.clone();
        let future = futures::future::lazy(move |_| f());
        let (runnable, task) = async_task::spawn(future, move |runnable| {
            let mut state = machine.state.lock().unwrap();
            state.blocking.tasks.insert(id, runnable);
            let launch = state.core.schedule_blocking(id);
            state.launch(launch);
        });
        state.blocking.tasks.insert(id, runnable);
        state.launch(launch);
        task
    }

    fn run<F: Future>(&self, future: F) -> F::Output {
        let mut future: Pin<Box<F>> = Box::pin(future);
        let bed = Arc::new(Bed { parking: Mutex::new((Parking::new(), false)) });
        let waker = futures::task::waker(bed.clone());
        let mut context = std::task::Context::from_waker(&waker);
        let entered = self.state.lock().unwrap().context.enter(());
        let output = loop {
            let polled = match future.as_mut().poll(&mut context) {
                Poll::Ready(output) => Polled::Ready(output),
                Poll::Pending => Polled::Pending,
            };
            let next = Executor::block_on(polled, &mut bed.parking.lock().unwrap().0);
            match next {
                BlockOn::Return(output) => break output,
                BlockOn::Park(Park::Skip) => {}
                BlockOn::Park(Park::Wait) => {
                    while !bed.parking.lock().unwrap().1 {
                        let runnables = self.state.lock().unwrap().turn();
                        for runnable in runnables.expect("everyone is asleep") {
                            runnable.run();
                        }
                    }
                    let mut guard = bed.parking.lock().unwrap();
                    guard.1 = false;
                    guard.0.woken();
                }
            }
        };
        self.state.lock().unwrap().context.leave(entered);
        output
    }
}

/// A future that is ready when it has been polled that many times.
fn after_polls(mut polls: usize) -> impl Future<Output = usize> {
    futures::future::poll_fn(move |context| {
        if polls == 0 {
            return Poll::Ready(7);
        }
        polls -= 1;
        context.waker().wake_by_ref();
        Poll::Pending
    })
}

#[test]
fn block_on() {
    let machine = Machine::fresh();
    let four = machine.run(async { 2 + 2 });
    assert_eq!(four, 4);
    let notify = machine.state.lock().unwrap().core.release();
    assert_eq!(notify, (Notify::Everyone, Notify::Everyone));
}

#[test]
fn block_on_inside_an_executor() {
    let machine = Machine::fresh();
    let inner = machine.clone();
    let four = machine.run(async move {
        let entry = executor::block_on(Some(&mut inner.state.lock().unwrap().core));
        assert!(matches!(entry, Ok(Entry::Current)));
        let four = inner.run(async { inner.spawn(async { 2 + 2 }).await });
        let notify = inner.state.lock().unwrap().core.release();
        assert_eq!(notify, (Notify::Nobody, Notify::Nobody));
        four
    });
    assert_eq!(four, 4);
}

#[test]
fn spawn() {
    let machine = Machine::fresh();
    let four = machine.run(async { machine.spawn(async { 2 + 2 }).await });
    assert_eq!(four, 4);
}

#[test]
fn spawn_blocking() {
    let machine = Machine::fresh();
    let four = machine.run(async { machine.spawn_blocking(|| 2 + 2).await });
    assert_eq!(four, 4);
}

#[test]
fn spawn_spawn_blocking() {
    let machine = Machine::fresh();
    let inner = machine.clone();
    let four = machine.run(async {
        machine.spawn(async move { inner.spawn_blocking(|| 2 + 2).await }).await
    });
    assert_eq!(four, 4);
}

#[test]
fn spawn_blocking_spawn() {
    let machine = Machine::fresh();
    let inner = machine.clone();
    let four = machine.run(async {
        let four = machine.spawn_blocking(move || inner.spawn(async { 2 + 2 })).await;
        four.await
    });
    assert_eq!(four, 4);
}

/// Takes five bytes from the other end.
async fn read_exact(end: &mut UnboundedReceiver<u8>) -> [u8; 5] {
    let mut buf = [0; 5];
    for byte in buf.iter_mut() {
        *byte = end.next().await.unwrap();
    }
    buf
}

fn write_all(end: &UnboundedSender<u8>, bytes: &[u8]) {
    for byte in bytes {
        end.unbounded_send(*byte).unwrap();
    }
}

/// Two ends of a connection talk to each other, one of them in a task.
#[test]
fn tcp() {
    let (to_server, mut from_client) = mpsc::unbounded();
    let (to_client, mut from_server) = mpsc::unbounded();

    let server = async move {
        let buf = read_exact(&mut from_client).await;
        assert_eq!(buf.as_ref(), b"hello");

        write_all(&to_client, b"world");
    };

    let client = async move {
        write_all(&to_server, b"hello");

        let buf = read_exact(&mut from_server).await;
        assert_eq!(buf.as_ref(), b"world");
    };

    let machine = Machine::fresh();
    machine.run(async {
        let server = machine.spawn(server);
        client.await;
        server.await;
    });
}

#[test]
fn future_that_wakes_itself_is_polled_again() {
    assert_eq!(Machine::start(Executor::with_workers(1, 1)).run(after_polls(5)), 7);
}

#[test]
fn many_tasks_are_all_run() {
    let machine = Machine::start(Executor::with_workers(3, 2));
    let sum = machine.run(async {
        let tasks: Vec<Task<usize>> = (0..200).map(|n| machine.spawn(after_polls(n % 4))).collect();
        let blocking: Vec<Task<usize>> =
            (0..100).map(|n| machine.spawn_blocking(move || n)).collect();
        let mut sum = 0;
        for task in tasks {
            sum += task.await;
        }
        for task in blocking {
            sum += task.await;
        }
        sum
    });
    assert_eq!(sum, 200 * 7 + 4950);
    assert_eq!(machine.state.lock().unwrap().core.blocking_workers(), 2);
}
