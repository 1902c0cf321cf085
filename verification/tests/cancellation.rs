use endpoint::Endpoint;
use endpoint::Progress;
use endpoint::Request;
use endpoint::Response;
use std::future::Future;
use std::pin::Pin;
use std::sync::atomic::AtomicUsize;
use std::sync::atomic::Ordering;
use std::sync::Arc;
use std::task::Context;
use std::task::Poll;
use std::task::Waker;

/// Pending for `pending` polls; increments the request's counter when it
/// resolves, and `drops` when it is dropped.
struct CountAtResolution {
    pending: usize,
    resolved: Arc<AtomicUsize>,
    drops: Arc<AtomicUsize>,
}

impl Future for CountAtResolution {
    type Output = String;

    fn poll(mut self: Pin<&mut Self>, cx: &mut Context<'_>) -> Poll<String> {
        if self.pending == 0 {
            self.resolved.fetch_add(1, Ordering::SeqCst);
            Poll::Ready(String::from("resolved"))
        } else {
            self.pending -= 1;
            cx.waker().wake_by_ref();
            Poll::Pending
        }
    }
}

impl Drop for CountAtResolution {
    fn drop(&mut self) {
        self.drops.fetch_add(1, Ordering::SeqCst);
    }
}

struct Counters {
    resolved: Arc<AtomicUsize>,
    drops: Arc<AtomicUsize>,
}

fn counting(cx: Request<Counters>) -> CountAtResolution {
    CountAtResolution {
        pending: cx.body().len(),
        resolved: cx.state().resolved.clone(),
        drops: cx.state().drops.clone(),
    }
}

fn counters() -> Arc<Counters> {
    Arc::new(Counters { resolved: Arc::new(AtomicUsize::new(0)), drops: Arc::new(AtomicUsize::new(0)) })
}

#[test]
fn dropping_before_resolution_abandons_the_handler_computation() {
    let state = counters();
    let mut composed = counting.call(Request::new(state.clone(), vec![0; 2]));
    let mut cx = Context::from_waker(Waker::noop());
    assert_eq!(composed.drive(&mut cx), Progress::Pending);
    assert_eq!(state.drops.load(Ordering::SeqCst), 0);
    drop(composed);
    assert_eq!(state.resolved.load(Ordering::SeqCst), 0);
    assert_eq!(state.drops.load(Ordering::SeqCst), 1);
}

#[test]
fn dropping_before_the_first_step_abandons_the_handler_computation() {
    let state = counters();
    let composed = counting.call(Request::new(state.clone(), Vec::new()));
    drop(composed);
    assert_eq!(state.resolved.load(Ordering::SeqCst), 0);
    assert_eq!(state.drops.load(Ordering::SeqCst), 1);
}

#[test]
fn a_boxed_computation_dropped_early_abandons_the_handler_computation() {
    let state = counters();
    let mut boxed: Pin<Box<dyn Future<Output = Response> + Send>> =
        Box::pin(counting.call(Request::new(state.clone(), vec![0; 3])));
    let mut cx = Context::from_waker(Waker::noop());
    assert_eq!(boxed.as_mut().poll(&mut cx), Poll::Pending);
    assert_eq!(boxed.as_mut().poll(&mut cx), Poll::Pending);
    drop(boxed);
    assert_eq!(state.resolved.load(Ordering::SeqCst), 0);
    assert_eq!(state.drops.load(Ordering::SeqCst), 1);
}

#[test]
fn a_computation_driven_to_its_end_resolves_the_handler_once() {
    let state = counters();
    let mut composed = counting.call(Request::new(state.clone(), vec![0; 2]));
    let mut cx = Context::from_waker(Waker::noop());
    assert_eq!(composed.drive(&mut cx), Progress::Pending);
    assert_eq!(composed.drive(&mut cx), Progress::Pending);
    assert_eq!(composed.drive(&mut cx), Progress::Ready(Response::new(200, b"resolved".to_vec())));
    assert_eq!(composed.drive(&mut cx), Progress::Pending);
    drop(composed);
    assert_eq!(state.resolved.load(Ordering::SeqCst), 1);
    assert_eq!(state.drops.load(Ordering::SeqCst), 1);
}
