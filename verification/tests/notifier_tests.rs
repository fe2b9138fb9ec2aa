use std::future::Future;
use std::sync::Arc;
use std::sync::atomic::{AtomicUsize, Ordering};
use std::task::{Context, Poll, Wake, Waker};

use bbq2::bbqhdl::BbqHandle;
use bbq2::notifier::{MaiNotSpsc, Notifier, SyncNotifier};
use bbq2::queue::{ArcBBQueue, BBQueue};
use bbq2::storage::BoxedSlice;

struct CountingWake(AtomicUsize);

impl Wake for CountingWake {
    fn wake(self: Arc<Self>) {
        self.0.fetch_add(1, Ordering::SeqCst);
    }
}

#[test]
fn sync_notifier_wakes_are_noops() {
    let n = SyncNotifier::new();
    n.wake_one_consumer();
    n.wake_one_producer();
}

#[test]
fn wake_with_no_waiter_is_harmless() {
    let n = MaiNotSpsc::new();
    n.wake_one_consumer();
    n.wake_one_producer();
    n.wake_one_consumer();
}

#[test]
fn producer_waiter_is_woken_once() {
    let n = MaiNotSpsc::new();
    let counter = Arc::new(CountingWake(AtomicUsize::new(0)));
    let waker = Waker::from(counter.clone());
    let mut cx = Context::from_waker(&waker);

    // A producer subscribes on the not-full cell and is not yet woken.
    let mut wait = Box::pin(n.not_full_cell().wait());
    assert!(matches!(wait.as_mut().poll(&mut cx), Poll::Pending));
    assert_eq!(counter.0.load(Ordering::SeqCst), 0);

    // A release on the consumer side wakes exactly that one waiter.
    n.wake_one_producer();
    assert_eq!(counter.0.load(Ordering::SeqCst), 1);
    assert!(matches!(wait.as_mut().poll(&mut cx), Poll::Ready(Ok(()))));

    // Waking again finds nobody waiting.
    n.wake_one_producer();
    assert_eq!(counter.0.load(Ordering::SeqCst), 1);
}

#[test]
fn wake_between_check_and_sleep_is_not_lost() {
    let n = MaiNotSpsc::new();
    let counter = Arc::new(CountingWake(AtomicUsize::new(0)));
    let waker = Waker::from(counter.clone());
    let mut cx = Context::from_waker(&waker);

    // Two-phase wait: subscribe first, so a wake that lands between the
    // condition check and the suspension is consumed, not lost.
    let mut wait = Box::pin(n.not_empty_cell().wait());
    assert!(matches!(wait.as_mut().poll(&mut cx), Poll::Pending));

    // The wake arrives before the waiter would sleep again.
    n.wake_one_consumer();

    // The next poll completes instead of sleeping forever.
    assert!(matches!(wait.as_mut().poll(&mut cx), Poll::Ready(Ok(()))));
}

#[test]
fn consumer_waiter_is_woken_by_committing_producer() {
    let mut q = BBQueue::new(BoxedSlice::new(8), MaiNotSpsc::new());
    let prod = q.stream_producer();
    let cons = q.stream_consumer();

    let counter = Arc::new(CountingWake(AtomicUsize::new(0)));
    let waker = Waker::from(counter.clone());
    let mut cx = Context::from_waker(&waker);

    // The consumer finds the queue empty and registers its waker.
    assert!(cons.read(&mut q).is_err());
    {
        let mut wait = Box::pin(q.not.not_empty_cell().wait());
        assert!(matches!(wait.as_mut().poll(&mut cx), Poll::Pending));
    }

    // The producer commits data, which wakes the consumer.
    let g = prod.grant_exact(&mut q, 2).unwrap();
    g.fill(&mut q, &[1, 2]);
    g.commit(&mut q, 2);
    assert_eq!(counter.0.load(Ordering::SeqCst), 1);

    // The consumer's re-check now succeeds.
    let r = cons.read(&mut q).unwrap();
    assert_eq!(r.to_vec(&q), vec![1, 2]);
    r.release(&mut q, 2);
}

#[test]
fn producer_waiter_is_woken_by_releasing_consumer() {
    let mut q = BBQueue::new(BoxedSlice::new(4), MaiNotSpsc::new());
    let prod = q.stream_producer();
    let cons = q.stream_consumer();

    // Fill the queue completely.
    let g = prod.grant_exact(&mut q, 4).unwrap();
    g.fill(&mut q, &[1, 2, 3, 4]);
    g.commit(&mut q, 4);

    let counter = Arc::new(CountingWake(AtomicUsize::new(0)));
    let waker = Waker::from(counter.clone());
    let mut cx = Context::from_waker(&waker);

    // The producer cannot reserve and registers its waker.
    assert!(prod.grant_exact(&mut q, 2).is_err());
    {
        let mut wait = Box::pin(q.not.not_full_cell().wait());
        assert!(matches!(wait.as_mut().poll(&mut cx), Poll::Pending));
    }

    // The consumer releases everything, which wakes the producer; the
    // wakeup is stored even though the waiter is between polls.
    let r = cons.read(&mut q).unwrap();
    r.release(&mut q, 4);
    assert_eq!(counter.0.load(Ordering::SeqCst), 1);
    {
        let mut wait = Box::pin(q.not.not_full_cell().wait());
        assert!(matches!(wait.as_mut().poll(&mut cx), Poll::Ready(Ok(()))));
    }

    // The producer's re-check now succeeds.
    let g = prod.grant_exact(&mut q, 2).unwrap();
    g.commit(&mut q, 0);
}

#[test]
fn aborts_and_keeps_wake_nobody() {
    let mut q = BBQueue::new(BoxedSlice::new(8), MaiNotSpsc::new());
    let prod = q.stream_producer();
    let cons = q.stream_consumer();

    let counter = Arc::new(CountingWake(AtomicUsize::new(0)));
    let waker = Waker::from(counter.clone());
    let mut cx = Context::from_waker(&waker);
    {
        let mut wait = Box::pin(q.not.not_empty_cell().wait());
        assert!(matches!(wait.as_mut().poll(&mut cx), Poll::Pending));
    }

    // An abort publishes nothing and wakes nobody.
    let g = prod.grant_exact(&mut q, 2).unwrap();
    g.commit(&mut q, 0);
    assert_eq!(counter.0.load(Ordering::SeqCst), 0);

    // A commit wakes the registered consumer once.
    let g = prod.grant_exact(&mut q, 2).unwrap();
    g.fill(&mut q, &[5, 6]);
    g.commit(&mut q, 2);
    assert_eq!(counter.0.load(Ordering::SeqCst), 1);

    // A keep consumes nothing and wakes no producer.
    {
        let mut wait = Box::pin(q.not.not_full_cell().wait());
        assert!(matches!(wait.as_mut().poll(&mut cx), Poll::Pending));
    }
    let r = cons.read(&mut q).unwrap();
    r.release(&mut q, 0);
    assert_eq!(counter.0.load(Ordering::SeqCst), 1);
}

#[test]
fn handles_from_arc_queue() {
    let q = ArcBBQueue::new(BoxedSlice::new(8), SyncNotifier::new());
    let _ = q.stream_producer();
    let _ = q.stream_consumer();
    let _ = q.framed_producer();
    let _ = q.framed_consumer();
}

#[test]
fn handles_through_trait() {
    let q = BBQueue::new(BoxedSlice::new(8), SyncNotifier::new());
    let _ = BbqHandle::stream_producer(&q);
    let _ = BbqHandle::stream_consumer(&q);
    let _ = BbqHandle::framed_producer(&q);
    let _ = BbqHandle::framed_consumer(&q);
    let aq = ArcBBQueue::new(BoxedSlice::new(8), SyncNotifier::new());
    let _ = BbqHandle::framed_producer(&aq);
}
