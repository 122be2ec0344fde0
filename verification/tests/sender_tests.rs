use std::sync::atomic::{AtomicBool, AtomicU64, AtomicUsize, Ordering};
use std::sync::mpsc::channel;
use std::sync::Arc;
use tinkerforge::ip_connection::{
    AuthenticateError, ConnectionState, IpConRequestSender, SocketThreadRequest,
};

fn sender_with_worker_end() -> (IpConRequestSender, std::sync::mpsc::Receiver<SocketThreadRequest>, Arc<AtomicUsize>)
{
    let (tx, rx) = channel();
    let state = Arc::new(AtomicUsize::new(0));
    let sender = IpConRequestSender::new(
        tx,
        Arc::clone(&state),
        Arc::new(AtomicBool::new(false)),
        Arc::new(AtomicU64::new(2500)),
    );
    (sender, rx, state)
}

#[test]
fn timeout_is_shared_between_clones() {
    let (sender, _rx, _) = sender_with_worker_end();
    assert_eq!(sender.get_timeout(), 2500);
    let mut other = sender.clone_sender();
    other.set_timeout(100);
    assert_eq!(sender.get_timeout(), 100);
}

#[test]
fn set_timeout_tells_the_worker() {
    let (mut sender, rx, _) = sender_with_worker_end();
    sender.set_timeout(321);
    assert!(matches!(rx.try_recv().unwrap(), SocketThreadRequest::SetTimeout(321)));
}

#[test]
fn auto_reconnect_is_shared_and_told() {
    let (sender, rx, _) = sender_with_worker_end();
    assert!(!sender.get_auto_reconnect());
    let mut other = sender.clone_sender();
    other.set_auto_reconnect(true);
    assert!(sender.get_auto_reconnect());
    assert!(matches!(rx.try_recv().unwrap(), SocketThreadRequest::SetAutoReconnect(true)));
}

#[test]
fn connection_state_reads_the_shared_cell() {
    let (sender, _rx, state) = sender_with_worker_end();
    assert_eq!(sender.get_connection_state(), ConnectionState::Disconnected);
    state.store(1, Ordering::SeqCst);
    assert_eq!(sender.get_connection_state(), ConnectionState::Connected);
    state.store(2, Ordering::SeqCst);
    assert_eq!(sender.get_connection_state(), ConnectionState::Pending);
}

#[test]
fn connect_sends_the_address_to_the_worker() {
    let (sender, rx, _) = sender_with_worker_end();
    let _done = sender.connect("127.0.0.1", 4223);
    match rx.try_recv().unwrap() {
        SocketThreadRequest::Connect(host, port, _) => {
            assert_eq!(host, "127.0.0.1");
            assert_eq!(port, 4223);
        }
        _ => panic!("a connect request must reach the worker"),
    }
}

#[test]
fn disconnect_reaches_the_worker() {
    let (sender, rx, _) = sender_with_worker_end();
    let _done = sender.disconnect();
    assert!(matches!(rx.try_recv().unwrap(), SocketThreadRequest::Disconnect(_)));
}

#[test]
fn authenticate_without_a_worker_is_an_error() {
    let (sender, rx, _) = sender_with_worker_end();
    drop(rx);
    assert!(matches!(sender.authenticate("My Authentication Secret!"), Err(AuthenticateError)));
}
