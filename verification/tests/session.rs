use rust_grpc_proxy::config::HUB_CAPACITY;
use rust_grpc_proxy::record::CreateTransaction;
use rust_grpc_proxy::session::{
    on_writer_event, Subscriber, SubscriberAction, SubscriberEvent, WriterAction, WriterEvent,
};
use rust_grpc_proxy::upstream::{
    TokenBalance, Transaction, TransactionInfo, TransactionMessage, TransactionMeta,
    UpstreamFrame,
};
use rust_grpc_proxy::wire::{decode_frame, encode_frame};
use tokio::sync::broadcast;
use tokio::sync::broadcast::error::TryRecvError;

fn record(slot: u64) -> CreateTransaction {
    CreateTransaction {
        signature: format!("sig{}", slot),
        mint_address: format!("mint{}pump", slot),
        creator_address: format!("creator{}", slot),
        slot,
        is_create_v2: slot % 2 == 0,
    }
}

fn create_frame(log: &str) -> UpstreamFrame {
    UpstreamFrame {
        transaction: Some(TransactionInfo {
            signature: vec![1, 2],
            transaction: Some(Transaction {
                signatures: vec![],
                message: Some(TransactionMessage { account_keys: vec![vec![3, 4]] }),
            }),
            meta: Some(TransactionMeta {
                log_messages: vec![log.to_string()],
                pre_token_balances: vec![],
                post_token_balances: vec![TokenBalance { mint: "Newpump".to_string() }],
            }),
        }),
        slot: 9,
    }
}

fn next_event(receiver: &mut broadcast::Receiver<CreateTransaction>) -> Option<WriterEvent> {
    match receiver.try_recv() {
        Ok(record) => Some(WriterEvent::Record(record)),
        Err(TryRecvError::Lagged(missed)) => Some(WriterEvent::Lagged(missed)),
        Err(TryRecvError::Closed) => Some(WriterEvent::HubClosed),
        Err(TryRecvError::Empty) => None,
    }
}

fn drain(receiver: &mut broadcast::Receiver<CreateTransaction>) -> (Vec<u8>, bool) {
    let mut socket = Vec::new();
    while let Some(event) = next_event(receiver) {
        match on_writer_event(&event) {
            WriterAction::Send(frame) => socket.extend_from_slice(&frame),
            WriterAction::Skip => {}
            WriterAction::Close => return (socket, true),
        }
    }
    (socket, false)
}

fn read_all(mut stream: &[u8]) -> Vec<CreateTransaction> {
    let mut records = Vec::new();
    while !stream.is_empty() {
        let (record, used) = decode_frame(stream).unwrap();
        records.push(record);
        stream = &stream[used..];
    }
    records
}

const CREATE_LOG: &str =
    "Program 6EF8rrecthR5Dkzon8Nwu78hRvfCKubJ14M5uBEwF6P log: Instruction: Create";

#[test]
fn transaction_with_creation_is_published() {
    let mut subscriber = Subscriber::new();
    let action = subscriber.on_event(&SubscriberEvent::Transaction(create_frame(CREATE_LOG)));
    assert_eq!(
        action,
        SubscriberAction::Publish(CreateTransaction {
            signature: "5T".to_string(),
            mint_address: "Newpump".to_string(),
            creator_address: "EK".to_string(),
            slot: 9,
            is_create_v2: false,
        })
    );
}

#[test]
fn other_transactions_and_messages_are_passed_over() {
    let mut subscriber = Subscriber::new();
    let action = subscriber.on_event(&SubscriberEvent::Transaction(create_frame("Program log: hello")));
    assert_eq!(action, SubscriberAction::Continue);
    assert_eq!(subscriber.on_event(&SubscriberEvent::Other), SubscriberAction::Continue);
    assert_eq!(subscriber.delay_secs(), 1);
}

#[test]
fn failures_sleep_for_doubling_delays() {
    let mut subscriber = Subscriber::new();
    let mut slept = Vec::new();
    for round in 0..8 {
        let event = if round % 2 == 0 {
            SubscriberEvent::ConnectFailed
        } else {
            SubscriberEvent::StreamError
        };
        match subscriber.on_event(&event) {
            SubscriberAction::Reconnect(Some(secs)) => slept.push(secs),
            other => panic!("no reconnect after a failure: {:?}", other),
        }
    }
    assert_eq!(slept, vec![1, 2, 4, 8, 16, 30, 30, 30]);
    assert_eq!(subscriber.delay_secs(), 30);
}

#[test]
fn arriving_message_resets_the_delay() {
    for message in [
        SubscriberEvent::Other,
        SubscriberEvent::Transaction(create_frame(CREATE_LOG)),
        SubscriberEvent::Transaction(create_frame("Program log: hello")),
    ] {
        let mut subscriber = Subscriber::new();
        for _ in 0..3 {
            subscriber.on_event(&SubscriberEvent::ConnectFailed);
        }
        assert_eq!(subscriber.delay_secs(), 8);
        subscriber.on_event(&message);
        assert_eq!(subscriber.delay_secs(), 1);
        assert_eq!(
            subscriber.on_event(&SubscriberEvent::StreamError),
            SubscriberAction::Reconnect(Some(1))
        );
        assert_eq!(subscriber.delay_secs(), 2);
    }
}

#[test]
fn stream_end_reconnects_at_once_and_resets_the_delay() {
    let mut subscriber = Subscriber::new();
    for _ in 0..5 {
        subscriber.on_event(&SubscriberEvent::StreamError);
    }
    assert_eq!(subscriber.delay_secs(), 30);
    assert_eq!(subscriber.on_event(&SubscriberEvent::StreamEnd), SubscriberAction::Reconnect(None));
    assert_eq!(subscriber, Subscriber::new());
}

#[test]
fn delivered_record_is_sent_as_its_frame() {
    let action = on_writer_event(&WriterEvent::Record(record(3)));
    assert_eq!(action, WriterAction::Send(encode_frame(&record(3)).unwrap()));
}

#[test]
fn lag_is_passed_over_and_closure_ends_the_session() {
    assert_eq!(on_writer_event(&WriterEvent::Lagged(17)), WriterAction::Skip);
    assert_eq!(on_writer_event(&WriterEvent::HubClosed), WriterAction::Close);
    assert_eq!(on_writer_event(&WriterEvent::WriteFailed), WriterAction::Close);
}

#[test]
fn two_clients_read_three_records_in_order() {
    let (sender, _) = broadcast::channel::<CreateTransaction>(HUB_CAPACITY);
    let mut first = sender.subscribe();
    let mut second = sender.subscribe();
    let published = vec![record(1), record(2), record(3)];
    for record in &published {
        assert_eq!(sender.send(record.clone()).unwrap(), 2);
    }
    for receiver in [&mut first, &mut second] {
        let (socket, closed) = drain(receiver);
        assert!(!closed);
        assert_eq!(read_all(&socket), published);
    }
}

#[test]
fn client_sees_only_what_is_published_after_it_joined() {
    let (sender, mut early) = broadcast::channel::<CreateTransaction>(HUB_CAPACITY);
    sender.send(record(1)).unwrap();
    let mut late = sender.subscribe();
    sender.send(record(2)).unwrap();
    assert_eq!(read_all(&drain(&mut early).0), vec![record(1), record(2)]);
    assert_eq!(read_all(&drain(&mut late).0), vec![record(2)]);
}

#[test]
fn overtaken_client_resumes_with_the_oldest_record_kept() {
    let (sender, mut slow) = broadcast::channel::<CreateTransaction>(2);
    for slot in 1..=5 {
        sender.send(record(slot)).unwrap();
    }
    let (socket, closed) = drain(&mut slow);
    assert!(!closed);
    assert_eq!(read_all(&socket), vec![record(4), record(5)]);
}

#[test]
fn closed_hub_ends_the_session_after_the_last_record() {
    let (sender, mut receiver) = broadcast::channel::<CreateTransaction>(HUB_CAPACITY);
    sender.send(record(1)).unwrap();
    drop(sender);
    let (socket, closed) = drain(&mut receiver);
    assert!(closed);
    assert_eq!(read_all(&socket), vec![record(1)]);
}

#[test]
fn publishing_without_clients_drops_the_record() {
    let (sender, receiver) = broadcast::channel::<CreateTransaction>(HUB_CAPACITY);
    drop(receiver);
    assert!(sender.send(record(1)).is_err());
    let mut late = sender.subscribe();
    assert_eq!(drain(&mut late), (Vec::new(), false));
}
