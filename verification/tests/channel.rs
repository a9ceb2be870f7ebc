use thread_pool::{Channel, Message, PoolError};

#[test]
fn new_channel_is_empty_and_open() {
    let channel: Channel<u32> = Channel::new();
    assert_eq!(channel.len(), 0);
    assert!(channel.open());
}

#[test]
fn messages_come_out_in_the_order_sent() {
    let mut channel: Channel<u32> = Channel::new();
    assert_eq!(channel.send(Message::NewJob(1)), Ok(()));
    assert_eq!(channel.send(Message::Terminate), Ok(()));
    assert_eq!(channel.send(Message::NewJob(2)), Ok(()));
    assert_eq!(channel.len(), 3);
    assert_eq!(channel.receive(), Ok(Some(Message::NewJob(1))));
    assert_eq!(channel.receive(), Ok(Some(Message::Terminate)));
    assert_eq!(channel.receive(), Ok(Some(Message::NewJob(2))));
    assert_eq!(channel.len(), 0);
}

#[test]
fn each_message_is_delivered_once() {
    let mut channel: Channel<String> = Channel::new();
    assert_eq!(channel.send(Message::NewJob(String::from("only"))), Ok(()));
    assert_eq!(
        channel.receive(),
        Ok(Some(Message::NewJob(String::from("only"))))
    );
    assert_eq!(channel.receive(), Ok(None));
}

#[test]
fn empty_open_channel_tells_the_receiver_to_wait() {
    let mut channel: Channel<u32> = Channel::new();
    assert_eq!(channel.receive(), Ok(None));
    assert_eq!(channel.receive(), Ok(None));
    assert!(channel.open());
}

#[test]
fn empty_closed_channel_reports_channel_closed() {
    let mut channel: Channel<u32> = Channel::new();
    channel.close();
    assert!(!channel.open());
    assert_eq!(channel.receive(), Err(PoolError::ChannelClosed));
}

#[test]
fn closed_channel_still_delivers_what_was_queued() {
    let mut channel: Channel<u32> = Channel::new();
    assert_eq!(channel.send(Message::NewJob(9)), Ok(()));
    channel.close();
    assert_eq!(channel.len(), 1);
    assert_eq!(channel.receive(), Ok(Some(Message::NewJob(9))));
    assert_eq!(channel.receive(), Err(PoolError::ChannelClosed));
}

#[test]
fn send_on_closed_channel_hands_the_message_back() {
    let mut channel: Channel<u32> = Channel::new();
    channel.close();
    assert_eq!(channel.send(Message::NewJob(4)), Err(Message::NewJob(4)));
    assert_eq!(channel.send(Message::Terminate), Err(Message::Terminate));
    assert_eq!(channel.len(), 0);
}

#[test]
fn send_never_applies_backpressure() {
    let mut channel: Channel<u32> = Channel::new();
    for job in 0..10_000u32 {
        assert_eq!(channel.send(Message::NewJob(job)), Ok(()));
    }
    assert_eq!(channel.len(), 10_000);
    assert_eq!(channel.receive(), Ok(Some(Message::NewJob(0))));
}

#[test]
fn error_messages_are_exact() {
    assert_eq!(
        PoolError::InvalidPoolSize.message(),
        "pool size must be at least 1"
    );
    assert_eq!(
        PoolError::ChannelClosed.message(),
        "dispatch channel closed while a worker was receiving"
    );
}
