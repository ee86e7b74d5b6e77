use lexwisp::command::HostUiCommand;
use lexwisp::intents::LatestIntentQueue;

#[test]
fn full_surface_intent_queue_keeps_the_latest_user_intent() {
    let mut intents = LatestIntentQueue::new(1);
    assert!(intents.send(HostUiCommand::ShowMainShell));
    assert!(intents.send(HostUiCommand::ShowSettings));
    assert_eq!(intents.receive().expect("latest intent remains queued"), HostUiCommand::ShowSettings);
    assert!(intents.receive().is_none());
}

#[test]
fn surface_intent_port_detects_a_dropped_consumer() {
    let mut intents = LatestIntentQueue::new(1);
    intents.close();
    assert!(!intents.send(HostUiCommand::ShowMainShell));
    assert!(intents.receive().is_none());
}

#[test]
fn a_roomier_queue_keeps_order() {
    let mut intents = LatestIntentQueue::new(2);
    intents.send(HostUiCommand::ShowMainShell);
    intents.send(HostUiCommand::ShowAbout);
    intents.send(HostUiCommand::Quit);
    assert_eq!(intents.receive(), Some(HostUiCommand::ShowAbout));
    assert_eq!(intents.receive(), Some(HostUiCommand::Quit));
}
