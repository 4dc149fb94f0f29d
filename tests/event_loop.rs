use grid_tactics::event_loop::{EventLoop, Handler, Payload};
use grid_tactics::game_event::GameEvent;
use std::sync::{Arc, Mutex};

#[derive(Clone)]
struct TestHandler {
    pub called: Arc<Mutex<bool>>,
}

impl Handler for TestHandler {
    fn handle(&mut self, _event: &GameEvent, _payload: &Payload) {
        *self.called.lock().unwrap() = true;
    }
}

fn setup_event_loop_and_handler() -> (EventLoop<TestHandler>, Arc<Mutex<bool>>, TestHandler) {
    let event_loop = EventLoop::new();
    let called_flag = Arc::new(Mutex::new(false));
    let handler = TestHandler {
        called: Arc::clone(&called_flag),
    };
    (event_loop, called_flag, handler)
}

#[test]
fn test_register_handler() {
    let mut event_loop: EventLoop<TestHandler> = EventLoop::new();
    let handler = TestHandler {
        called: Arc::new(Mutex::new(false)),
    };

    event_loop.register_handler(GameEvent::TileClicked, handler);

    assert!(event_loop.has_handlers(&GameEvent::TileClicked));
    assert_eq!(event_loop.handler_count(&GameEvent::TileClicked), 1);
}

#[test]
fn test_handle_empty_event() {
    let (mut event_loop, called_flag, handler) = setup_event_loop_and_handler();
    event_loop.register_handler(GameEvent::TileClicked, handler);
    event_loop.handle_event(&GameEvent::TileClicked, &vec![]);

    let called = *called_flag.lock().unwrap();
    assert_eq!(called, true);
}

#[test]
fn test_handle_event_with_payload() {
    let (mut event_loop, called_flag, handler) = setup_event_loop_and_handler();
    event_loop.register_handler(GameEvent::TileClicked, handler);
    event_loop.handle_event(&GameEvent::TileClicked, &vec![1, 2, 3]);

    assert!(*called_flag.lock().unwrap());
}

#[test]
fn unregistered_kind_is_dropped() {
    let (mut event_loop, called_flag, handler) = setup_event_loop_and_handler();
    event_loop.register_handler(GameEvent::TileClicked, handler);
    let invoked = event_loop.handle_event(&GameEvent::WindowResized, &vec![7]);

    assert!(invoked.is_empty());
    assert!(!*called_flag.lock().unwrap());
    assert!(!event_loop.has_handlers(&GameEvent::WindowResized));
    assert_eq!(event_loop.handler_count(&GameEvent::TileClicked), 1);
}

#[test]
fn empty_registry_delivery_is_a_no_op() {
    let mut event_loop: EventLoop<TestHandler> = EventLoop::new();
    let invoked = event_loop.handle_event(&GameEvent::MouseClicked, &vec![]);
    assert!(invoked.is_empty());
    assert_eq!(event_loop.handler_count(&GameEvent::MouseClicked), 0);
}

struct Recorder {
    name: u8,
    log: Arc<Mutex<Vec<u8>>>,
}

impl Handler for Recorder {
    fn handle(&mut self, _event: &GameEvent, _payload: &Payload) {
        self.log.lock().unwrap().push(self.name);
    }
}

#[test]
fn two_handlers_run_in_registration_order() {
    let log = Arc::new(Mutex::new(Vec::new()));
    let mut event_loop: EventLoop<Recorder> = EventLoop::new();
    event_loop.register_handler(GameEvent::WindowResized, Recorder { name: 9, log: log.clone() });
    event_loop.register_handler(GameEvent::MouseClicked, Recorder { name: 1, log: log.clone() });
    event_loop.register_handler(GameEvent::MouseClicked, Recorder { name: 2, log: log.clone() });

    let invoked = event_loop.handle_event(&GameEvent::MouseClicked, &vec![]);

    assert_eq!(invoked, vec![1, 2]);
    assert_eq!(*log.lock().unwrap(), vec![1, 2]);
}

#[test]
fn events_are_handled_one_after_another() {
    let log = Arc::new(Mutex::new(Vec::new()));
    let mut event_loop: EventLoop<Recorder> = EventLoop::new();
    event_loop.register_handler(GameEvent::MouseClicked, Recorder { name: 1, log: log.clone() });
    event_loop.register_handler(GameEvent::WindowResized, Recorder { name: 2, log: log.clone() });

    event_loop.handle_event(&GameEvent::WindowResized, &vec![]);
    event_loop.handle_event(&GameEvent::MouseClicked, &vec![]);
    event_loop.handle_event(&GameEvent::MouseClicked, &vec![]);

    assert_eq!(*log.lock().unwrap(), vec![2, 1, 1]);
}

#[test]
fn batch_is_handled_in_arrival_order() {
    let log = Arc::new(Mutex::new(Vec::new()));
    let mut event_loop: EventLoop<Recorder> = EventLoop::new();
    event_loop.register_handler(GameEvent::MouseClicked, Recorder { name: 1, log: log.clone() });
    event_loop.register_handler(GameEvent::WindowResized, Recorder { name: 2, log: log.clone() });
    event_loop.register_handler(GameEvent::MouseClicked, Recorder { name: 3, log: log.clone() });

    let batch = vec![
        (GameEvent::MouseClicked, vec![1]),
        (GameEvent::TileClicked, vec![]),
        (GameEvent::WindowResized, vec![2]),
        (GameEvent::MouseClicked, vec![3]),
    ];
    let invoked = event_loop.handle_events(&batch);

    assert_eq!(invoked, vec![vec![0, 2], vec![], vec![1], vec![0, 2]]);
    assert_eq!(*log.lock().unwrap(), vec![1, 3, 2, 1, 3]);
}
