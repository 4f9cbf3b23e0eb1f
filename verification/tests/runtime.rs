use gameserver::broker::Broker;
use gameserver::connection::ClientController;
use gameserver::connection::Command;
use gameserver::connection::ConnectionState;
use gameserver::connection::Message as ClientEvent;
use gameserver::controller::Client;
use gameserver::controller::Controller;
use gameserver::ident::Uuid;
use gameserver::proto::Message;
use gameserver::pw::Action;
use gameserver::pw::Command as PwCommand;
use gameserver::pw::Planet;
use gameserver::pw::Player;
use gameserver::pw::move_valid;
use gameserver::pw::valid_moves;
use gameserver::pw::winners;
use gameserver::reactor::Dispatch;
use gameserver::reactor::Reactor;
use gameserver::steplock::StepLock;
use gameserver::welcomer::Welcomer;

fn envelope(sender: Uuid, receiver: Uuid, kind: &[u8], payload: Vec<u8>) -> Message {
    Message { sender, receiver, kind: kind.to_vec(), payload }
}

#[test]
fn broker_routes_in_send_order() {
    let mut broker = Broker::new();
    let a = Uuid { hi: 1, lo: 1 };
    let b = Uuid { hi: 2, lo: 2 };
    assert!(broker.add_actor(a));
    assert!(broker.add_actor(b));
    assert!(!broker.add_actor(a));
    let m1 = envelope(b, a, b"k", vec![1]);
    let m2 = envelope(b, a, b"k", vec![2]);
    assert!(broker.route_message(m1));
    assert!(broker.route_message(m2));
    // the receiver observes them in send order
    let got1 = broker.pop_message(a).unwrap();
    let got2 = broker.pop_message(a).unwrap();
    assert_eq!(got1.payload, vec![1]);
    assert_eq!(got2.payload, vec![2]);
    assert!(broker.pop_message(a).is_none());
}

#[test]
fn broker_drops_for_unknown_receiver() {
    let mut broker = Broker::new();
    let a = Uuid { hi: 1, lo: 1 };
    assert!(broker.add_actor(a));
    let ghost_receiver = Uuid { hi: 9, lo: 9 };
    assert!(!broker.route_message(envelope(a, ghost_receiver, b"k", vec![1])));
    assert!(broker.pop_message(a).is_none());
}

#[test]
fn broker_unregister_drops_inbox() {
    let mut broker = Broker::new();
    let a = Uuid { hi: 1, lo: 1 };
    let b = Uuid { hi: 2, lo: 2 };
    assert!(broker.add_actor(a));
    assert!(broker.add_actor(b));
    assert!(broker.route_message(envelope(b, a, b"k", vec![1])));
    broker.unregister(a);
    assert!(!broker.is_registered(a));
    assert!(broker.is_registered(b));
    assert_eq!(broker.actor_count(), 1);
    assert!(!broker.route_message(envelope(b, a, b"k", vec![2])));
}

#[test]
fn reactor_dispatch_picks_one_handler() {
    let me = Uuid { hi: 1, lo: 0 };
    let peer = Uuid { hi: 2, lo: 0 };
    let stranger = Uuid { hi: 3, lo: 0 };
    let mut r = Reactor::new(me, vec![b"init".to_vec()]);
    r.open_link(peer, vec![b"data".to_vec()], false);
    // internal: own sends with a registered kind
    assert_eq!(r.dispatch(&envelope(me, me, b"init", vec![])), Dispatch::Internal);
    assert_eq!(r.dispatch(&envelope(me, me, b"data", vec![])), Dispatch::Dropped);
    // external: the open link's registered kinds
    assert_eq!(r.dispatch(&envelope(peer, me, b"data", vec![])), Dispatch::External(peer));
    assert_eq!(r.dispatch(&envelope(peer, me, b"init", vec![])), Dispatch::Dropped);
    // no link, no handler
    assert_eq!(r.dispatch(&envelope(stranger, me, b"data", vec![])), Dispatch::Dropped);
}

#[test]
fn close_link_notifies_each_endpoint_once() {
    let me = Uuid { hi: 1, lo: 0 };
    let peer = Uuid { hi: 2, lo: 0 };
    let mut r = Reactor::new(me, Vec::new());
    r.open_link(peer, vec![b"data".to_vec()], false);
    let (to_peer, to_me) = r.close_link(peer).unwrap();
    assert_eq!(to_peer.receiver, peer);
    assert_eq!(to_me.receiver, me);
    assert_eq!(to_peer.kind, b"link_closed".to_vec());
    assert_eq!(to_me.kind, b"link_closed".to_vec());
    // the second close is a no-op and emits nothing
    assert!(r.close_link(peer).is_none());
    assert!(r.close_link(Uuid { hi: 9, lo: 9 }).is_none());
    // a closed link no longer dispatches
    assert_eq!(r.dispatch(&envelope(peer, me, b"data", vec![])), Dispatch::Dropped);
}

#[test]
fn welcomer_greets_and_closes() {
    let me = Uuid { hi: 0xaa, lo: 0xbb };
    let runtime = Uuid { hi: 1, lo: 0 };
    let client = Uuid { hi: 0x01, lo: 0x99 };
    let mut w = Welcomer::new(me, runtime);
    // initialize: the welcomer links to the runtime and announces itself
    let out = w.handle_message(&envelope(me, me, b"initialize", vec![]));
    assert_eq!(out.len(), 1);
    assert_eq!(out[0].receiver, runtime);
    assert_eq!(out[0].kind, b"actor_joined".to_vec());
    // the runtime announces a joiner over the link; it is reflected
    let mut id_bytes = Vec::new();
    id_bytes.extend_from_slice(&client.hi.to_be_bytes());
    id_bytes.extend_from_slice(&client.lo.to_be_bytes());
    let out = w.handle_message(&envelope(runtime, me, b"actor_joined", id_bytes.clone()));
    assert_eq!(out.len(), 1);
    assert_eq!(out[0].receiver, me);
    assert_eq!(out[0].sender, me);
    // the reflected announcement reaches the internal handler: greet
    let out = w.handle_message(&envelope(me, me, b"actor_joined", id_bytes));
    assert_eq!(out.len(), 1);
    assert_eq!(out[0].receiver, client);
    assert_eq!(out[0].kind, b"greeting".to_vec());
    assert_eq!(out[0].payload, b"hello".to_vec());
    // the client greets back: the link closes, once per endpoint
    let out = w.handle_message(&envelope(client, me, b"greeting", b"hello".to_vec()));
    assert_eq!(out.len(), 2);
    assert_eq!(out[0].receiver, client);
    assert_eq!(out[0].kind, b"link_closed".to_vec());
    assert_eq!(out[1].receiver, me);
    // a second greeting finds the link closed and is dropped
    let out = w.handle_message(&envelope(client, me, b"greeting", b"hello".to_vec()));
    assert_eq!(out.len(), 0);
}

#[test]
fn steplock_collects_and_steps() {
    let mut lock = StepLock::new(vec![1, 2, 3]);
    assert!(!lock.is_ready());
    lock.attach_command(1, vec![11]);
    lock.attach_command(2, vec![22]);
    assert!(!lock.is_ready());
    lock.attach_command(3, vec![33]);
    assert!(lock.is_ready());
    let mut cmds = lock.do_step();
    cmds.sort_by_key(|p| p.0);
    assert_eq!(cmds, vec![(1, vec![11]), (2, vec![22]), (3, vec![33])]);
    // the barrier rearmed for the same clients
    assert!(!lock.is_ready());
}

#[test]
fn steplock_ignores_unknown_and_duplicate_commands() {
    let mut lock = StepLock::new(vec![1, 2]);
    lock.attach_command(7, vec![77]);
    assert!(!lock.is_ready());
    lock.attach_command(1, vec![11]);
    lock.attach_command(1, vec![99]);
    lock.attach_command(2, vec![22]);
    let mut cmds = lock.do_step();
    cmds.sort_by_key(|p| p.0);
    // the first command of a client stands; later ones are ignored
    assert_eq!(cmds, vec![(1, vec![11]), (2, vec![22])]);
}

#[test]
fn steplock_timeout_fills_empty_responses() {
    // three clients; two submit, one stalls until the deadline fires
    let mut lock = StepLock::new(vec![1, 2, 3]);
    lock.attach_command(1, vec![11]);
    lock.attach_command(2, vec![22]);
    assert!(!lock.is_ready());
    lock.force_ready();
    assert!(lock.is_ready());
    let mut cmds = lock.do_step();
    cmds.sort_by_key(|p| p.0);
    assert_eq!(cmds, vec![(1, vec![11]), (2, vec![22]), (3, Vec::new())]);
}

#[test]
fn steplock_disconnect_mid_turn() {
    // four clients expected; one disconnects before submitting
    let mut lock = StepLock::new(vec![1, 2, 3, 4]);
    lock.attach_command(1, vec![11]);
    lock.disconnect(4);
    assert!(!lock.is_ready());
    lock.attach_command(2, vec![22]);
    lock.attach_command(3, vec![33]);
    assert!(lock.is_ready());
    let mut cmds = lock.do_step();
    cmds.sort_by_key(|p| p.0);
    assert_eq!(cmds, vec![(1, vec![11]), (2, vec![22]), (3, vec![33])]);
    // three expected at the next turn
    lock.attach_command(1, vec![1]);
    lock.attach_command(2, vec![2]);
    assert!(!lock.is_ready());
    lock.attach_command(3, vec![3]);
    assert!(lock.is_ready());
}

#[test]
fn steplock_connect_joins_next_turn() {
    let mut lock = StepLock::new(vec![1]);
    lock.connect(2);
    lock.attach_command(1, vec![11]);
    assert!(!lock.is_ready());
    lock.attach_command(2, vec![22]);
    assert!(lock.is_ready());
}

#[test]
fn controller_routes_events_to_the_lock() {
    let clients = vec![
        Client { id: 1, player_name: "ada".to_string() },
        Client { id: 2, player_name: "bob".to_string() },
    ];
    let mut c = Controller::new(&clients);
    assert!(c.try_step().is_none());
    c.handle_message(1, ClientEvent::Data(vec![10]));
    c.handle_message(2, ClientEvent::Disconnected);
    let mut cmds = c.try_step().unwrap();
    cmds.sort_by_key(|p| p.0);
    assert_eq!(cmds, vec![(1, vec![10])]);
    c.handle_message(2, ClientEvent::Connected);
    c.handle_message(1, ClientEvent::Data(vec![11]));
    assert!(c.try_step().is_none());
    c.handle_message(2, ClientEvent::Data(vec![12]));
    let mut cmds = c.try_step().unwrap();
    cmds.sort_by_key(|p| p.0);
    assert_eq!(cmds, vec![(1, vec![11]), (2, vec![12])]);
}

#[test]
fn controller_deadline_admits_the_turn() {
    let clients = vec![
        Client { id: 1, player_name: "ada".to_string() },
        Client { id: 2, player_name: "bob".to_string() },
    ];
    let mut c = Controller::new(&clients);
    c.handle_message(1, ClientEvent::Data(vec![10]));
    assert!(c.try_step().is_none());
    c.deadline();
    let mut cmds = c.try_step().unwrap();
    cmds.sort_by_key(|p| p.0);
    assert_eq!(cmds, vec![(1, vec![10]), (2, Vec::new())]);
}

#[test]
fn reconnect_preserves_identity_and_queue() {
    let mut ctrl = ClientController::new(42);
    assert_eq!(ctrl.state, ConnectionState::Attached);
    let ev = ctrl.disconnect();
    assert_eq!(ev.client_id, 42);
    assert!(matches!(ev.message, ClientEvent::Disconnected));
    // sends issued between the two sessions are kept
    ctrl.handle_command(Command::Send(vec![1]));
    ctrl.handle_command(Command::Send(vec![2]));
    let ev = ctrl.handle_command(Command::Connect).unwrap();
    assert_eq!(ev.client_id, 42);
    assert!(matches!(ev.message, ClientEvent::Connected));
    let queued = ctrl.take_outbound();
    assert_eq!(queued, vec![vec![1], vec![2]]);
    let wrapped = ctrl.handle_client_frame(vec![9]);
    assert_eq!(wrapped.client_id, 42);
    match wrapped.message {
        ClientEvent::Data(d) => assert_eq!(d, vec![9]),
        _ => panic!("expected data"),
    }
}

fn demo_planets() -> Vec<Planet> {
    vec![
        Planet { ship_count: 10, owner: Some(1), name: "alpha".to_string() },
        Planet { ship_count: 5, owner: Some(2), name: "beta".to_string() },
        Planet { ship_count: 0, owner: None, name: "gamma".to_string() },
    ]
}

fn order(origin: &str, destination: &str, ships: u64) -> PwCommand {
    PwCommand {
        origin: origin.to_string(),
        destination: destination.to_string(),
        ship_count: ships,
    }
}

#[test]
fn move_validation() {
    let planets = demo_planets();
    assert!(move_valid(&planets, 1, &order("alpha", "beta", 10)));
    assert!(move_valid(&planets, 1, &order("alpha", "gamma", 1)));
    // more ships than the origin holds
    assert!(!move_valid(&planets, 1, &order("alpha", "beta", 11)));
    // not the owner
    assert!(!move_valid(&planets, 1, &order("beta", "alpha", 1)));
    assert!(!move_valid(&planets, 1, &order("gamma", "alpha", 0)));
    // unknown planets
    assert!(!move_valid(&planets, 1, &order("delta", "beta", 1)));
    assert!(!move_valid(&planets, 1, &order("alpha", "delta", 1)));
}

#[test]
fn invalid_moves_are_discarded_silently() {
    let planets = demo_planets();
    let action = Action {
        commands: vec![
            order("alpha", "beta", 4),
            order("beta", "alpha", 1),
            order("alpha", "delta", 1),
            order("alpha", "gamma", 6),
        ],
    };
    let kept = valid_moves(&planets, 1, action);
    assert_eq!(kept.len(), 2);
    assert_eq!(kept[0].destination, "beta");
    assert_eq!(kept[1].destination, "gamma");
}

#[test]
fn winners_are_the_players_alive() {
    let players = vec![
        Player { id: 0, name: "ada".to_string(), alive: true },
        Player { id: 1, name: "bob".to_string(), alive: false },
        Player { id: 2, name: "cleo".to_string(), alive: true },
    ];
    assert_eq!(winners(&players), vec!["ada".to_string(), "cleo".to_string()]);
}

#[test]
fn roster_numbers_players_in_order() {
    let names = vec!["ada".to_string(), "bob".to_string()];
    let players = gameserver::pw::make_players(&names);
    assert_eq!(players.len(), 2);
    assert_eq!(players[0].id, 0);
    assert_eq!(players[0].name, "ada");
    assert!(players[0].alive);
    assert_eq!(players[1].id, 1);
    assert_eq!(players[1].name, "bob");
    assert!(players[1].alive);
}

#[test]
fn map_owners_resolve_through_the_translation() {
    let map = vec![
        gameserver::pw::MapPlanet {
            name: "alpha".to_string(),
            owner: Some("ada".to_string()),
            ship_count: 6,
        },
        gameserver::pw::MapPlanet {
            name: "beta".to_string(),
            owner: Some("nobody".to_string()),
            ship_count: 3,
        },
        gameserver::pw::MapPlanet { name: "gamma".to_string(), owner: None, ship_count: 0 },
    ];
    let translation = vec![("ada".to_string(), 0u64), ("bob".to_string(), 1u64)];
    let planets = gameserver::pw::load_map(&map, &translation);
    assert_eq!(planets.len(), 3);
    assert_eq!(planets[0].name, "alpha");
    assert_eq!(planets[0].owner, Some(0));
    assert_eq!(planets[0].ship_count, 6);
    // an owner the roster does not know resolves to no owner
    assert_eq!(planets[1].owner, None);
    assert_eq!(planets[2].owner, None);
}

#[test]
fn steplock_counts_generations() {
    let mut lock = StepLock::new(vec![1]);
    assert_eq!(lock.turn_generation(), 0);
    lock.attach_command(1, vec![7]);
    assert_eq!(lock.turn_generation(), 0);
    lock.do_step();
    assert_eq!(lock.turn_generation(), 1);
    lock.attach_command(1, vec![8]);
    lock.do_step();
    assert_eq!(lock.turn_generation(), 2);
}
