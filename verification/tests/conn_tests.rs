use shardkv::command::Command;
use shardkv::command::Reply;
use shardkv::conn::ConnError;
use shardkv::conn::ConnEvent;
use shardkv::conn::ConnState;
use shardkv::conn::conn_step;
use shardkv::store::Store;
use shardkv::store::new_sharded_db;

fn received(store: &mut Store, state: ConnState, cmd: Command) -> (
    ConnState,
    Option<Reply>,
    Option<ConnError>,
) {
    conn_step(store, state, ConnEvent::Received(cmd))
}

#[test]
fn end_to_end_scenario() {
    let mut store = new_sharded_db(4);
    let mut state = ConnState::Reading;

    // Set("foo", "bar") is answered with Okay.
    let (next, reply, error) = received(
        &mut store,
        state,
        Command::Put("foo".to_string(), b"bar".to_vec()),
    );
    state = next;
    assert_eq!(state, ConnState::Reading);
    assert_eq!(reply, Some(Reply::Okay));
    assert_eq!(error, None);

    // Get("foo") is answered with Bulk("bar").
    let (next, reply, error) = received(&mut store, state, Command::Get("foo".to_string()));
    state = next;
    assert_eq!(state, ConnState::Reading);
    assert_eq!(reply, Some(Reply::Bulk(b"bar".to_vec())));
    assert_eq!(error, None);

    // Get("missing") is answered with Null.
    let (next, reply, error) = received(&mut store, state, Command::Get("missing".to_string()));
    state = next;
    assert_eq!(state, ConnState::Reading);
    assert_eq!(reply, Some(Reply::Null));
    assert_eq!(error, None);

    // An unsupported Del("foo") is answered with an error and the
    // connection stays open for further commands.
    let (next, reply, error) = received(&mut store, state, Command::Other("Del".to_string()));
    state = next;
    assert_eq!(state, ConnState::Reading);
    assert_eq!(
        reply,
        Some(Reply::Error("unsupported command: Del".to_string()))
    );
    assert_eq!(error, None);

    // The store was not touched by the unsupported command.
    let (next, reply, _) = received(&mut store, state, Command::Get("foo".to_string()));
    state = next;
    assert_eq!(reply, Some(Reply::Bulk(b"bar".to_vec())));

    // A clean end of stream closes the connection with no error.
    let (next, reply, error) = conn_step(&mut store, state, ConnEvent::StreamEnded);
    assert_eq!(next, ConnState::Closed);
    assert_eq!(reply, None);
    assert_eq!(error, None);
}

#[test]
fn bad_frame_closes_with_protocol_error() {
    let mut store = new_sharded_db(2);
    let (next, reply, error) = conn_step(&mut store, ConnState::Reading, ConnEvent::BadFrame);
    assert_eq!(next, ConnState::Closed);
    assert_eq!(reply, None);
    assert_eq!(error, Some(ConnError::Protocol));
}

#[test]
fn write_failure_closes_with_transport_error() {
    let mut store = new_sharded_db(2);
    let (next, reply, error) = conn_step(&mut store, ConnState::Reading, ConnEvent::WriteFailed);
    assert_eq!(next, ConnState::Closed);
    assert_eq!(reply, None);
    assert_eq!(error, Some(ConnError::Transport));
}

#[test]
fn closed_connection_processes_nothing() {
    let mut store = new_sharded_db(2);
    let (next, reply, error) = received(
        &mut store,
        ConnState::Closed,
        Command::Put("k".to_string(), b"v".to_vec()),
    );
    assert_eq!(next, ConnState::Closed);
    assert_eq!(reply, None);
    assert_eq!(error, None);
    // The store was not touched.
    let (_, reply, _) = received(&mut store, ConnState::Reading, Command::Get("k".to_string()));
    assert_eq!(reply, Some(Reply::Null));
}

#[test]
fn concurrent_clients_scenario() {
    // N independent connections, each performing 1000 Set/Get pairs on
    // disjoint key sets against the same store, their steps interleaved.
    let n_clients = 4usize;
    let pairs = 1000usize;
    let mut store = new_sharded_db(8);
    let mut states = vec![ConnState::Reading; n_clients];
    for round in 0..pairs {
        for client in 0..n_clients {
            let key = format!("client{}-key{}", client, round);
            let value = format!("value-{}-{}", client, round).into_bytes();
            let (next, reply, error) = received(
                &mut store,
                states[client],
                Command::Put(key.clone(), value.clone()),
            );
            states[client] = next;
            assert_eq!(states[client], ConnState::Reading);
            assert_eq!(reply, Some(Reply::Okay));
            assert_eq!(error, None);
            let (next, reply, _) = received(&mut store, states[client], Command::Get(key));
            states[client] = next;
            assert_eq!(reply, Some(Reply::Bulk(value)));
        }
    }
    // Every key every connection wrote is still exactly what it wrote.
    for round in 0..pairs {
        for client in 0..n_clients {
            let key = format!("client{}-key{}", client, round);
            let value = format!("value-{}-{}", client, round).into_bytes();
            let (_, reply, _) = received(&mut store, states[client], Command::Get(key));
            assert_eq!(reply, Some(Reply::Bulk(value)));
        }
    }
}
