//! The slave-side handshake: the four-step exchange, its requests on the
//! wire, and the aborts on any substituted reply.

use respkv::handshake::Handshake;
use respkv::handshake::HandshakeError;
use respkv::handshake::HandshakeStage;
use respkv::replication::Args;
use respkv::replication::ConfigError;
use respkv::replication::ReplicationRole;
use respkv::replication::initialize_replication;
use respkv::resp::RespObject;
use respkv::resp::RespValues;
use respkv::resp::bulk_string::RespBulkString;
use respkv::resp::simple_string::RespSimpleString;
use respkv::util::generate_master_replid;

fn simple(text: &str) -> RespValues {
    RespValues::SimpleString(RespSimpleString::from_str(text))
}

fn step_done(h: &mut Handshake, reply: RespValues) {
    match h.step(&reply) {
        Ok(None) => {},
        other => panic!("expected completion, got {:?}", other.map(|r| r.map(|_| ()))),
    }
}

fn step_err(h: &mut Handshake, reply: RespValues) -> HandshakeError {
    match h.step(&reply) {
        Err(e) => e,
        other => panic!("expected an abort, got {:?}", other.map(|r| r.map(|_| ()))),
    }
}

fn step_request(h: &mut Handshake, reply: RespValues) -> Vec<u8> {
    match h.step(&reply) {
        Ok(Some(request)) => request.serialize(),
        other => panic!("expected a request, got {:?}", other.map(|r| r.map(|_| ()))),
    }
}

#[test]
fn handshake_walks_its_four_steps_and_adopts_the_identity() {
    let (mut h, ping) = Handshake::new(6380);
    assert_eq!(ping.serialize(), b"*1\r\n$4\r\nping\r\n".to_vec());
    assert_eq!(h.stage, HandshakeStage::AwaitPong);

    let port_req = step_request(&mut h, simple("PONG"));
    assert_eq!(
        port_req,
        b"*3\r\n$8\r\nREPLCONF\r\n$14\r\nlistening-port\r\n$4\r\n6380\r\n".to_vec()
    );
    assert_eq!(h.stage, HandshakeStage::AwaitPortAck);

    let capa_req = step_request(&mut h, simple("OK"));
    assert_eq!(
        capa_req,
        b"*3\r\n$8\r\nREPLCONF\r\n$4\r\ncapa\r\n$6\r\npsync2\r\n".to_vec()
    );
    assert_eq!(h.stage, HandshakeStage::AwaitCapaAck);

    let psync_req = step_request(&mut h, simple("OK"));
    assert_eq!(psync_req, b"*3\r\n$5\r\nPSYNC\r\n$1\r\n?\r\n$2\r\n-1\r\n".to_vec());
    assert_eq!(h.stage, HandshakeStage::AwaitFullresync);

    step_done(&mut h, simple("FULLRESYNC abc123 0"));
    assert!(h.finished());
    assert_eq!(h.master_replid, Some("abc123".to_string()));
    assert_eq!(h.master_repl_offset, Some(0));

    let args = Args {
        port: Some(6380),
        replica_of: Some(vec!["localhost".to_string(), "6379".to_string()]),
    };
    let mut info = initialize_replication(args).expect("configure");
    h.complete(&mut info);
    assert_eq!(info.master_replid, "abc123".to_string());
    assert_eq!(info.master_repl_offset, 0);
    assert_eq!(info.role, ReplicationRole::Slave);
}

#[test]
fn handshake_parses_a_nonzero_offset() {
    let (mut h, _) = Handshake::new(1);
    step_request(&mut h, simple("PONG"));
    step_request(&mut h, simple("OK"));
    step_request(&mut h, simple("OK"));
    step_done(&mut h, simple("FULLRESYNC id 425"));
    assert_eq!(h.master_repl_offset, Some(425));
}

#[test]
fn handshake_aborts_on_a_substituted_reply() {
    let (mut h, _) = Handshake::new(6380);
    step_request(&mut h, simple("PONG"));
    // an error where OK is expected aborts before the next request is sent
    assert_eq!(step_err(&mut h, simple("ERR no")), HandshakeError::UnexpectedReply);
    assert_eq!(h.stage, HandshakeStage::AwaitPortAck);
}

#[test]
fn handshake_aborts_on_a_wrong_reply_kind() {
    let (mut h, _) = Handshake::new(6380);
    let bulk_pong = RespValues::BulkString(RespBulkString::from_raw(b"PONG".to_vec()));
    assert_eq!(step_err(&mut h, bulk_pong), HandshakeError::UnexpectedReply);
    assert_eq!(h.stage, HandshakeStage::AwaitPong);
}

#[test]
fn handshake_aborts_on_an_unrecognized_status_line() {
    let (mut h, _) = Handshake::new(6380);
    step_request(&mut h, simple("PONG"));
    step_request(&mut h, simple("OK"));
    step_request(&mut h, simple("OK"));
    assert_eq!(step_err(&mut h, simple("CONTINUE abc 0")), HandshakeError::UnrecognizedResponse);
    assert_eq!(
        step_err(&mut h, simple("FULLRESYNC too many fields")),
        HandshakeError::UnrecognizedResponse
    );
    assert_eq!(
        step_err(&mut h, simple("FULLRESYNC missingoffset")),
        HandshakeError::UnrecognizedResponse
    );
    assert_eq!(
        step_err(&mut h, simple("FULLRESYNC id notanumber")),
        HandshakeError::UnrecognizedResponse
    );
    assert!(!h.finished());
}

#[test]
fn initialization_as_master() {
    let info = initialize_replication(Args { port: None, replica_of: None }).expect("configure");
    assert_eq!(info.role, ReplicationRole::Master);
    assert_eq!(info.master_repl_offset, 0);
    assert_eq!(info.master_host, "".to_string());
    assert_eq!(info.master_port, 0);
    assert_eq!(info.master_replid.len(), 40);
    assert!(info
        .master_replid
        .bytes()
        .all(|b| b.is_ascii_digit() || b.is_ascii_lowercase()));
}

#[test]
fn initialization_as_slave_parses_the_master_port() {
    let args = Args {
        port: Some(1),
        replica_of: Some(vec!["10.0.0.7".to_string(), "6380".to_string()]),
    };
    let info = initialize_replication(args).expect("configure");
    assert_eq!(info.role, ReplicationRole::Slave);
    assert_eq!(info.master_host, "10.0.0.7".to_string());
    assert_eq!(info.master_port, 6380);
}

#[test]
fn initialization_refuses_bad_configuration() {
    let bad_port = Args {
        port: None,
        replica_of: Some(vec!["h".to_string(), "notaport".to_string()]),
    };
    match initialize_replication(bad_port) {
        Err(e) => assert_eq!(e, ConfigError::BadMasterPort),
        Ok(_) => panic!("expected a configuration error"),
    }
    let too_large = Args {
        port: None,
        replica_of: Some(vec!["h".to_string(), "70000".to_string()]),
    };
    match initialize_replication(too_large) {
        Err(e) => assert_eq!(e, ConfigError::BadMasterPort),
        Ok(_) => panic!("expected a configuration error"),
    }
    let wrong_shape = Args { port: None, replica_of: Some(vec!["h".to_string()]) };
    match initialize_replication(wrong_shape) {
        Err(e) => assert_eq!(e, ConfigError::BadReplicaOf),
        Ok(_) => panic!("expected a configuration error"),
    }
}

#[test]
fn replication_ids_use_the_forty_character_alphabet() {
    let id = generate_master_replid();
    assert_eq!(id.len(), 40);
    assert!(id.bytes().all(|b| b.is_ascii_digit() || b.is_ascii_lowercase()));
}

#[test]
fn listening_port_defaults() {
    assert_eq!(Args { port: None, replica_of: None }.listening_port(), 6379);
    assert_eq!(Args { port: Some(7000), replica_of: None }.listening_port(), 7000);
}
