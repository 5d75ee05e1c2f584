//! The command engine, driven both through `handle_request` on raw wire
//! bytes and through the individual commands.

use respkv::ServerError;
use respkv::ServerState;
use respkv::commands::CommandError;
use respkv::commands::Commands;
use respkv::commands::echo::CommandEcho;
use respkv::handle_request;
use respkv::replication::Args;
use respkv::replication::PendingSlave;
use respkv::replication::ReplicationRole;
use respkv::replication::initialize_replication;
use respkv::resp::RespValues;
use respkv::resp::array::RespArray;
use respkv::resp::bulk_string::RespBulkString;

fn master_state() -> ServerState {
    let info = initialize_replication(Args { port: None, replica_of: None }).expect("configure");
    ServerState::new(info).expect("state")
}

fn bulk(bytes: &[u8]) -> RespValues {
    RespValues::BulkString(RespBulkString::from_raw(bytes.to_vec()))
}

fn array(values: Vec<RespValues>) -> RespValues {
    RespValues::Array(RespArray::from_raw(values))
}

fn request(state: &mut ServerState, pending: &mut PendingSlave, input: &[u8]) -> Vec<u8> {
    match handle_request(input, state, pending, 0) {
        Ok(Some(reply)) => reply,
        other => panic!("expected a reply, got {:?}", other.map(|r| r.map(|_| ()))),
    }
}

#[test]
fn ping_round_trip_on_the_wire() {
    let mut state = master_state();
    let mut pending = PendingSlave::new();
    let reply = request(&mut state, &mut pending, b"*1\r\n$4\r\nping\r\n");
    assert_eq!(reply, b"+PONG\r\n".to_vec());
}

#[test]
fn set_then_get_on_the_wire() {
    let mut state = master_state();
    let mut pending = PendingSlave::new();
    let reply = request(
        &mut state,
        &mut pending,
        b"*3\r\n$3\r\nSET\r\n$3\r\nfoo\r\n$3\r\nbar\r\n",
    );
    assert_eq!(reply, b"+OK\r\n".to_vec());
    let reply = request(&mut state, &mut pending, b"*2\r\n$3\r\nGET\r\n$3\r\nfoo\r\n");
    assert_eq!(reply, b"$3\r\nbar\r\n".to_vec());
}

#[test]
fn set_then_get_lower_case_on_the_wire() {
    let mut state = master_state();
    let mut pending = PendingSlave::new();
    let reply = request(
        &mut state,
        &mut pending,
        b"*3\r\n$3\r\nset\r\n$3\r\nfoo\r\n$3\r\nbar\r\n",
    );
    assert_eq!(reply, b"+OK\r\n".to_vec());
    let reply = request(&mut state, &mut pending, b"*2\r\n$3\r\nget\r\n$3\r\nfoo\r\n");
    assert_eq!(reply, b"$3\r\nbar\r\n".to_vec());
}

#[test]
fn get_of_absent_key_answers_null() {
    let mut state = master_state();
    let mut pending = PendingSlave::new();
    let reply = request(&mut state, &mut pending, b"*2\r\n$3\r\nget\r\n$2\r\nno\r\n");
    assert_eq!(reply, b"_\r\n".to_vec());
}

#[test]
fn set_with_expiry_hides_value_later() {
    let mut state = master_state();
    let mut pending = PendingSlave::new();
    let set = b"*5\r\n$3\r\nset\r\n$1\r\nk\r\n$1\r\nv\r\n$2\r\npx\r\n$2\r\n10\r\n";
    assert_eq!(handle_request(set, &mut state, &mut pending, 1000), Ok(Some(b"+OK\r\n".to_vec())));
    let get = b"*2\r\n$3\r\nget\r\n$1\r\nk\r\n";
    assert_eq!(handle_request(get, &mut state, &mut pending, 1005), Ok(Some(b"$1\r\nv\r\n".to_vec())));
    assert_eq!(handle_request(get, &mut state, &mut pending, 1011), Ok(Some(b"_\r\n".to_vec())));
}

#[test]
fn echo_answers_its_payload_verbatim() {
    let mut state = master_state();
    let mut pending = PendingSlave::new();
    let reply = request(&mut state, &mut pending, b"*2\r\n$4\r\necho\r\n$5\r\nhello\r\n");
    assert_eq!(reply, b"$5\r\nhello\r\n".to_vec());
}

#[test]
fn echo_rejects_wrong_arity() {
    // zero payload arguments
    match CommandEcho::invoke(array(vec![bulk(b"echo")])) {
        Err(e) => assert_eq!(e, CommandError::WrongArity),
        Ok(_) => panic!("expected an arity error"),
    }
    // two payload arguments
    match CommandEcho::invoke(array(vec![bulk(b"echo"), bulk(b"a"), bulk(b"b")])) {
        Err(e) => assert_eq!(e, CommandError::WrongArity),
        Ok(_) => panic!("expected an arity error"),
    }
    let mut state = master_state();
    let mut pending = PendingSlave::new();
    assert_eq!(
        handle_request(b"*1\r\n$4\r\necho\r\n", &mut state, &mut pending, 0),
        Err(ServerError::Command(CommandError::WrongArity))
    );
    assert_eq!(
        handle_request(
            b"*3\r\n$4\r\necho\r\n$1\r\na\r\n$1\r\nb\r\n",
            &mut state,
            &mut pending,
            0
        ),
        Err(ServerError::Command(CommandError::WrongArity))
    );
}

#[test]
fn unknown_command_is_a_typed_error() {
    let mut state = master_state();
    let mut pending = PendingSlave::new();
    assert_eq!(
        handle_request(b"*1\r\n$5\r\nhello\r\n", &mut state, &mut pending, 0),
        Err(ServerError::Command(CommandError::UnknownCommand))
    );
}

#[test]
fn request_must_consume_whole_input() {
    let mut state = master_state();
    let mut pending = PendingSlave::new();
    assert_eq!(
        handle_request(b"*1\r\n$4\r\nping\r\n+junk\r\n", &mut state, &mut pending, 0),
        Err(ServerError::TrailingBytes)
    );
}

#[test]
fn malformed_request_is_a_format_error() {
    let mut state = master_state();
    let mut pending = PendingSlave::new();
    match handle_request(b"*1\r\n$4\r\npin", &mut state, &mut pending, 0) {
        Err(ServerError::Format(_)) => {},
        other => panic!("expected a format error, got {:?}", other.map(|_| ())),
    }
}

#[test]
fn non_array_request_is_malformed() {
    let mut state = master_state();
    let mut pending = PendingSlave::new();
    assert_eq!(
        handle_request(b"+ping\r\n", &mut state, &mut pending, 0),
        Err(ServerError::Command(CommandError::MalformedRequest))
    );
}

#[test]
fn info_reports_the_replication_section() {
    let mut state = master_state();
    let replid = state.replication.master_replid.clone();
    let mut pending = PendingSlave::new();
    let reply = request(&mut state, &mut pending, b"*1\r\n$4\r\ninfo\r\n");
    let text = String::from_utf8(reply).expect("ascii payload");
    let body = text.split_once("\r\n").expect("length prefix").1;
    assert!(body.starts_with("# Replication\r\nrole:master\r\nconnected_slaves:0\r\n"));
    assert!(body.contains(&format!("master_replid:{}\r\n", replid)));
    assert!(body.contains("master_repl_offset:0\r\n"));
    assert!(!body.contains("master_host:"));
}

#[test]
fn info_for_a_slave_names_its_master() {
    let args = Args {
        port: Some(6380),
        replica_of: Some(vec!["localhost".to_string(), "6379".to_string()]),
    };
    let info = initialize_replication(args).expect("configure");
    assert_eq!(info.role, ReplicationRole::Slave);
    let mut state = ServerState::new(info).expect("state");
    let mut pending = PendingSlave::new();
    let reply = request(&mut state, &mut pending, b"*1\r\n$4\r\ninfo\r\n");
    let text = String::from_utf8(reply).expect("ascii payload");
    assert!(text.contains("role:slave\r\n"));
    assert!(text.contains("master_host:localhost\r\n"));
    assert!(text.contains("master_port:6379\r\n"));
}

#[test]
fn replconf_registers_a_slave_in_two_messages() {
    let mut state = master_state();
    let mut pending = PendingSlave::new();
    let port_msg = b"*3\r\n$8\r\nREPLCONF\r\n$14\r\nlistening-port\r\n$4\r\n7777\r\n";
    assert_eq!(request(&mut state, &mut pending, port_msg), b"+OK\r\n".to_vec());
    assert_eq!(state.config.slaves.len(), 0);
    assert_eq!(pending.port, Some(7777));
    let capa_msg = b"*5\r\n$8\r\nREPLCONF\r\n$4\r\ncapa\r\n$6\r\npsync2\r\n$4\r\ncapa\r\n$3\r\neof\r\n";
    assert_eq!(request(&mut state, &mut pending, capa_msg), b"+OK\r\n".to_vec());
    assert_eq!(state.config.slaves.len(), 1);
    assert_eq!(state.config.slaves[0].port, 7777);
    assert_eq!(
        state.config.slaves[0].capabilities,
        vec!["psync2".to_string(), "eof".to_string()]
    );
    assert_eq!(pending.port, None);
}

#[test]
fn replconf_refuses_capabilities_before_a_port() {
    let mut state = master_state();
    let mut pending = PendingSlave::new();
    let capa_msg = b"*3\r\n$8\r\nREPLCONF\r\n$4\r\ncapa\r\n$6\r\npsync2\r\n";
    assert_eq!(
        handle_request(capa_msg, &mut state, &mut pending, 0),
        Err(ServerError::Command(CommandError::ReplconfOutOfOrder))
    );
    assert_eq!(state.config.slaves.len(), 0);
}

#[test]
fn replconf_refuses_a_second_port_before_capabilities() {
    let mut state = master_state();
    let mut pending = PendingSlave::new();
    let port_msg = b"*3\r\n$8\r\nREPLCONF\r\n$14\r\nlistening-port\r\n$4\r\n7777\r\n";
    request(&mut state, &mut pending, port_msg);
    assert_eq!(
        handle_request(port_msg, &mut state, &mut pending, 0),
        Err(ServerError::Command(CommandError::ReplconfOutOfOrder))
    );
}

#[test]
fn replconf_refuses_a_key_that_is_not_capa() {
    let mut state = master_state();
    let mut pending = PendingSlave::new();
    let port_msg = b"*3\r\n$8\r\nREPLCONF\r\n$14\r\nlistening-port\r\n$4\r\n7777\r\n";
    request(&mut state, &mut pending, port_msg);
    let bad = b"*3\r\n$8\r\nREPLCONF\r\n$4\r\ncapa\r\n$6\r\npsync2\r\n+x\r\n";
    assert_eq!(
        handle_request(bad, &mut state, &mut pending, 0),
        Err(ServerError::TrailingBytes)
    );
    let bad_key = b"*5\r\n$8\r\nREPLCONF\r\n$4\r\ncapa\r\n$6\r\npsync2\r\n$4\r\nmore\r\n$1\r\nx\r\n";
    assert_eq!(
        handle_request(bad_key, &mut state, &mut pending, 0),
        Err(ServerError::Command(CommandError::UnknownReplconfStage))
    );
    assert_eq!(state.config.slaves.len(), 0);
}

#[test]
fn replconf_refuses_a_bad_port() {
    let mut state = master_state();
    let mut pending = PendingSlave::new();
    let bad_port = b"*3\r\n$8\r\nREPLCONF\r\n$14\r\nlistening-port\r\n$5\r\n77777\r\n";
    assert_eq!(
        handle_request(bad_port, &mut state, &mut pending, 0),
        Err(ServerError::Command(CommandError::BadInteger))
    );
}

#[test]
fn psync_full_resync_claim_is_answered_with_the_id() {
    let mut state = master_state();
    let replid = state.replication.master_replid.clone();
    let mut pending = PendingSlave::new();
    let msg = b"*3\r\n$5\r\nPSYNC\r\n$1\r\n?\r\n$2\r\n-1\r\n";
    let reply = request(&mut state, &mut pending, msg);
    let expected = format!("+FULLRESYNC {} 0\r\n", replid).into_bytes();
    assert_eq!(reply, expected);
}

#[test]
fn psync_with_a_known_id_gets_no_reply() {
    let mut state = master_state();
    let mut pending = PendingSlave::new();
    let msg = b"*3\r\n$5\r\nPSYNC\r\n$5\r\nabcde\r\n$1\r\n0\r\n";
    assert_eq!(handle_request(msg, &mut state, &mut pending, 0), Ok(None));
}

#[test]
fn psync_refuses_a_non_numeric_offset() {
    let mut state = master_state();
    let mut pending = PendingSlave::new();
    let msg = b"*3\r\n$5\r\nPSYNC\r\n$1\r\n?\r\n$2\r\nxy\r\n";
    assert_eq!(
        handle_request(msg, &mut state, &mut pending, 0),
        Err(ServerError::Command(CommandError::BadInteger))
    );
}

#[test]
fn set_option_pairs_let_later_px_win() {
    let mut state = master_state();
    let mut pending = PendingSlave::new();
    let msg = b"*7\r\n$3\r\nset\r\n$1\r\nk\r\n$1\r\nv\r\n$2\r\npx\r\n$1\r\n5\r\n$2\r\npx\r\n$2\r\n20\r\n";
    assert_eq!(handle_request(msg, &mut state, &mut pending, 100), Ok(Some(b"+OK\r\n".to_vec())));
    let get = b"*2\r\n$3\r\nget\r\n$1\r\nk\r\n";
    assert_eq!(handle_request(get, &mut state, &mut pending, 115), Ok(Some(b"$1\r\nv\r\n".to_vec())));
    assert_eq!(handle_request(get, &mut state, &mut pending, 121), Ok(Some(b"_\r\n".to_vec())));
}

#[test]
fn set_ignores_unknown_options_but_refuses_dangling_names() {
    let mut state = master_state();
    let mut pending = PendingSlave::new();
    let msg = b"*5\r\n$3\r\nset\r\n$1\r\nk\r\n$1\r\nv\r\n$2\r\nnx\r\n$1\r\n1\r\n";
    assert_eq!(handle_request(msg, &mut state, &mut pending, 0), Ok(Some(b"+OK\r\n".to_vec())));
    let dangling = b"*4\r\n$3\r\nset\r\n$1\r\nk\r\n$1\r\nv\r\n$2\r\npx\r\n";
    assert_eq!(
        handle_request(dangling, &mut state, &mut pending, 0),
        Err(ServerError::Command(CommandError::WrongArity))
    );
}

#[test]
fn set_refuses_a_non_numeric_expiry() {
    let mut state = master_state();
    let mut pending = PendingSlave::new();
    let msg = b"*5\r\n$3\r\nset\r\n$1\r\nk\r\n$1\r\nv\r\n$2\r\npx\r\n$2\r\nxy\r\n";
    assert_eq!(
        handle_request(msg, &mut state, &mut pending, 0),
        Err(ServerError::Command(CommandError::BadInteger))
    );
}

#[test]
fn get_rejects_wrong_shapes() {
    let mut state = master_state();
    let mut pending = PendingSlave::new();
    assert_eq!(
        handle_request(b"*1\r\n$3\r\nget\r\n", &mut state, &mut pending, 0),
        Err(ServerError::Command(CommandError::WrongArity))
    );
    assert_eq!(
        handle_request(b"*2\r\n$3\r\nget\r\n+k\r\n", &mut state, &mut pending, 0),
        Err(ServerError::Command(CommandError::ExpectedBulkString))
    );
}

#[test]
fn keys_and_values_are_binary_safe_on_the_wire() {
    let mut state = master_state();
    let mut pending = PendingSlave::new();
    // a key of arbitrary bytes and a value holding UTF-8 and raw bytes
    let set = b"*3\r\n$3\r\nset\r\n$2\r\n\xff\x00\r\n$5\r\ncaf\xc3\xa9\r\n";
    assert_eq!(handle_request(set, &mut state, &mut pending, 0), Ok(Some(b"+OK\r\n".to_vec())));
    let get = b"*2\r\n$3\r\nget\r\n$2\r\n\xff\x00\r\n";
    assert_eq!(
        handle_request(get, &mut state, &mut pending, 0),
        Ok(Some(b"$5\r\ncaf\xc3\xa9\r\n".to_vec()))
    );
}

#[test]
fn set_consumes_the_expiry_option_in_any_case() {
    let mut state = master_state();
    let mut pending = PendingSlave::new();
    let set = b"*5\r\n$3\r\nSET\r\n$1\r\nk\r\n$1\r\nv\r\n$2\r\nPX\r\n$2\r\n10\r\n";
    assert_eq!(handle_request(set, &mut state, &mut pending, 1000), Ok(Some(b"+OK\r\n".to_vec())));
    let get = b"*2\r\n$3\r\nget\r\n$1\r\nk\r\n";
    assert_eq!(handle_request(get, &mut state, &mut pending, 1005), Ok(Some(b"$1\r\nv\r\n".to_vec())));
    assert_eq!(handle_request(get, &mut state, &mut pending, 1011), Ok(Some(b"_\r\n".to_vec())));
}

#[test]
fn replconf_accepts_utf8_tokens_and_refuses_other_bytes() {
    let mut state = master_state();
    let mut pending = PendingSlave::new();
    let port_msg = b"*3\r\n$8\r\nREPLCONF\r\n$14\r\nlistening-port\r\n$4\r\n7777\r\n";
    request(&mut state, &mut pending, port_msg);
    let bad_token = b"*3\r\n$8\r\nREPLCONF\r\n$4\r\ncapa\r\n$1\r\n\xff\r\n";
    assert_eq!(
        handle_request(bad_token, &mut state, &mut pending, 0),
        Err(ServerError::Command(CommandError::NonUtf8Argument))
    );
    assert_eq!(state.config.slaves.len(), 0);
    let utf8_token = b"*3\r\n$8\r\nREPLCONF\r\n$4\r\ncapa\r\n$5\r\ncaf\xc3\xa9\r\n";
    assert_eq!(request(&mut state, &mut pending, utf8_token), b"+OK\r\n".to_vec());
    assert_eq!(state.config.slaves.len(), 1);
    assert_eq!(state.config.slaves[0].capabilities, vec!["caf\u{e9}".to_string()]);
}

#[test]
fn set_rejects_missing_arguments() {
    let mut state = master_state();
    let mut pending = PendingSlave::new();
    assert_eq!(
        handle_request(b"*2\r\n$3\r\nset\r\n$1\r\nk\r\n", &mut state, &mut pending, 0),
        Err(ServerError::Command(CommandError::WrongArity))
    );
}

#[test]
fn replconf_registration_needs_a_master() {
    let args = Args {
        port: Some(6380),
        replica_of: Some(vec!["localhost".to_string(), "6379".to_string()]),
    };
    let info = initialize_replication(args).expect("configure");
    let mut state = ServerState::new(info).expect("state");
    let mut pending = PendingSlave::new();
    let port_msg = b"*3\r\n$8\r\nREPLCONF\r\n$14\r\nlistening-port\r\n$4\r\n7777\r\n";
    assert_eq!(request(&mut state, &mut pending, port_msg), b"+OK\r\n".to_vec());
    let capa_msg = b"*3\r\n$8\r\nREPLCONF\r\n$4\r\ncapa\r\n$6\r\npsync2\r\n";
    assert_eq!(
        handle_request(capa_msg, &mut state, &mut pending, 0),
        Err(ServerError::Command(CommandError::NotMaster))
    );
    assert_eq!(state.config.slaves.len(), 0);
}

#[test]
fn info_counts_registered_slaves() {
    let mut state = master_state();
    let mut pending = PendingSlave::new();
    let port_msg = b"*3\r\n$8\r\nREPLCONF\r\n$14\r\nlistening-port\r\n$4\r\n7777\r\n";
    request(&mut state, &mut pending, port_msg);
    let capa_msg = b"*3\r\n$8\r\nREPLCONF\r\n$4\r\ncapa\r\n$6\r\npsync2\r\n";
    request(&mut state, &mut pending, capa_msg);
    let reply = request(&mut state, &mut pending, b"*1\r\n$4\r\ninfo\r\n");
    let text = String::from_utf8(reply).expect("ascii payload");
    assert!(text.contains("connected_slaves:1\r\n"));
}

#[test]
fn dispatch_routes_by_exact_name() {
    let mut state = master_state();
    let mut pending = PendingSlave::new();
    // a request whose first element is not a bulk string is malformed
    let r = Commands::invoke(array(vec![RespValues::Null(respkv::resp::null::RespNull {})]),
        &mut state, &mut pending, 0);
    match r {
        Err(e) => assert_eq!(e, CommandError::MalformedRequest),
        Ok(_) => panic!("expected an error"),
    }
    let r = Commands::invoke(array(vec![]), &mut state, &mut pending, 0);
    match r {
        Err(e) => assert_eq!(e, CommandError::MalformedRequest),
        Ok(_) => panic!("expected an error"),
    }
}
