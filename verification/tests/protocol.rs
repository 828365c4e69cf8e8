use payment_gateway::umbral_socket::client::{Begin, Call, UmbralClient, UmbralResponse};
use payment_gateway::umbral_socket::command::{
    same_bytes, Command, Router, SendError, STATUS_HANDLER_FAILED, STATUS_OK,
    STATUS_UNKNOWN_COMMAND,
};
use payment_gateway::umbral_socket::connection::Connection;
use payment_gateway::umbral_socket::frame::{
    decode_request, decode_response, encode_request, encode_response, FrameError, Request,
    Response, HEADER,
};

const RECORD: &[u8] = b"{\"amount\":19.9,\"requestedAt\":\"2025-07-15T12:34:56.000Z\"}";

#[test]
fn a_request_frame_is_laid_out_as_documented() {
    let frame = encode_request(b"SAVE", b"{}").unwrap();
    assert_eq!(frame, vec![0, 4, 0, 0, 0, 2, b'S', b'A', b'V', b'E', b'{', b'}']);
    let frame = encode_request(b"PURGE", b"").unwrap();
    assert_eq!(frame, vec![0, 5, 0, 0, 0, 0, b'P', b'U', b'R', b'G', b'E']);
    assert_eq!(encode_request(b"", b"").unwrap(), vec![0; 6]);
    assert_eq!(HEADER, 6);
}

#[test]
fn a_response_frame_is_laid_out_as_documented() {
    assert_eq!(encode_response(200, b"ok").unwrap(), vec![0, 200, 0, 0, 0, 2, b'o', b'k']);
    assert_eq!(encode_response(404, b"").unwrap(), vec![1, 148, 0, 0, 0, 0]);
    assert_eq!(encode_response(0xffff, b"").unwrap(), vec![255, 255, 0, 0, 0, 0]);
}

#[test]
fn lengths_are_big_endian() {
    let payload = vec![7u8; 0x01_02_03];
    let frame = encode_request(&vec![b'c'; 0x0102], &payload).unwrap();
    assert_eq!(&frame[..6], &[1, 2, 0, 1, 2, 3]);
    assert_eq!(frame.len(), 6 + 0x0102 + 0x01_02_03);
    let (request, consumed) = decode_request(&frame).unwrap();
    assert_eq!(consumed, frame.len());
    assert_eq!(request.command, vec![b'c'; 0x0102]);
    assert_eq!(request.payload, payload);
}

#[test]
fn a_saved_record_comes_back_byte_for_byte() {
    let frame = encode_request(&Command::Save.token(), RECORD).unwrap();
    let (request, consumed) = decode_request(&frame).unwrap();
    assert_eq!(consumed, frame.len());
    assert_eq!(request, Request { command: b"SAVE".to_vec(), payload: RECORD.to_vec() });
    assert_eq!(Command::parse(&request.command), Some(Command::Save));
}

#[test]
fn a_summary_answer_comes_back_byte_for_byte() {
    let body = b"{\"default\":{\"totalRequests\":3,\"totalAmount\":35.0},\"fallback\":{\"totalRequests\":0,\"totalAmount\":0.0}}";
    let mut stream = encode_response(STATUS_OK, body).unwrap();
    let length = stream.len();
    stream.extend_from_slice(b"next");
    let (response, consumed) = decode_response(&stream).unwrap();
    assert_eq!(consumed, length);
    assert_eq!(response, Response { status: 200, payload: body.to_vec() });
}

#[test]
fn every_byte_value_passes_through_a_frame() {
    let payload: Vec<u8> = (0..=255u8).collect();
    let frame = encode_request(&payload, &payload).unwrap();
    let (request, _) = decode_request(&frame).unwrap();
    assert_eq!(request.command, payload);
    assert_eq!(request.payload, payload);
    let frame = encode_response(500, &payload).unwrap();
    let (response, _) = decode_response(&frame).unwrap();
    assert_eq!(response.payload, payload);
    assert_eq!(response.status, 500);
}

#[test]
fn a_frame_is_not_read_before_its_last_byte() {
    let frame = encode_request(b"SUMMARY", b"{\"from\":null,\"to\":null}").unwrap();
    for taken in 0..frame.len() {
        assert_eq!(decode_request(&frame[..taken]), None);
    }
    assert!(decode_request(&frame).is_some());
    let frame = encode_response(200, b"payload").unwrap();
    for taken in 0..frame.len() {
        assert_eq!(decode_response(&frame[..taken]), None);
    }
    assert!(decode_response(&frame).is_some());
}

#[test]
fn an_overlong_command_is_refused() {
    let command = vec![b'x'; 0x1_0000];
    assert_eq!(encode_request(&command, b""), Err(FrameError::CommandTooLong));
    assert!(encode_request(&command[..0xffff], b"").is_ok());
}

#[test]
fn a_connection_gives_requests_in_the_order_of_arrival() {
    let first = encode_request(b"SAVE", RECORD).unwrap();
    let second = encode_request(b"PURGE", b"").unwrap();
    let mut stream = first.clone();
    stream.extend_from_slice(&second);
    let mut connection = Connection::new();
    assert_eq!(connection.next_request(), None);
    // The bytes come in pieces that do not respect the frames.
    let cut = first.len() + 3;
    connection.receive(&stream[..4]);
    assert_eq!(connection.next_request(), None);
    connection.receive(&stream[4..cut]);
    assert_eq!(
        connection.next_request(),
        Some(Request { command: b"SAVE".to_vec(), payload: RECORD.to_vec() })
    );
    assert_eq!(connection.next_request(), None);
    connection.receive(&stream[cut..]);
    assert_eq!(
        connection.next_request(),
        Some(Request { command: b"PURGE".to_vec(), payload: Vec::new() })
    );
    assert_eq!(connection.next_request(), None);
}

#[test]
fn a_connection_gives_responses_in_the_order_of_arrival() {
    let mut connection = Connection::new();
    connection.receive(&encode_response(200, b"one").unwrap());
    connection.receive(&encode_response(500, b"").unwrap());
    assert_eq!(connection.next_response(), Some(Response { status: 200, payload: b"one".to_vec() }));
    assert_eq!(connection.next_response(), Some(Response { status: 500, payload: Vec::new() }));
    assert_eq!(connection.next_response(), None);
}

#[test]
fn commands_have_their_names() {
    assert_eq!(Command::Save.token(), b"SAVE".to_vec());
    assert_eq!(Command::Purge.token(), b"PURGE".to_vec());
    assert_eq!(Command::Summary.token(), b"SUMMARY".to_vec());
    assert_eq!(Command::parse(b"SAVE"), Some(Command::Save));
    assert_eq!(Command::parse(b"PURGE"), Some(Command::Purge));
    assert_eq!(Command::parse(b"SUMMARY"), Some(Command::Summary));
    assert_eq!(Command::parse(b"save"), None);
    assert_eq!(Command::parse(b"SAVE "), None);
    assert_eq!(Command::parse(b""), None);
}

#[test]
fn bytes_are_compared_in_full() {
    assert!(same_bytes(b"", b""));
    assert!(same_bytes(b"abc", b"abc"));
    assert!(!same_bytes(b"abc", b"abd"));
    assert!(!same_bytes(b"abc", b"ab"));
    assert!(!same_bytes(b"", b"a"));
}

#[test]
fn a_router_resolves_the_first_route_of_a_name() {
    let router = Router::new().route(b"SAVE").route(b"PURGE").route(b"SUMMARY").route(b"SAVE");
    assert_eq!(router.len(), 4);
    assert_eq!(router.resolve(b"SAVE"), Some(0));
    assert_eq!(router.resolve(b"PURGE"), Some(1));
    assert_eq!(router.resolve(b"SUMMARY"), Some(2));
    assert_eq!(router.resolve(b"DROP"), None);
    assert_eq!(Router::new().resolve(b"SAVE"), None);
}

#[test]
fn an_unknown_command_is_answered_without_a_handler() {
    let router = Router::new().route(b"SAVE");
    let known = Request { command: b"SAVE".to_vec(), payload: RECORD.to_vec() };
    assert_eq!(router.dispatch(&known), Ok(0));
    let unknown = Request { command: b"DROP".to_vec(), payload: RECORD.to_vec() };
    assert_eq!(
        router.dispatch(&unknown),
        Err(Response { status: STATUS_UNKNOWN_COMMAND, payload: Vec::new() })
    );
    assert_eq!(Response::unknown_command().into_result(), Err(SendError::UnknownCommand));
}

#[test]
fn a_handler_failure_has_a_status_and_no_payload() {
    assert_eq!(
        Response::respond(Some(b"done".to_vec())),
        Response { status: STATUS_OK, payload: b"done".to_vec() }
    );
    assert_eq!(
        Response::respond(None),
        Response { status: STATUS_HANDLER_FAILED, payload: Vec::new() }
    );
    assert_eq!(Response::handler_failed().into_result(), Err(SendError::Handler(500)));
    assert_eq!(Response::success(b"x".to_vec()).into_result(), Ok(b"x".to_vec()));
}

#[test]
fn only_statuses_from_200_to_299_are_successes() {
    let with = |status: u16| Response { status, payload: b"p".to_vec() }.into_result();
    assert_eq!(with(199), Err(SendError::Handler(199)));
    assert_eq!(with(200), Ok(b"p".to_vec()));
    assert_eq!(with(299), Ok(b"p".to_vec()));
    assert_eq!(with(300), Err(SendError::Handler(300)));
    assert_eq!(with(404), Err(SendError::UnknownCommand));
    assert_eq!(with(0), Err(SendError::Handler(0)));
}

#[test]
fn a_pool_lends_each_connection_to_one_caller() {
    let mut client = UmbralClient::new("/sockets/database.sock", 3);
    assert_eq!(client.socket(), "/sockets/database.sock");
    assert_eq!(client.size(), 3);
    assert_eq!(client.acquire(), Some(0));
    assert_eq!(client.acquire(), Some(1));
    assert_eq!(client.acquire(), Some(2));
    assert_eq!(client.acquire(), None);
    assert!(client.release(1));
    assert!(!client.release(1));
    assert!(!client.release(3));
    assert_eq!(client.acquire(), Some(1));
    assert_eq!(client.acquire(), None);
    assert_eq!(client.size(), 3);
}

#[test]
fn an_empty_pool_never_lends() {
    let mut client = UmbralClient::new("", 0);
    assert_eq!(client.acquire(), None);
    assert!(!client.release(0));
    assert_eq!(client.begin(b"SAVE", RECORD), Begin::Busy);
}

#[test]
fn a_call_borrows_a_connection_and_returns_it() {
    let mut client = UmbralClient::new("/sockets/database.sock", 1);
    let frame = encode_request(b"SAVE", RECORD).unwrap();
    assert_eq!(
        client.begin(b"SAVE", RECORD),
        Begin::Framed(Call { connection: 0, frame: frame.clone() })
    );
    assert_eq!(client.begin(b"PURGE", b""), Begin::Busy);
    let answer = Response { status: 200, payload: b"answer".to_vec() };
    assert_eq!(client.finish(0, Some(answer)), Ok(b"answer".to_vec()));
    assert_eq!(
        client.begin(b"PURGE", b""),
        Begin::Framed(Call { connection: 0, frame: vec![0, 5, 0, 0, 0, 0, 80, 85, 82, 71, 69] })
    );
    assert_eq!(client.finish(0, None), Err(SendError::Transport));
    assert_eq!(client.acquire(), Some(0));
    assert_eq!(
        client.finish(0, Some(Response { status: 404, payload: Vec::new() })),
        Err(SendError::UnknownCommand)
    );
    assert_eq!(
        client.finish(0, Some(Response { status: 500, payload: Vec::new() })),
        Err(SendError::Handler(500))
    );
}

#[test]
fn a_request_that_cannot_be_framed_borrows_nothing() {
    let mut client = UmbralClient::new("/sockets/database.sock", 1);
    let command = vec![b'x'; 0x1_0000];
    assert_eq!(client.begin(&command, b""), Begin::Refused(FrameError::CommandTooLong));
    assert_eq!(client.acquire(), Some(0));
}

#[test]
fn a_response_keeps_status_and_answer() {
    let response = UmbralResponse::new(201, Some(5u8));
    assert_eq!(response, UmbralResponse { status: 201, response: Some(5u8) });
    let empty: UmbralResponse<()> = UmbralResponse::new(204, None);
    assert_eq!(empty.status, 204);
    assert_eq!(empty.response, None);
}

fn record_json(amount: f64, requested_at: chrono::DateTime<chrono::Utc>) -> Vec<u8> {
    let mut fields = serde_json::Map::new();
    fields.insert("amount".to_string(), serde_json::Value::from(amount));
    let text = requested_at.to_rfc3339_opts(chrono::SecondsFormat::Millis, true);
    fields.insert("requestedAt".to_string(), serde_json::Value::from(text));
    serde_json::to_vec(&serde_json::Value::Object(fields)).unwrap()
}

#[test]
fn a_record_sent_for_saving_is_read_field_for_field() {
    let times = [
        0i64,
        1,
        -1,
        1_752_582_896_123,
        253_402_300_799_999,
        -62_135_596_800_000,
    ];
    let amounts = [0.0f64, 0.01, 19.9, 20.005, 1e12, 123_456_789.125];
    for millis in times {
        for amount in amounts {
            let requested_at = chrono::DateTime::from_timestamp_millis(millis).unwrap();
            let payload = record_json(amount, requested_at);
            let frame = encode_request(&Command::Save.token(), &payload).unwrap();
            let mut connection = Connection::new();
            connection.receive(&frame);
            let request = connection.next_request().unwrap();
            assert_eq!(Command::parse(&request.command), Some(Command::Save));
            let value: serde_json::Value = serde_json::from_slice(&request.payload).unwrap();
            assert_eq!(value.get("amount").unwrap().as_f64(), Some(amount));
            let text = value.get("requestedAt").unwrap().as_str().unwrap();
            let read = chrono::DateTime::parse_from_rfc3339(text).unwrap();
            assert_eq!(read.timestamp_millis(), millis);
        }
    }
}

#[test]
fn a_summary_query_and_its_answer_cross_unchanged() {
    let query = b"{\"from\":\"2025-07-15T12:34:56.000Z\",\"to\":null}";
    let mut client = UmbralClient::new("/sockets/database.sock", 2);
    let call = match client.begin(&Command::Summary.token(), query) {
        Begin::Framed(call) => call,
        other => panic!("expected a framed call, got {:?}", other),
    };
    let mut server_side = Connection::new();
    server_side.receive(&call.frame);
    let request = server_side.next_request().unwrap();
    assert_eq!(request.payload, query.to_vec());
    let router = Router::new().route(b"SAVE").route(b"PURGE").route(b"SUMMARY");
    assert_eq!(router.dispatch(&request), Ok(2));
    let answer = b"{\"default\":{\"totalRequests\":0,\"totalAmount\":0.0},\"fallback\":{\"totalRequests\":0,\"totalAmount\":0.0}}";
    let response = Response::respond(Some(answer.to_vec()));
    let frame = encode_response(response.status, &response.payload).unwrap();
    let mut client_side = Connection::new();
    client_side.receive(&frame);
    let read = client_side.next_response();
    assert_eq!(client.finish(call.connection, read), Ok(answer.to_vec()));
    assert_eq!(client.acquire(), Some(0));
}
