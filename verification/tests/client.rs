use uosql::client::{
    get_lib_version, is_pending, poll, poll_rows, receive, send_cmd, Handshake, Opening, Poll,
};
use uosql::net::wire::Fault;
use uosql::net::stream::{ByteReader, Duplex};
use uosql::net::types::{preprocess, ClientErrMsg, Command, PkgType};
use uosql::storage::{Column, ResultSet, SqlType};
use uosql::{Connection, Error};

fn greeting_bytes() -> Vec<u8> {
    let mut bytes = vec![0, 0, 0, 0, 1, 0, 0, 0, 0, 0, 0, 0, 2, b'h', b'i'];
    bytes.extend_from_slice(&[]);
    bytes
}

fn login_bytes() -> Vec<u8> {
    vec![
        0, 0, 0, 1, 0, 0, 0, 0, 0, 0, 0, 5, b'e', b'l', b'e', b'n', b'a', 0, 0, 0, 0, 0, 0, 0, 5,
        b'p', b'r', b'a', b'k', b't',
    ]
}

fn error_bytes() -> Vec<u8> {
    vec![0, 0, 0, 3, 0, 9, 0, 0, 0, 0, 0, 0, 0, 3, b'b', b'a', b'd']
}

fn connect(answer: &[u8]) -> Result<Connection, Error> {
    let mut input = greeting_bytes();
    input.extend_from_slice(answer);
    Connection::connect(
        "127.0.0.1".into(),
        Some([127, 0, 0, 1]),
        4242,
        "elena".into(),
        "prakt".into(),
        Duplex::new(input),
    )
}

fn result_set() -> ResultSet {
    ResultSet {
        data: vec![1, 0, 0, 0, 0, 7, 1, 1, 1, 0, 0, 0, 9, 0],
        columns: vec![
            Column {
                name: "id".into(),
                sql_type: SqlType::Int,
                is_primary_key: true,
                allow_null: false,
                description: "key".into(),
            },
            Column {
                name: "ok".into(),
                sql_type: SqlType::Bool,
                is_primary_key: false,
                allow_null: true,
                description: String::new(),
            },
        ],
    }
}

#[test]
fn library_version() {
    assert_eq!(get_lib_version(), 1);
    assert_eq!(uosql::client::PROTOCOL_VERSION, 1);
}

#[test]
fn connecting_reads_the_greeting_and_sends_the_login() {
    let mut conn = connect(&[0, 0, 0, 7, 42]).unwrap();
    assert_eq!(conn.get_version(), 1);
    assert_eq!(conn.get_message(), "hi");
    assert_eq!(conn.get_ip(), "127.0.0.1");
    assert_eq!(conn.get_port(), 4242);
    assert_eq!(conn.get_username(), "elena");
    assert_eq!(conn.take_output(), login_bytes());
    assert_eq!(conn.take_output(), Vec::<u8>::new());
}

#[test]
fn connecting_can_fail() {
    assert!(matches!(connect(&[0, 0, 0, 6]), Err(Error::Auth)));
    assert!(matches!(connect(&[0, 0, 0, 4]), Err(Error::UnexpectedPkg)));
    assert!(matches!(connect(&[0, 0, 0, 9]), Err(Error::UnexpectedPkg)));
    assert!(matches!(connect(&[0, 0, 0]), Err(Error::Bincode(_))));
    assert!(matches!(connect(&[]), Err(Error::Bincode(_))));
    let refused = Connection::connect(
        "127.0.0.1".into(),
        Some([127, 0, 0, 1]),
        4242,
        "elena".into(),
        "prakt".into(),
        Duplex::new(error_bytes()),
    );
    match refused {
        Err(Error::Server(msg)) => assert_eq!(msg, ClientErrMsg { code: 9, msg: "bad".into() }),
        _ => panic!("the server reported an error"),
    }
    let no_greeting = Connection::connect(
        "127.0.0.1".into(),
        Some([127, 0, 0, 1]),
        4242,
        "elena".into(),
        "prakt".into(),
        Duplex::new(vec![0, 0, 0, 7]),
    );
    assert!(matches!(no_greeting, Err(Error::UnexpectedPkg)));
    let cut = Connection::connect(
        "127.0.0.1".into(),
        Some([127, 0, 0, 1]),
        4242,
        "elena".into(),
        "prakt".into(),
        Duplex::new(greeting_bytes()[..9].to_vec()),
    );
    assert!(matches!(cut, Err(Error::Bincode(_))));
}

#[test]
fn ping_and_quit_expect_ok() {
    let mut conn = connect(&[0, 0, 0, 7]).unwrap();
    conn.take_output();
    conn.feed(&[0, 0, 0, 4]);
    assert!(conn.ping().is_ok());
    assert_eq!(conn.take_output(), vec![0, 0, 0, 2, 0, 0, 0, 0]);
    conn.feed(&[0, 0, 0, 4]);
    assert!(conn.quit().is_ok());
    assert_eq!(conn.take_output(), vec![0, 0, 0, 2, 0, 0, 0, 1]);
    // no answer yet
    assert!(matches!(conn.ping(), Err(Error::Bincode(_))));
    conn.feed(&[0, 0, 0, 7]);
    assert!(matches!(conn.quit(), Err(Error::UnexpectedPkg)));
    conn.feed(&error_bytes());
    match conn.ping() {
        Err(Error::Server(msg)) => assert_eq!(msg.code, 9),
        _ => panic!("the server reported an error"),
    }
    assert_eq!(conn.get_username(), "elena");
}

#[test]
fn execute_presents_the_result() {
    let mut conn = connect(&[0, 0, 0, 7]).unwrap();
    conn.take_output();
    let mut answer = vec![0, 0, 0, 5];
    result_set().encode_into(&mut answer).unwrap();
    answer.extend_from_slice(&[0, 0, 0, 4]);
    conn.feed(&answer);
    let mut set = conn.execute("select".into()).unwrap();
    assert_eq!(
        conn.take_output(),
        vec![0, 0, 0, 2, 0, 0, 0, 2, 0, 0, 0, 0, 0, 0, 0, 6, b's', b'e', b'l', b'e', b'c', b't']
    );
    assert!(!set.data_empty());
    assert!(!set.metadata_empty());
    assert_eq!(set.get_col_cnt(), 2);
    assert_eq!(set.get_col_name(0), Some("id"));
    assert_eq!(set.get_col_name(1), Some("ok"));
    assert_eq!(set.get_col_name(2), None);
    assert_eq!(set.get_type_by_idx(0), Some(SqlType::Int));
    assert_eq!(set.get_type_by_idx(1), Some(SqlType::Bool));
    assert_eq!(set.get_type_by_idx(2), None);
    assert_eq!(set.get_is_primary_key_by_idx(0), Some(true));
    assert_eq!(set.get_is_primary_key_by_idx(1), Some(false));
    assert_eq!(set.get_allow_null_by_idx(0), Some(false));
    assert_eq!(set.get_allow_null_by_idx(1), Some(true));
    assert_eq!(set.get_allow_null_by_idx(2), None);
    assert_eq!(set.get_description_by_idx(0), Some("key"));
    assert_eq!(set.get_description_by_idx(5), None);
    assert_eq!(set.next_int_by_idx(0), None);
    assert!(set.next());
    assert_eq!(set.next_int_by_idx(0), Some(7));
    assert_eq!(set.next_bool_by_idx(1), Some(true));
    assert_eq!(set.next_bool_by_idx(0), None);
    assert_eq!(set.next_char_by_idx(0), None);
    assert!(set.next());
    assert_eq!(set.next_int_by_idx(0), Some(9));
    assert_eq!(set.next_bool_by_idx(1), None);
    assert_eq!(set.next_int_by_idx(2), None);
    assert!(!set.next());
    // the package after the result is still on the stream
    assert!(conn.ping().is_ok());
}

#[test]
fn execute_can_fail() {
    let mut conn = connect(&[0, 0, 0, 7]).unwrap();
    conn.feed(&error_bytes());
    assert!(matches!(conn.execute("x".into()), Err(Error::Server(_))));
    conn.feed(&[0, 0, 0, 4]);
    assert!(matches!(conn.execute("x".into()), Err(Error::UnexpectedPkg)));
    conn.feed(&[0, 0, 0, 5, 0, 0]);
    assert!(matches!(conn.execute("x".into()), Err(Error::Bincode(_))));
}

#[test]
fn text_results() {
    let set = ResultSet {
        data: vec![1, 0, 2, b'h', b'i', 0, 1, 1, 0, 0, 0, 0],
        columns: vec![Column {
            name: "t".into(),
            sql_type: SqlType::Char(3),
            is_primary_key: false,
            allow_null: true,
            description: String::new(),
        }],
    };
    let mut set = preprocess(&set);
    assert!(set.next());
    assert_eq!(set.next_char_by_idx(0), Some("hi".to_string()));
    assert_eq!(set.next_int_by_idx(0), None);
    assert!(set.next());
    assert_eq!(set.next_char_by_idx(0), None);
    assert!(!set.next());
}

#[test]
fn results_without_rows_or_columns() {
    let only_columns = ResultSet { data: vec![], columns: result_set().columns };
    let set = preprocess(&only_columns);
    assert!(set.data_empty());
    assert!(!set.metadata_empty());
    let nothing = ResultSet { data: vec![], columns: vec![] };
    let set = preprocess(&nothing);
    assert!(set.data_empty());
    assert!(set.metadata_empty());
    // bytes after the last whole row are left out
    let ragged = ResultSet { data: vec![1, 0, 0, 0, 0, 7, 1, 1], columns: result_set().columns };
    let mut set = preprocess(&ragged);
    assert!(set.next());
    assert_eq!(set.next_int_by_idx(0), Some(7));
    assert!(!set.next());
}

#[test]
fn sending_a_command() {
    let mut out = vec![7];
    send_cmd(&mut out, Command::Query("a".into()), 1024).unwrap();
    assert_eq!(out, vec![7, 0, 0, 0, 2, 0, 0, 0, 2, 0, 0, 0, 0, 0, 0, 0, 1, b'a']);
}

#[test]
fn receiving_skips_the_content_of_an_unexpected_package() {
    // a greeting where Ok is expected: tag and greeting are taken
    let mut bytes = greeting_bytes();
    bytes.extend_from_slice(&[0, 0, 0, 4]);
    let mut stream = ByteReader::new(bytes);
    assert!(matches!(receive(&mut stream, PkgType::Okay), Err(Error::UnexpectedPkg)));
    assert_eq!(stream.rest(), &[0, 0, 0, 4]);
    assert!(receive(&mut stream, PkgType::Okay).is_ok());
    assert!(stream.is_empty());

    // a result where Ok is expected
    let mut bytes = vec![0, 0, 0, 5];
    result_set().encode_into(&mut bytes).unwrap();
    bytes.push(1);
    let mut stream = ByteReader::new(bytes);
    assert!(matches!(receive(&mut stream, PkgType::Okay), Err(Error::UnexpectedPkg)));
    assert_eq!(stream.rest(), &[1]);

    // an incomplete result stays on the stream
    let mut stream = ByteReader::new(vec![0, 0, 0, 5, 0, 0]);
    assert!(matches!(receive(&mut stream, PkgType::Okay), Err(Error::Bincode(_))));
    assert_eq!(stream.len(), 6);

    // an error package is an error of the server even where it is expected
    let mut stream = ByteReader::new(error_bytes());
    assert!(matches!(receive(&mut stream, PkgType::Error), Err(Error::Server(_))));
    assert!(stream.is_empty());

    // a tag that does not exist
    let mut stream = ByteReader::new(vec![0, 0, 1, 0, 5]);
    assert!(matches!(receive(&mut stream, PkgType::Okay), Err(Error::UnexpectedPkg)));
    assert_eq!(stream.rest(), &[5]);

    // other tags have no content to skip
    let mut stream = ByteReader::new(vec![0, 0, 0, 1, 5]);
    assert!(matches!(receive(&mut stream, PkgType::Okay), Err(Error::UnexpectedPkg)));
    assert_eq!(stream.rest(), &[5]);
}

#[test]
fn descriptions_of_errors() {
    assert_eq!(Error::AddrParse.description(), "wrong IPv4 address format");
    assert_eq!(Error::UnexpectedPkg.description(), "received unexpected package");
    assert_eq!(Error::Auth.to_string(), "could not authenticate user");
    let io = Error::Io(std::io::Error::new(std::io::ErrorKind::Other, "x"));
    assert_eq!(io.description(), "IO error occured");
    let server: Error = ClientErrMsg { code: 1, msg: "from the server".into() }.into();
    assert_eq!(server.description(), "from the server");
    let broken = Error::from_net(PkgType::decode(&[]).unwrap_err());
    assert_eq!(broken.description(), "could not encode/decode send package");
    assert!(matches!(Error::from_net(uosql::net::Error::UnknownCmd), Error::UnexpectedPkg));
}

#[test]
fn a_package_is_pending_until_it_has_arrived() {
    let whole = error_bytes();
    for cut in 0..whole.len() {
        assert!(is_pending(&whole[..cut], PkgType::Okay), "cut {}", cut);
    }
    assert!(!is_pending(&whole, PkgType::Okay));
    assert!(!is_pending(&[0, 0, 0, 4], PkgType::Okay));
    assert!(!is_pending(&[0, 0, 0, 4], PkgType::Response));
    assert!(is_pending(&[0, 0, 0, 5, 0], PkgType::Okay));
    assert!(!is_pending(&[0, 0, 0, 5, 0], PkgType::Response));
    // an error package whose text is not UTF-8 will never arrive
    let invalid = [0, 0, 0, 3, 0, 9, 0, 0, 0, 0, 0, 0, 0, 1, 0xFF];
    assert!(!is_pending(&invalid, PkgType::Okay));
    let mut stream = ByteReader::new(invalid.to_vec());
    assert!(matches!(receive(&mut stream, PkgType::Okay), Err(Error::Bincode(_))));
    assert_eq!(stream.len(), invalid.len());
    assert!(matches!(Error::from_fault(Fault::UnknownVariant), Error::UnexpectedPkg));
}

#[test]
fn an_address_that_is_no_ipv4_address_is_refused_first() {
    // whatever the server has sent, and without anything being written
    let mut input = greeting_bytes();
    input.extend_from_slice(&[0, 0, 0, 7]);
    let refused = Connection::connect(
        "localhost".into(),
        None,
        4242,
        "u".into(),
        "p".into(),
        Duplex::new(input.clone()),
    );
    assert!(matches!(refused, Err(Error::AddrParse)));
    let refused = Connection::connect(
        "localhost".into(),
        None,
        4242,
        "u".into(),
        "p".into(),
        Duplex::new(Vec::new()),
    );
    assert!(matches!(refused, Err(Error::AddrParse)));
    let refused =
        Handshake::begin("localhost".into(), None, 4242, "u".into(), "p".into(), Duplex::new(input));
    assert!(matches!(refused, Err(Error::AddrParse)));
}

#[test]
fn a_session_is_opened_as_the_bytes_arrive() {
    let mut handshake = Handshake::begin(
        "10.0.0.9".into(),
        Some([10, 0, 0, 9]),
        7,
        "elena".into(),
        "prakt".into(),
        Duplex::new(Vec::new()),
    )
    .unwrap();
    // nothing has arrived: nothing is written
    handshake = match handshake.advance() {
        Opening::Pending(h, _) => h,
        Opening::Done(_) => panic!("the greeting has not arrived"),
    };
    assert_eq!(handshake.take_output(), Vec::<u8>::new());
    // the greeting arrives in two parts
    let greeting = greeting_bytes();
    handshake.feed(&greeting[..9]);
    handshake = match handshake.advance() {
        Opening::Pending(h, _) => h,
        Opening::Done(_) => panic!("the greeting is not complete"),
    };
    assert_eq!(handshake.take_output(), Vec::<u8>::new());
    handshake.feed(&greeting[9..]);
    handshake = match handshake.advance() {
        Opening::Pending(h, _) => h,
        Opening::Done(_) => panic!("the answer to the login has not arrived"),
    };
    // now the login is written, once
    assert_eq!(handshake.take_output(), login_bytes());
    handshake.feed(&[0, 0]);
    handshake = match handshake.advance() {
        Opening::Pending(h, _) => h,
        Opening::Done(_) => panic!("the answer to the login is not complete"),
    };
    assert_eq!(handshake.take_output(), Vec::<u8>::new());
    handshake.feed(&[0, 7, 0, 0]);
    let mut conn = match handshake.advance() {
        Opening::Done(Ok(conn)) => conn,
        _ => panic!("access is granted"),
    };
    assert_eq!(conn.get_ip(), "10.0.0.9");
    assert_eq!(conn.get_port(), 7);
    assert_eq!(conn.get_username(), "elena");
    assert_eq!(conn.get_message(), "hi");
    assert_eq!(conn.get_version(), 1);
    assert_eq!(conn.take_output(), Vec::<u8>::new());
    // what arrived after the grant is still there
    assert!(matches!(conn.poll(PkgType::Okay), Poll::Pending(_)));
    conn.feed(&[0, 4]);
    assert!(matches!(conn.poll(PkgType::Okay), Poll::Ready(Ok(()))));
}

#[test]
fn an_opening_can_end_with_an_error() {
    let begin = |input: Vec<u8>| {
        Handshake::begin(
            "10.0.0.9".into(),
            Some([10, 0, 0, 9]),
            7,
            "elena".into(),
            "prakt".into(),
            Duplex::new(input),
        )
        .unwrap()
    };
    let mut denied = greeting_bytes();
    denied.extend_from_slice(&[0, 0, 0, 6]);
    assert!(matches!(begin(denied).advance(), Opening::Done(Err(Error::Auth))));
    let mut other = greeting_bytes();
    other.extend_from_slice(&[0, 0, 0, 4]);
    assert!(matches!(begin(other).advance(), Opening::Done(Err(Error::UnexpectedPkg))));
    assert!(matches!(begin(vec![0, 0, 0, 4]).advance(), Opening::Done(Err(Error::UnexpectedPkg))));
    assert!(matches!(begin(error_bytes()).advance(), Opening::Done(Err(Error::Server(_)))));
    // a greeting whose message is not UTF-8
    let invalid = vec![0, 0, 0, 0, 1, 0, 0, 0, 0, 0, 0, 0, 1, 0xFF];
    assert!(matches!(begin(invalid).advance(), Opening::Done(Err(Error::Bincode(_)))));
}

#[test]
fn commands_are_sent_first_and_answered_later() {
    let mut conn = connect(&[0, 0, 0, 7]).unwrap();
    conn.take_output();
    conn.send(Command::Ping).unwrap();
    assert_eq!(conn.take_output(), vec![0, 0, 0, 2, 0, 0, 0, 0]);
    assert!(matches!(conn.poll(PkgType::Okay), Poll::Pending(_)));
    conn.feed(&[0, 0, 0]);
    assert!(matches!(conn.poll(PkgType::Okay), Poll::Pending(_)));
    conn.feed(&[4]);
    assert!(matches!(conn.poll(PkgType::Okay), Poll::Ready(Ok(()))));
    assert_eq!(conn.take_output(), Vec::<u8>::new());

    conn.send(Command::Query("select".into())).unwrap();
    assert_eq!(conn.take_output().len(), 22);
    let mut answer = vec![0, 0, 0, 5];
    result_set().encode_into(&mut answer).unwrap();
    for byte in &answer[..answer.len() - 1] {
        assert!(matches!(conn.poll_result(), Poll::Pending(_)));
        conn.feed(&[*byte]);
    }
    assert!(matches!(conn.poll_result(), Poll::Pending(_)));
    conn.feed(&answer[answer.len() - 1..]);
    match conn.poll_result() {
        Poll::Ready(Ok(mut set)) => {
            assert_eq!(set.get_col_cnt(), 2);
            assert!(set.next());
            assert_eq!(set.next_int_by_idx(0), Some(7));
        }
        _ => panic!("the result has arrived"),
    }
    // nothing is left on the stream
    assert!(matches!(conn.poll(PkgType::Okay), Poll::Pending(_)));
}

#[test]
fn polling_reads_every_answer_but_an_incomplete_one() {
    let mut stream = ByteReader::new(vec![0, 0, 0, 4, 9]);
    assert!(matches!(poll(&mut stream, PkgType::Response), Poll::Ready(Err(Error::UnexpectedPkg))));
    assert_eq!(stream.rest(), &[9]);
    let mut stream = ByteReader::new(error_bytes());
    assert!(matches!(poll_rows(&mut stream), Poll::Ready(Err(Error::Server(_)))));
    assert!(stream.is_empty());
    let mut stream = ByteReader::new(vec![0, 0, 0, 4, 9]);
    assert!(matches!(poll_rows(&mut stream), Poll::Ready(Err(Error::UnexpectedPkg))));
    assert_eq!(stream.rest(), &[9]);
    // a result whose column has a type that does not exist stays on the stream
    let mut bytes = vec![0, 0, 0, 5];
    result_set().encode_into(&mut bytes).unwrap();
    bytes[4 + 8 + 14 + 8 + 10 + 3] = 9;
    let mut stream = ByteReader::new(bytes.clone());
    assert!(matches!(poll_rows(&mut stream), Poll::Ready(Err(Error::Bincode(_)))));
    assert_eq!(stream.len(), bytes.len());
    let mut stream = ByteReader::new(vec![0, 0, 0, 5, 0]);
    assert!(matches!(poll_rows(&mut stream), Poll::Pending(_)));
    assert_eq!(stream.len(), 5);
}

#[test]
fn errors_from_their_sources() {
    let io: Error = std::io::Error::new(std::io::ErrorKind::Other, "x").into();
    match io {
        Error::Io(e) => assert_eq!(e.to_string(), "x"),
        _ => panic!("a failure of the connection"),
    }
    let broken = match PkgType::decode(&[]) {
        Err(uosql::net::Error::Bincode(e)) => e,
        _ => panic!("nothing to decode"),
    };
    let text = broken.to_string();
    let decoder: Error = broken.into();
    match decoder {
        Error::Bincode(e) => assert_eq!(e.to_string(), text),
        _ => panic!("an error of the decoder"),
    }
}

#[test]
fn bytes_that_are_no_whole_row_are_counted() {
    let ragged = ResultSet { data: vec![1, 0, 0, 0, 0, 7, 1, 1, 2], columns: result_set().columns };
    let set = preprocess(&ragged);
    assert_eq!(set.surplus(), 2);
    let even = preprocess(&result_set());
    assert_eq!(even.surplus(), 0);
    // more columns than a table can have: the columns are kept, there are no rows
    let mut many = Vec::new();
    for _ in 0..=65535 {
        many.push(result_set().columns[1].clone());
    }
    let mut set = preprocess(&ResultSet { data: vec![1, 2, 3], columns: many });
    assert!(!set.metadata_empty());
    assert_eq!(set.get_col_cnt(), 65536);
    assert_eq!(set.get_col_name(65535), Some("ok"));
    assert!(set.data_empty());
    assert!(!set.next());
    assert_eq!(set.next_bool_by_idx(0), None);
    assert_eq!(set.surplus(), 3);
}
