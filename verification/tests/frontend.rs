use risdb::database::{generate_args, ArgsError, NodeArgs};
use risdb::deploy::local::{start_local_test, ServerArgs, HELLOWORLD_SERVER};
use risdb::frontend::client::{
    parse_keys, parse_values, BaseUri, ClientBuilder, ClientBuilderError, Endpoints, ParsedUri,
    RisDbClient,
};
use risdb::frontend::gateway::{
    client, get_input, get_response, loopback_uri, put_input, put_response,
};
use risdb::frontend::server::{
    accept_body, handle, not_found, payload_too_large, respond, serve_request, Logger, Reply,
    ReplyBody, Route,
};
use risdb::messages::{GetRequest, GetValueOutput, PutRequest, Value};
use risdb::text::{joined, decimal, join, same, split};

fn uri(text: &str) -> BaseUri {
    BaseUri::parse(text).unwrap()
}

fn missing(result: Result<Endpoints, ClientBuilderError>) -> String {
    match result {
        Err(ClientBuilderError::MissingBaseUri(text)) => text,
        other => panic!("unexpected result: {:?}", other),
    }
}

#[test]
fn uris_are_taken_apart() {
    let parsed = uri("https://localhost:3000");
    assert_eq!(parsed.scheme, Some("https".to_owned()));
    assert_eq!(parsed.authority, Some("localhost:3000".to_owned()));
    assert_eq!(parsed.path_and_query, Some("/".to_owned()));
    let relative = uri("/a?b=c");
    assert_eq!(relative.scheme, None);
    assert_eq!(relative.authority, None);
    assert_eq!(relative.path_and_query, Some("/a?b=c".to_owned()));
    assert!(BaseUri::parse("").is_err());
    assert!(BaseUri::parse("http://a b").is_err());
}

#[test]
fn endpoints_lie_under_the_base_uri() {
    let endpoints = Endpoints::initialize(Some(uri("HTTPS://[::1]:3000/"))).unwrap();
    assert_eq!(endpoints.authority, "[::1]:3000");
    assert_eq!(endpoints.get_uri, "https://[::1]:3000/get");
    assert_eq!(endpoints.put_uri, "https://[::1]:3000/put");
}

#[test]
fn base_uris_are_checked() {
    assert_eq!(missing(Endpoints::initialize(None)), "Required to provide a Base URI");
    assert_eq!(
        missing(Endpoints::initialize(Some(uri("https://localhost/a")))),
        "Provided Base URI can not have a path and query section"
    );
    assert_eq!(
        missing(Endpoints::initialize(Some(uri("/")))),
        "Provided Base URI has no Authority"
    );
    assert_eq!(
        missing(Endpoints::initialize(Some(uri("localhost:3000")))),
        "Provided Base URI must have a scheme"
    );
    let parsed = ParsedUri::parse_base_uri(uri("ftp+x://user@host")).unwrap();
    assert_eq!(parsed.scheme, "ftp+x");
    assert_eq!(parsed.authority, "user@host");
}

#[test]
fn parts_that_do_not_fit_are_rejected() {
    let made_up = BaseUri {
        scheme: Some("not a scheme".to_owned()),
        authority: Some("host".to_owned()),
        path_and_query: None,
    };
    assert!(matches!(
        Endpoints::initialize(Some(made_up)),
        Err(ClientBuilderError::InvalidActionUri(_))
    ));
}

#[test]
fn clients_need_a_certificate_first() {
    let nothing: ClientBuilder<u8> = ClientBuilder::new();
    assert!(matches!(nothing.build(), Err(ClientBuilderError::MissingRootCertPath)));
    let (path, base) = ClientBuilder::new()
        .with_base_uri(uri("https://localhost:3000"))
        .with_root_cert_path(7u8)
        .build()
        .unwrap();
    assert_eq!(path, 7);
    assert_eq!(base.unwrap().authority, Some("localhost:3000".to_owned()));
}

#[test]
fn requests_are_posted_under_new_identifiers() {
    let client = RisDbClient::new(Some(uri("https://localhost:3000"))).unwrap();
    let (head, get) = client.get(vec!["key".to_owned()]);
    assert_eq!(head.method, "POST");
    assert_eq!(head.uri, "https://localhost:3000/get");
    assert_eq!(head.host, "localhost:3000");
    assert_eq!(get.keys, vec!["key".to_owned()]);
    assert_eq!(get.request_id.len(), 36);
    assert_eq!(get.request_id.chars().nth(14), Some('4'));
    assert_eq!(get.request_id.chars().filter(|c| *c == '-').count(), 4);

    let values = vec![Value { key: "a".to_owned(), value: "b".to_owned() }];
    let (head, put) = client.put(values);
    assert_eq!(head.uri, "https://localhost:3000/put");
    assert_eq!(put.values[0].value, "b");
    assert_ne!(put.request_id, get.request_id);
}

#[test]
fn keys_and_values_are_read() {
    assert_eq!(parse_keys("a,b"), vec!["a".to_owned(), "b".to_owned()]);
    assert_eq!(parse_keys(""), vec!["".to_owned()]);
    let values = parse_values("a;1,b;2;3,;").unwrap();
    let pairs: Vec<(&str, &str)> =
        values.iter().map(|value| (value.key.as_str(), value.value.as_str())).collect();
    assert_eq!(pairs, vec![("a", "1"), ("b", "2;3"), ("", "")]);
    assert!(parse_values("a;1,b").is_none());
}

#[test]
fn requests_are_routed() {
    assert_eq!(serve_request("POST", "/get"), Route::Get);
    assert_eq!(serve_request("POST", "/put"), Route::Put);
    assert_eq!(serve_request("GET", "/get"), Route::NotFound);
    assert_eq!(serve_request("POST", "/get/"), Route::NotFound);
    let reply: Reply<u8> = not_found();
    assert_eq!(reply.status, 404);
    assert!(matches!(reply.body, ReplyBody::Empty));
}

#[test]
fn large_bodies_are_refused() {
    assert!(accept_body(Some(65536)).is_ok());
    assert!(accept_body(Some(65537)).is_err());
    assert!(accept_body(None).is_err());
    let reply: Reply<u8> = payload_too_large();
    assert_eq!(reply.status, 413);
    assert!(matches!(reply.body, ReplyBody::Text(text) if text == "Body too big"));
}

#[test]
fn decoded_requests_are_echoed() {
    let reply = respond(Ok::<u8, String>(7));
    assert_eq!(reply.status, 200);
    assert!(matches!(reply.body, ReplyBody::Message(7)));
    let reply = respond(Err::<u8, String>("oops".to_owned()));
    assert_eq!(reply.status, 400);
    assert!(
        matches!(reply.body, ReplyBody::Text(text) if text == "Failed to decode the provided input: oops")
    );
    assert_eq!(handle("x"), "x");
}

#[test]
fn loggers_keep_their_service() {
    assert_eq!(Logger::new(5).inner, 5);
    assert_eq!(Logger::<u8>::entry("POST", "/get"), "processing request: POST /get");
}

#[test]
fn requests_pass_through_the_gateway() {
    assert_eq!(loopback_uri(50051), "http://[::1]:50051");
    assert_eq!(client(Some(4)).ok(), Some(4));
    assert_eq!(client::<u8>(None).err(), Some("No Raft client initialized".to_owned()));
    let input = put_input(PutRequest {
        request_id: "1".to_owned(),
        values: vec![Value { key: "k".to_owned(), value: "v".to_owned() }],
    });
    assert_eq!(input.request_id, "1");
    assert_eq!(input.values[0].key, "k");
    assert!(put_response("1".to_owned()).success);
    let input = get_input(GetRequest { request_id: "2".to_owned(), keys: vec!["k".to_owned()] });
    assert_eq!(input.keys, vec!["k".to_owned()]);
    let output = GetValueOutput { request_id: "x".to_owned(), values: input_values() };
    let response = get_response("2".to_owned(), output);
    assert_eq!(response.request_id, "2");
    assert!(response.success);
    assert_eq!(response.values[0].value, "v");
}

fn input_values() -> Vec<Value> {
    vec![Value { key: "k".to_owned(), value: "v".to_owned() }]
}

fn args_of(arg: &str) -> Result<NodeArgs<(String, u16)>, ArgsError<String>> {
    generate_args(arg, |text: String| match text.rsplit_once(':') {
        Some((host, port)) => match port.parse::<u16>() {
            Ok(port) => Ok((host.to_owned(), port)),
            Err(_) => Err(format!("{port:?} is no port")),
        },
        None => Err(format!("{text:?} has no port")),
    })
}

#[test]
fn servers_read_the_commands_they_are_started_with() {
    let servers = vec![
        ServerArgs { frontend_port: 5000, raft_port: 50000 },
        ServerArgs { frontend_port: 5001, raft_port: 50001 },
        ServerArgs { frontend_port: 5002, raft_port: 50002 },
    ];
    let commands = start_local_test(&servers);
    assert_eq!(
        commands[1],
        "[::1]:5001,[::1]:50001;http://[::1]:50000;http://[::1]:50002"
    );
    let args = args_of(&commands[1]).unwrap();
    assert_eq!(args.frontend_addr, "[::1]:5001");
    assert_eq!(args.raft_addr, ("[::1]".to_owned(), 50001));
    let peers: Vec<&str> = args.peer_args.iter().map(|peer| peer.addr.as_str()).collect();
    assert_eq!(peers, vec!["http://[::1]:50000", "http://[::1]:50002"]);
    assert_eq!(HELLOWORLD_SERVER, "helloworld-server");
}

#[test]
fn arguments_need_two_addresses() {
    match args_of("a;b,c") {
        Err(ArgsError::Missing(text)) => assert_eq!(text, "Did not have raft addr"),
        other => panic!("unexpected result: {:?}", other),
    }
    let args = args_of("a,127.0.0.1:80,c").unwrap();
    assert_eq!(args.frontend_addr, "a");
    assert_eq!(args.raft_addr, ("127.0.0.1".to_owned(), 80));
    assert!(args.peer_args.is_empty());
    assert_eq!(args_of(",[::1]:1;").unwrap().peer_args[0].addr, "");
}

#[test]
fn the_raft_address_has_to_be_one() {
    for (arg, expected) in [
        ("a,b", "\"b\" has no port"),
        (",;", "\"\" has no port"),
        ("a:1,b:c,d:2;e:3", "\"c\" is no port"),
    ] {
        match args_of(arg) {
            Err(ArgsError::InvalidAddr(error)) => assert_eq!(error, expected),
            other => panic!("unexpected result: {:?}", other),
        }
    }
}

#[test]
fn texts_are_taken_apart_and_joined() {
    assert_eq!(split("a;b;;c", ';'), ["a", "b", "", "c"].map(|part| part.to_owned()).to_vec());
    assert_eq!(split("", ';'), vec!["".to_owned()]);
    assert_eq!(split("\u{e4};\u{df}", ';'), vec!["\u{e4}".to_owned(), "\u{df}".to_owned()]);
    let parts = vec!["a".to_owned(), "".to_owned(), "b".to_owned()];
    assert_eq!(join(&parts, "\n"), "a\n\nb");
    assert_eq!(join(&Vec::new(), "x"), "");
    assert_eq!(decimal(0), "0");
    assert_eq!(decimal(9), "9");
    assert_eq!(decimal(50051), "50051");
    assert_eq!(decimal(u64::MAX), u64::MAX.to_string());
    assert_eq!(joined("a", "b"), "ab");
    assert!(same("a", "a"));
    assert!(!same("a", "A"));
}
