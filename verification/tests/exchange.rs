use nicord::dispatch::process_request;
use nicord::error::ServerError;
use nicord::exchange::{answer, decide, needs, reads, Decision, Documents, Reads, Write};
use nicord::handler::Handler;
use nicord::id::ID;
use nicord::local::{apply, apply_all, read, serve};
use nicord::messages::{Message, Request, RequestType, Response};
use nicord::server_handler::{Block, ServerConfig};
use nicord::server_store::ServerStore;
use nicord::session::{Session, SessionHandler};
use nicord::user::{SensitiveUser, User, UserHandler};

const NOW: u64 = 1_700_000_000;

fn id(text: &str) -> ID {
    ID::new(text.to_string()).unwrap()
}

fn alice() -> ID {
    id("aaaaaaaaaaaaaaaaaaaaaaaa")
}

fn guild() -> ID {
    id("0123456789abcdef01234567")
}

fn fresh() -> ID {
    id("ffffffffffffffffffffffff")
}

fn no_reads() -> Reads {
    Reads {
        session: None,
        user: None,
        users_named: None,
        config: None,
        collections: None,
        open_block: None,
        blocks: None,
    }
}

fn no_documents() -> Documents {
    Documents {
        session: None,
        user: None,
        users_named: Vec::new(),
        config: None,
        collections: Vec::new(),
        open_block: None,
        blocks: Vec::new(),
    }
}

fn alice_doc() -> SensitiveUser {
    SensitiveUser::new(alice(), true, "alice".to_string(), "pw1".to_string(), Vec::new())
}

fn signed_in() -> Documents {
    Documents { session: Some(Session::new(alice(), NOW - 10)), ..no_documents() }
}

fn in_guild() -> Documents {
    Documents {
        config: Some(ServerConfig::new("g1".to_string(), alice())),
        collections: vec!["general".to_string(), "config".to_string(), "random".to_string()],
        ..signed_in()
    }
}

fn with_cookie(tp: RequestType) -> Request {
    Request::new(tp, Some(alice()))
}

fn refused(error: ServerError) -> Decision {
    Decision { response: Response::Error(error), writes: Vec::new() }
}

fn block_of(count: usize, now: u64) -> Block {
    let mut block = Block::new(now);
    for i in 0..count {
        assert!(block.add_message(Message::new(format!("m{}", i), "bob".to_string())));
    }
    block
}

#[test]
fn reads_of_requests_without_cookie() {
    assert_eq!(reads(&Request::new(RequestType::Ping("hello".to_string()), None), &fresh()), no_reads());
    assert_eq!(
        reads(
            &Request::new(RequestType::SignUp("alice".to_string(), "pw1".to_string()), None),
            &fresh()
        ),
        Reads {
            session: Some(fresh()),
            user: Some(fresh()),
            users_named: Some("alice".to_string()),
            ..no_reads()
        }
    );
    assert_eq!(
        reads(
            &Request::new(
                RequestType::SignIn("alice".to_string(), "pw1".to_string(), alice()),
                None
            ),
            &fresh()
        ),
        Reads { session: Some(alice()), user: Some(alice()), ..no_reads() }
    );
    assert_eq!(
        reads(
            &Request::new(
                RequestType::SignIn(
                    "alice".to_string(),
                    "pw1".to_string(),
                    ID { id: "3524dfe290c".to_string() }
                ),
                None
            ),
            &fresh()
        ),
        no_reads()
    );
    assert_eq!(reads(&Request::new(RequestType::GetChannels(guild()), None), &fresh()), no_reads());
    assert_eq!(needs(&None, &fresh()), no_reads());
}

#[test]
fn reads_of_requests_with_cookie() {
    let gated = Reads { session: Some(alice()), ..no_reads() };
    let general = "general".to_string();
    assert_eq!(reads(&with_cookie(RequestType::SignOut()), &fresh()), gated);
    assert_eq!(
        reads(&with_cookie(RequestType::NewServer("g1".to_string())), &fresh()),
        Reads { session: Some(alice()), config: Some(fresh()), ..no_reads() }
    );
    assert_eq!(
        reads(&with_cookie(RequestType::DeleteServer(guild())), &fresh()),
        Reads { session: Some(alice()), config: Some(guild()), ..no_reads() }
    );
    let listing = Reads {
        session: Some(alice()),
        config: Some(guild()),
        collections: Some(guild()),
        ..no_reads()
    };
    assert_eq!(reads(&with_cookie(RequestType::NewChannel(guild(), general.clone())), &fresh()), listing);
    assert_eq!(
        reads(&with_cookie(RequestType::DeleteChannel(guild(), general.clone())), &fresh()),
        listing
    );
    assert_eq!(reads(&with_cookie(RequestType::GetChannels(guild())), &fresh()), listing);
    assert_eq!(
        reads(
            &with_cookie(RequestType::SendMessage(guild(), general.clone(), "hi".to_string())),
            &fresh()
        ),
        Reads {
            session: Some(alice()),
            user: Some(alice()),
            config: Some(guild()),
            collections: Some(guild()),
            open_block: Some((guild(), general.clone())),
            ..no_reads()
        }
    );
    assert_eq!(
        reads(&with_cookie(RequestType::GetMessages(guild(), general.clone(), 3)), &fresh()),
        Reads {
            session: Some(alice()),
            config: Some(guild()),
            blocks: Some((guild(), general.clone())),
            ..no_reads()
        }
    );
    let bad = ID { id: "0123456789ABCDEF01234567".to_string() };
    assert_eq!(reads(&with_cookie(RequestType::GetChannels(bad.clone())), &fresh()), gated);
    assert_eq!(
        reads(&Request::new(RequestType::GetChannels(guild()), Some(bad.clone())), &fresh()),
        no_reads()
    );
    assert_eq!(
        reads(&with_cookie(RequestType::NewServer("g1".to_string())), &bad),
        gated
    );
}

#[test]
fn decide_ping_and_unreadable() {
    assert_eq!(
        decide(Request::new(RequestType::Ping("hello".to_string()), None), no_documents(), NOW, fresh()),
        Decision { response: Response::Pong("hello".to_string()), writes: Vec::new() }
    );
    assert_eq!(answer(None, no_documents(), NOW, fresh()), refused(ServerError::BadRequest));
    assert_eq!(
        answer(
            Some(Request::new(RequestType::Ping("hello".to_string()), None)),
            no_documents(),
            NOW,
            fresh()
        ),
        Decision { response: Response::Pong("hello".to_string()), writes: Vec::new() }
    );
}

#[test]
fn decide_sign_up() {
    let request = || Request::new(RequestType::SignUp("alice".to_string(), "pw1".to_string()), None);
    let created = SensitiveUser::new(fresh(), true, "alice".to_string(), "pw1".to_string(), Vec::new());
    assert_eq!(
        decide(request(), no_documents(), NOW, fresh()),
        Decision {
            response: Response::SessionCreated(fresh()),
            writes: vec![
                Write::InsertUser(created.clone()),
                Write::InsertSession(Session::new(fresh(), NOW)),
            ],
        }
    );
    assert_eq!(
        decide(
            request(),
            Documents { session: Some(Session::new(fresh(), NOW - 601)), ..no_documents() },
            NOW,
            fresh()
        ),
        Decision {
            response: Response::SessionCreated(fresh()),
            writes: vec![
                Write::InsertUser(created.clone()),
                Write::DeleteSession(fresh()),
                Write::InsertSession(Session::new(fresh(), NOW)),
            ],
        }
    );
    assert_eq!(
        decide(
            request(),
            Documents { session: Some(Session::new(fresh(), NOW - 600)), ..no_documents() },
            NOW,
            fresh()
        ),
        Decision {
            response: Response::SessionCreated(fresh()),
            writes: vec![Write::InsertUser(created.clone())],
        }
    );
    assert_eq!(
        decide(
            request(),
            Documents {
                users_named: vec![User::new("alice".to_string(), false, Vec::new())],
                ..no_documents()
            },
            NOW,
            fresh()
        ),
        refused(ServerError::BadRequest)
    );
    assert_eq!(
        decide(request(), Documents { user: Some(alice_doc()), ..no_documents() }, NOW, fresh()),
        refused(ServerError::InternalServerError)
    );
    assert_eq!(
        decide(request(), no_documents(), NOW, ID { id: "x".to_string() }),
        refused(ServerError::InternalServerError)
    );
}

#[test]
fn decide_sign_in() {
    let request = |password: &str, id: ID| {
        Request::new(RequestType::SignIn("alice".to_string(), password.to_string(), id), None)
    };
    let found = || Documents { user: Some(alice_doc()), ..no_documents() };
    assert_eq!(
        decide(request("pw1", alice()), found(), NOW, fresh()),
        Decision {
            response: Response::Success,
            writes: vec![
                Write::SetUserStatus(alice(), true),
                Write::InsertSession(Session::new(alice(), NOW)),
            ],
        }
    );
    assert_eq!(
        decide(
            request("pw1", alice()),
            Documents { session: Some(Session::new(alice(), NOW - 5)), ..found() },
            NOW,
            fresh()
        ),
        Decision { response: Response::Success, writes: vec![Write::SetUserStatus(alice(), true)] }
    );
    assert_eq!(
        decide(request("wrong", alice()), found(), NOW, fresh()),
        refused(ServerError::InvalidCredentials)
    );
    assert_eq!(
        decide(request("pw1", alice()), no_documents(), NOW, fresh()),
        refused(ServerError::InvalidCredentials)
    );
    assert_eq!(
        decide(request("pw1", ID { id: "3524dfe290c".to_string() }), found(), NOW, fresh()),
        refused(ServerError::BadRequest)
    );
}

fn cookie_requests() -> Vec<RequestType> {
    vec![
        RequestType::SignOut(),
        RequestType::NewServer("g".to_string()),
        RequestType::DeleteServer(guild()),
        RequestType::NewChannel(guild(), "c".to_string()),
        RequestType::DeleteChannel(guild(), "c".to_string()),
        RequestType::GetChannels(guild()),
        RequestType::SendMessage(guild(), "c".to_string(), "hi".to_string()),
        RequestType::GetMessages(guild(), "c".to_string(), 0),
    ]
}

#[test]
fn decide_stops_at_the_cookie() {
    for tp in cookie_requests() {
        let expected = match tp {
            RequestType::SignOut() => ServerError::BadRequest,
            _ => ServerError::PermissionDenied,
        };
        assert_eq!(decide(Request::new(tp, None), in_guild(), NOW, fresh()), refused(expected));
    }
    for tp in cookie_requests() {
        assert_eq!(
            decide(with_cookie(tp), no_documents(), NOW, fresh()),
            refused(ServerError::BadRequest)
        );
    }
    for tp in cookie_requests() {
        assert_eq!(
            decide(
                Request::new(tp, Some(ID { id: "3524dfe290c".to_string() })),
                in_guild(),
                NOW,
                fresh()
            ),
            refused(ServerError::BadRequest)
        );
    }
    for tp in cookie_requests() {
        assert_eq!(
            decide(
                with_cookie(tp),
                Documents { session: Some(Session::new(alice(), NOW - 601)), ..in_guild() },
                NOW,
                fresh()
            ),
            Decision {
                response: Response::Error(ServerError::SessionExpired),
                writes: vec![Write::DeleteSession(alice())],
            }
        );
    }
}

#[test]
fn decide_sign_out_and_guilds() {
    assert_eq!(
        decide(with_cookie(RequestType::SignOut()), signed_in(), NOW, fresh()),
        Decision {
            response: Response::Success,
            writes: vec![Write::DeleteSession(alice()), Write::SetUserStatus(alice(), false)],
        }
    );
    assert_eq!(
        decide(with_cookie(RequestType::NewServer("g1".to_string())), signed_in(), NOW, fresh()),
        Decision {
            response: Response::ServerCreated(fresh()),
            writes: vec![Write::InsertConfig(fresh(), ServerConfig::new("g1".to_string(), alice()))],
        }
    );
    assert_eq!(
        decide(with_cookie(RequestType::NewServer("g1".to_string())), in_guild(), NOW, fresh()),
        refused(ServerError::InternalServerError)
    );
    assert_eq!(
        decide(with_cookie(RequestType::DeleteServer(guild())), in_guild(), NOW, fresh()),
        Decision { response: Response::Success, writes: vec![Write::DropDatabase(guild())] }
    );
    assert_eq!(
        decide(with_cookie(RequestType::DeleteServer(guild())), signed_in(), NOW, fresh()),
        refused(ServerError::BadRequest)
    );
    let foreign = Documents {
        config: Some(ServerConfig::new("g1".to_string(), fresh())),
        ..in_guild()
    };
    assert_eq!(
        decide(with_cookie(RequestType::DeleteServer(guild())), foreign, NOW, fresh()),
        refused(ServerError::PermissionDenied)
    );
}

#[test]
fn decide_channels() {
    let new_channel = |name: &str| with_cookie(RequestType::NewChannel(guild(), name.to_string()));
    let delete_channel =
        |name: &str| with_cookie(RequestType::DeleteChannel(guild(), name.to_string()));
    let mut opening = Block::new(NOW);
    opening.add_message(Message::new("channel created...".to_string(), "SERVER".to_string()));
    assert_eq!(
        decide(new_channel("news"), in_guild(), NOW, fresh()),
        Decision {
            response: Response::Success,
            writes: vec![Write::InsertBlock(guild(), "news".to_string(), opening)],
        }
    );
    assert_eq!(decide(new_channel("general"), in_guild(), NOW, fresh()), refused(ServerError::BadRequest));
    assert_eq!(decide(new_channel("config"), in_guild(), NOW, fresh()), refused(ServerError::BadRequest));
    assert_eq!(
        decide(delete_channel("general"), in_guild(), NOW, fresh()),
        Decision {
            response: Response::Success,
            writes: vec![Write::DropCollection(guild(), "general".to_string())],
        }
    );
    assert_eq!(decide(delete_channel("news"), in_guild(), NOW, fresh()), refused(ServerError::BadRequest));
    assert_eq!(decide(delete_channel("config"), in_guild(), NOW, fresh()), refused(ServerError::BadRequest));
    assert_eq!(
        decide(with_cookie(RequestType::GetChannels(guild())), in_guild(), NOW, fresh()),
        Decision {
            response: Response::ChannelList(vec!["general".to_string(), "random".to_string()]),
            writes: Vec::new(),
        }
    );
    let foreign = || Documents {
        config: Some(ServerConfig::new("g1".to_string(), fresh())),
        ..in_guild()
    };
    assert_eq!(decide(new_channel("news"), foreign(), NOW, fresh()), refused(ServerError::PermissionDenied));
    assert_eq!(
        decide(delete_channel("general"), foreign(), NOW, fresh()),
        refused(ServerError::PermissionDenied)
    );
    assert_eq!(
        decide(with_cookie(RequestType::GetChannels(guild())), foreign(), NOW, fresh()),
        refused(ServerError::PermissionDenied)
    );
    assert_eq!(
        decide(
            with_cookie(RequestType::GetChannels(ID { id: "x".to_string() })),
            in_guild(),
            NOW,
            fresh()
        ),
        refused(ServerError::BadRequest)
    );
}

#[test]
fn decide_posts() {
    let post = || with_cookie(RequestType::SendMessage(guild(), "general".to_string(), "hi".to_string()));
    let posting = || Documents { user: Some(alice_doc()), ..in_guild() };
    let hi = || Message::new("hi".to_string(), "alice".to_string());

    let mut first = Block::new(NOW);
    first.add_message(hi());
    assert_eq!(
        decide(post(), posting(), NOW, fresh()),
        Decision {
            response: Response::Success,
            writes: vec![Write::InsertBlock(guild(), "general".to_string(), first)],
        }
    );

    let mut grown = block_of(3, NOW - 100);
    grown.add_message(hi());
    assert_eq!(
        decide(post(), Documents { open_block: Some(block_of(3, NOW - 100)), ..posting() }, NOW, fresh()),
        Decision {
            response: Response::Success,
            writes: vec![Write::ReplaceOpenBlock(guild(), "general".to_string(), grown)],
        }
    );

    let mut filled = block_of(49, NOW - 100);
    filled.add_message(hi());
    assert!(filled.is_filled());
    assert_eq!(
        decide(post(), Documents { open_block: Some(block_of(49, NOW - 100)), ..posting() }, NOW, fresh()),
        Decision {
            response: Response::Success,
            writes: vec![Write::ReplaceOpenBlock(guild(), "general".to_string(), filled)],
        }
    );

    let unmarked = Block::from_parts(block_of(50, NOW).messages(), NOW, false);
    assert_eq!(
        decide(post(), Documents { open_block: Some(unmarked), ..posting() }, NOW, fresh()),
        refused(ServerError::InternalServerError)
    );
    assert_eq!(decide(post(), in_guild(), NOW, fresh()), refused(ServerError::InternalServerError));
    assert_eq!(
        decide(
            with_cookie(RequestType::SendMessage(guild(), "news".to_string(), "hi".to_string())),
            posting(),
            NOW,
            fresh()
        ),
        refused(ServerError::BadRequest)
    );
    assert_eq!(
        decide(
            with_cookie(RequestType::SendMessage(guild(), "config".to_string(), "hi".to_string())),
            posting(),
            NOW,
            fresh()
        ),
        refused(ServerError::BadRequest)
    );
    assert_eq!(
        decide(
            post(),
            Documents { config: Some(ServerConfig::new("g1".to_string(), fresh())), ..posting() },
            NOW,
            fresh()
        ),
        refused(ServerError::PermissionDenied)
    );
}

#[test]
fn decide_blocks() {
    let get = |block: u32| with_cookie(RequestType::GetMessages(guild(), "general".to_string(), block));
    let reading = || Documents { blocks: vec![block_of(50, NOW), block_of(2, NOW + 1)], ..in_guild() };
    assert_eq!(
        decide(get(0), reading(), NOW, fresh()),
        Decision { response: Response::MessagesFound(block_of(50, NOW).messages()), writes: Vec::new() }
    );
    assert_eq!(
        decide(get(1), reading(), NOW, fresh()),
        Decision { response: Response::MessagesFound(block_of(2, NOW).messages()), writes: Vec::new() }
    );
    assert_eq!(
        decide(get(2), reading(), NOW, fresh()),
        Decision { response: Response::EndOfChannel, writes: Vec::new() }
    );
    assert_eq!(
        decide(get(0), in_guild(), NOW, fresh()),
        Decision { response: Response::EndOfChannel, writes: Vec::new() }
    );
}

struct Pair {
    by_handlers: (ServerStore, Handler),
    by_exchange: (ServerStore, Handler),
    minted: u64,
}

impl Pair {
    fn new() -> Pair {
        let handler = || {
            Handler::new(
                SessionHandler::from_names("SESSIONS", "sessions"),
                UserHandler::from_names("USERS", "users"),
            )
        };
        Pair {
            by_handlers: (ServerStore::new(), handler()),
            by_exchange: (ServerStore::new(), handler()),
            minted: 0,
        }
    }

    fn ask(&mut self, tp: RequestType, cookie: Option<&ID>, now: u64) -> Response {
        self.minted += 1;
        let new_id = || id(&format!("{:024x}", self.minted));
        let direct = process_request(
            &mut self.by_handlers.0,
            Request::new(tp.clone(), cookie.cloned()),
            &mut self.by_handlers.1,
            now,
            new_id(),
        );
        let served = serve(
            &mut self.by_exchange.0,
            Request::new(tp, cookie.cloned()),
            &mut self.by_exchange.1,
            now,
            new_id(),
        );
        assert_eq!(direct, served);
        served
    }
}

#[test]
fn serve_answers_as_the_handlers_do() {
    let mut pair = Pair::new();
    let general = "general".to_string();
    let id_a = match pair.ask(RequestType::SignUp("alice".to_string(), "pw1".to_string()), None, NOW) {
        Response::SessionCreated(id) => id,
        other => panic!("unexpected enum variant: {:?}", other),
    };
    let id_b = match pair.ask(RequestType::SignUp("bob".to_string(), "pw2".to_string()), None, NOW) {
        Response::SessionCreated(id) => id,
        other => panic!("unexpected enum variant: {:?}", other),
    };
    assert_eq!(
        pair.ask(RequestType::SignUp("alice".to_string(), "pw3".to_string()), None, NOW),
        Response::Error(ServerError::BadRequest)
    );
    let id_g = match pair.ask(RequestType::NewServer("g1".to_string()), Some(&id_a), NOW) {
        Response::ServerCreated(id) => id,
        other => panic!("unexpected enum variant: {:?}", other),
    };
    assert_eq!(pair.ask(RequestType::NewChannel(id_g.clone(), general.clone()), Some(&id_a), NOW), Response::Success);
    assert_eq!(
        pair.ask(RequestType::NewChannel(id_g.clone(), general.clone()), Some(&id_a), NOW),
        Response::Error(ServerError::BadRequest)
    );
    assert_eq!(
        pair.ask(RequestType::NewChannel(id_g.clone(), "other".to_string()), Some(&id_b), NOW),
        Response::Error(ServerError::PermissionDenied)
    );
    for i in 0..120 {
        assert_eq!(
            pair.ask(
                RequestType::SendMessage(id_g.clone(), general.clone(), format!("message {}", i)),
                Some(&id_a),
                NOW + i
            ),
            Response::Success
        );
    }
    for block in 0..4 {
        let found = pair.ask(RequestType::GetMessages(id_g.clone(), general.clone(), block), Some(&id_a), NOW + 200);
        match (block, found) {
            (0, Response::MessagesFound(messages)) => {
                assert_eq!(messages.len(), 50);
                assert_eq!(messages[0].author, "SERVER");
                assert_eq!(messages[49], Message::new("message 48".to_string(), "alice".to_string()));
            }
            (1, Response::MessagesFound(messages)) => assert_eq!(messages.len(), 50),
            (2, Response::MessagesFound(messages)) => {
                assert_eq!(messages.len(), 21);
                assert_eq!(messages[20].content, "message 119");
            }
            (3, Response::EndOfChannel) => {}
            (block, other) => panic!("block {}: unexpected enum variant: {:?}", block, other),
        }
    }
    assert_eq!(
        pair.ask(RequestType::GetChannels(id_g.clone()), Some(&id_a), NOW + 200),
        Response::ChannelList(vec![general.clone()])
    );
    assert_eq!(
        pair.ask(RequestType::SignIn("bob".to_string(), "pw2".to_string(), id_b.clone()), None, NOW + 700),
        Response::Success
    );
    assert_eq!(
        pair.ask(RequestType::GetChannels(id_g.clone()), Some(&id_a), NOW + 700),
        Response::Error(ServerError::SessionExpired)
    );
    assert_eq!(
        pair.ask(RequestType::GetChannels(id_g.clone()), Some(&id_a), NOW + 700),
        Response::Error(ServerError::BadRequest)
    );
    assert_eq!(
        pair.ask(RequestType::SignIn("alice".to_string(), "pw1".to_string(), id_a.clone()), None, NOW + 700),
        Response::Success
    );
    assert_eq!(
        pair.ask(RequestType::DeleteChannel(id_g.clone(), general.clone()), Some(&id_a), NOW + 700),
        Response::Success
    );
    assert_eq!(pair.ask(RequestType::SignOut(), Some(&id_b), NOW + 700), Response::Success);
    assert_eq!(pair.ask(RequestType::SignOut(), Some(&id_b), NOW + 700), Response::Error(ServerError::BadRequest));
    assert_eq!(pair.ask(RequestType::DeleteServer(id_g.clone()), Some(&id_a), NOW + 700), Response::Success);
    assert_eq!(
        pair.ask(RequestType::GetChannels(id_g.clone()), Some(&id_a), NOW + 700),
        Response::Error(ServerError::BadRequest)
    );
    let by_handlers = &pair.by_handlers.1;
    let by_exchange = &pair.by_exchange.1;
    for user in [&id_a, &id_b] {
        assert_eq!(
            by_handlers.user_handler.get_user_sensitive(user),
            by_exchange.user_handler.get_user_sensitive(user)
        );
        assert_eq!(
            by_handlers.session_handler.find_one(user),
            by_exchange.session_handler.find_one(user)
        );
    }
    assert!(by_exchange.session_handler.find_one(&id_a).is_some());
    assert!(by_exchange.session_handler.find_one(&id_b).is_none());
    assert!(!by_exchange.user_handler.get_user(&id_b).unwrap().is_online);
}

#[test]
fn stores_at_hand_answer_and_change() {
    let mut store = ServerStore::new();
    let mut handler = Handler::new(
        SessionHandler::from_names("SESSIONS", "sessions"),
        UserHandler::from_names("USERS", "users"),
    );
    let general = "general".to_string();
    apply_all(
        &mut store,
        &mut handler,
        vec![
            Write::InsertUser(alice_doc()),
            Write::InsertSession(Session::new(alice(), NOW)),
            Write::InsertConfig(guild(), ServerConfig::new("g1".to_string(), alice())),
            Write::InsertBlock(guild(), general.clone(), block_of(2, NOW)),
        ],
    );
    let everything = Reads {
        session: Some(alice()),
        user: Some(alice()),
        users_named: Some("alice".to_string()),
        config: Some(guild()),
        collections: Some(guild()),
        open_block: Some((guild(), general.clone())),
        blocks: Some((guild(), general.clone())),
    };
    assert_eq!(
        read(&store, &handler, &everything),
        Documents {
            session: Some(Session::new(alice(), NOW)),
            user: Some(alice_doc()),
            users_named: vec![User::new("alice".to_string(), true, Vec::new())],
            config: Some(ServerConfig::new("g1".to_string(), alice())),
            collections: vec!["config".to_string(), general.clone()],
            open_block: Some(block_of(2, NOW)),
            blocks: vec![block_of(2, NOW)],
        }
    );
    assert_eq!(read(&store, &handler, &no_reads()), no_documents());

    apply(&mut store, &mut handler, Write::InsertSession(Session::new(alice(), NOW + 5)));
    apply(&mut store, &mut handler, Write::InsertUser(alice_doc()));
    apply(&mut store, &mut handler, Write::InsertBlock(guild(), general.clone(), block_of(1, NOW)));
    apply(&mut store, &mut handler, Write::InsertConfig(guild(), ServerConfig::new("g2".to_string(), fresh())));
    apply(&mut store, &mut handler, Write::SetUserStatus(alice(), false));
    apply(&mut store, &mut handler, Write::ReplaceOpenBlock(guild(), general.clone(), block_of(50, NOW + 1)));
    let mut offline = alice_doc();
    offline.is_online = false;
    assert_eq!(
        read(&store, &handler, &everything),
        Documents {
            session: Some(Session::new(alice(), NOW)),
            user: Some(offline),
            users_named: vec![User::new("alice".to_string(), false, Vec::new())],
            config: Some(ServerConfig::new("g1".to_string(), alice())),
            collections: vec!["config".to_string(), general.clone()],
            open_block: None,
            blocks: vec![block_of(50, NOW + 1)],
        }
    );
    apply(&mut store, &mut handler, Write::DeleteSession(alice()));
    apply(&mut store, &mut handler, Write::DropCollection(guild(), general.clone()));
    assert_eq!(
        read(&store, &handler, &everything).collections,
        vec!["config".to_string()]
    );
    assert!(read(&store, &handler, &everything).session.is_none());
    apply(&mut store, &mut handler, Write::DropDatabase(guild()));
    assert!(read(&store, &handler, &everything).config.is_none());
    assert!(read(&store, &handler, &everything).collections.is_empty());
}
