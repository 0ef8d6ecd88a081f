use nicord::error::ServerError;
use nicord::id::ID;
use nicord::messages::{Message, Response};
use nicord::server_handler::{Block, ServerConfig, ServerHandler};
use nicord::server_store::ServerStore;

const NOW: u64 = 1_700_000_000;

fn user() -> ID {
    ID { id: "123123123123123123123123".to_string() }
}

fn other_user() -> ID {
    ID { id: "999999999999999999999999".to_string() }
}

fn starting_block() -> Block {
    let mut block = Block::new(NOW);
    block.add_message(Message::new("starting...".to_string(), "SERVER".to_string()));
    block
}

fn store_with_server(server_id: &ID, name: &str, user_id: &ID) -> ServerStore {
    let mut store = ServerStore::new();
    let conf = ServerConfig::new(name.to_string(), user_id.clone());
    assert!(store.insert_config(server_id.clone(), conf));
    store
}

#[test]
fn test_create_server() {
    let user_id = user();
    let mut store = ServerStore::new();

    let resp = ServerHandler::new_server(
        user_id.clone(),
        &mut store,
        "TEST_SERVER1".to_string(),
        ID::new("0123456789abcdef01234567".to_string()).unwrap(),
    );
    let id = match resp {
        Response::ServerCreated(id) => id,
        other => panic!("got other: {:?}", other),
    };

    let config = store.find_config(&id).unwrap();

    assert!(config.is_admin(&user_id));
    assert!(config.is_user(&user_id));
    assert_eq!(config.name(), "TEST_SERVER1");
    assert_eq!(id.id, "0123456789abcdef01234567");
    assert_eq!(store.list_collection_names(&id), vec!["config".to_string()]);
}

#[test]
fn test_delete_server() {
    let user_id = user();
    let server_id = ID { id: "120129184124124127777154".to_string() };
    let mut store = store_with_server(&server_id, "TEST SERVER2", &user_id);

    let resp = ServerHandler::delete_server(&user_id, &mut store, &server_id);
    assert!(resp.succeeded());
    assert!(store.find_config(&server_id).is_none());
    assert!(!store.contains(&server_id));
    assert!(!store.drop_database(&server_id));
}

#[test]
fn test_create_channel() {
    let user_id = user();
    let server_id = ID { id: "120129184124124127777155".to_string() };
    let mut store = store_with_server(&server_id, "TEST SERVER3", &user_id);

    let resp = ServerHandler::new_channel(
        &user_id,
        &mut store,
        &"TEST_CHANNEL".to_string(),
        &server_id,
        NOW,
    );
    match resp {
        Response::Success => {}
        other => panic!("unexpected enum variant: {:?}", other),
    }

    let blocks = store.find_blocks(&server_id, &"TEST_CHANNEL".to_string());
    assert_eq!(blocks.len(), 1);
    let messages = blocks[0].messages();
    assert_eq!(messages.len(), 1);
    let message = &messages[0];
    assert_eq!(message.content, "channel created...");
    assert_eq!(message.author, "SERVER");
    assert_eq!(blocks[0].time_stamp(), NOW);
    assert!(!blocks[0].is_filled());
}

#[test]
fn test_delete_channel() {
    let user_id = user();
    let server_id = ID { id: "120129184124124127777156".to_string() };
    let mut store = store_with_server(&server_id, "TEST SERVER4", &user_id);

    assert!(store.insert_block(&server_id, &"TEST_CHANNEL".to_string(), starting_block()));

    let mut collections = store.list_collection_names(&server_id);
    assert!(collections.contains(&"TEST_CHANNEL".to_string()));

    assert!(ServerHandler::delete_channel(
        &user_id,
        &mut store,
        &"TEST_CHANNEL".to_string(),
        &server_id
    )
    .succeeded());

    collections = store.list_collection_names(&server_id);
    assert!(!collections.contains(&"TEST_CHANNEL".to_string()));
}

#[test]
fn test_get_channels_one_channel() {
    let user_id = user();
    let server_id = ID { id: "120129184124124127777157".to_string() };
    let mut store = store_with_server(&server_id, "TEST SERVER5", &user_id);

    assert!(store.insert_block(&server_id, &"TEST_CHANNEL".to_string(), starting_block()));

    let channel_response = ServerHandler::get_channels(&store, &server_id, &user_id);
    match channel_response {
        Response::ChannelList(channels) => {
            assert_eq!(channels.len(), 1);
            assert_eq!(channels[0], "TEST_CHANNEL");
        }
        other => {
            panic!("unexpected enum variant: {:?}", other)
        }
    }
}

#[test]
fn test_get_channels_multiple_channels() {
    let user_id = user();
    let server_id = ID { id: "120129184124124127777158".to_string() };
    let mut store = store_with_server(&server_id, "TEST SERVER6", &user_id);

    let block = starting_block();
    assert!(store.insert_block(&server_id, &"TEST_CHANNEL1".to_string(), block.clone()));
    assert!(store.insert_block(&server_id, &"TEST_CHANNEL2".to_string(), block));

    let channel_response = ServerHandler::get_channels(&store, &server_id, &user_id);
    match channel_response {
        Response::ChannelList(channels) => {
            assert_eq!(channels.len(), 2);
            assert!(channels.contains(&"TEST_CHANNEL1".to_string()));
            assert!(channels.contains(&"TEST_CHANNEL2".to_string()));
        }
        other => panic!("unexpected enum variant: {:?}", other),
    }
}

#[test]
fn test_send_message() {
    let user_id = user();
    let server_id = ID { id: "120129184124124127777159".to_string() };
    let mut store = store_with_server(&server_id, "TEST SERVER7", &user_id);

    let mut block = starting_block();
    assert!(store.insert_block(&server_id, &"TEST_CHANNEL1".to_string(), block.clone()));

    let content = "I'm a message".to_string();
    let author = "Some Dude".to_string();
    assert!(ServerHandler::send_message(
        &mut store,
        &server_id,
        &"TEST_CHANNEL1".to_string(),
        &user_id,
        content.clone(),
        author.clone(),
        NOW + 5,
    )
    .succeeded());

    block.add_message(Message::new(content, author));
    let blk: Block = store
        .find_open_block(&server_id, &"TEST_CHANNEL1".to_string())
        .unwrap();
    assert_eq!(blk, block);
}

#[test]
fn block_is_filled_by_its_fiftieth_message() {
    let mut block = Block::new(7);
    assert_eq!(block.len(), 0);
    assert!(!block.is_filled());
    for i in 0..49 {
        assert!(block.add_message(Message::new(format!("m{}", i), "a".to_string())));
        assert!(!block.is_filled());
    }
    assert!(block.add_message(Message::new("m49".to_string(), "a".to_string())));
    assert!(block.is_filled());
    assert_eq!(block.len(), 50);
    assert!(!block.add_message(Message::new("m50".to_string(), "a".to_string())));
    assert_eq!(block.len(), 50);
    assert_eq!(block.messages()[49].content, "m49");
    assert_eq!(block.time_stamp(), 7);
}

#[test]
fn privilege_and_membership_checks() {
    let server_id = ID { id: "120129184124124127777160".to_string() };
    let missing = ID { id: "120129184124124127777161".to_string() };
    let store = store_with_server(&server_id, "G", &user());
    assert_eq!(ServerHandler::check_priviledge(&store, &server_id, &user()), Response::Success);
    assert_eq!(ServerHandler::check_membership(&store, &server_id, &user()), Response::Success);
    assert_eq!(
        ServerHandler::check_priviledge(&store, &server_id, &other_user()),
        Response::Error(ServerError::PermissionDenied)
    );
    assert_eq!(
        ServerHandler::check_membership(&store, &server_id, &other_user()),
        Response::Error(ServerError::PermissionDenied)
    );
    assert_eq!(
        ServerHandler::check_priviledge(&store, &missing, &user()),
        Response::Error(ServerError::BadRequest)
    );
    assert_eq!(
        ServerHandler::check_membership(&store, &missing, &user()),
        Response::Error(ServerError::BadRequest)
    );
}

#[test]
fn new_server_refuses_an_unusable_identifier() {
    let mut store = ServerStore::new();
    let id = ID::new("0123456789abcdef01234567".to_string()).unwrap();
    assert_eq!(
        ServerHandler::new_server(user(), &mut store, "g1".to_string(), id.clone()),
        Response::ServerCreated(id.clone())
    );
    assert_eq!(
        ServerHandler::new_server(other_user(), &mut store, "g2".to_string(), id.clone()),
        Response::Error(ServerError::InternalServerError)
    );
    assert_eq!(
        ServerHandler::new_server(
            user(),
            &mut store,
            "g3".to_string(),
            ID { id: "0123456789ABCDEF01234567".to_string() }
        ),
        Response::Error(ServerError::InternalServerError)
    );
    assert_eq!(ServerHandler::get_server_name_by_id(&store, &id), Some("g1".to_string()));
    assert_eq!(ServerHandler::get_server_name_by_id(&store, &user()), None);
}

#[test]
fn delete_server_needs_an_admin() {
    let server_id = ID { id: "120129184124124127777162".to_string() };
    let mut store = store_with_server(&server_id, "G", &user());
    assert_eq!(
        ServerHandler::delete_server(&other_user(), &mut store, &server_id),
        Response::Error(ServerError::PermissionDenied)
    );
    assert!(store.contains(&server_id));
    assert_eq!(
        ServerHandler::delete_server(&user(), &mut store, &other_user()),
        Response::Error(ServerError::BadRequest)
    );
    assert_eq!(ServerHandler::delete_server(&user(), &mut store, &server_id), Response::Success);
    assert_eq!(
        ServerHandler::delete_server(&user(), &mut store, &server_id),
        Response::Error(ServerError::BadRequest)
    );
}

#[test]
fn channel_created_then_listed_without_config() {
    let server_id = ID { id: "120129184124124127777163".to_string() };
    let mut store = store_with_server(&server_id, "G", &user());
    let name = "general".to_string();
    assert_eq!(
        ServerHandler::new_channel(&user(), &mut store, &name, &server_id, NOW),
        Response::Success
    );
    match ServerHandler::get_channels(&store, &server_id, &user()) {
        Response::ChannelList(channels) => {
            assert!(channels.contains(&name));
            assert!(!channels.contains(&"config".to_string()));
            assert_eq!(channels, vec![name.clone()]);
        }
        other => panic!("unexpected enum variant: {:?}", other),
    }
    assert_eq!(
        ServerHandler::get_channels(&store, &server_id, &other_user()),
        Response::Error(ServerError::PermissionDenied)
    );
}

#[test]
fn channel_created_twice_is_a_bad_request() {
    let server_id = ID { id: "120129184124124127777164".to_string() };
    let mut store = store_with_server(&server_id, "G", &user());
    let name = "general".to_string();
    assert_eq!(
        ServerHandler::new_channel(&user(), &mut store, &name, &server_id, NOW),
        Response::Success
    );
    assert_eq!(
        ServerHandler::new_channel(&user(), &mut store, &name, &server_id, NOW + 1),
        Response::Error(ServerError::BadRequest)
    );
    assert_eq!(store.find_blocks(&server_id, &name).len(), 1);
}

#[test]
fn config_is_never_a_channel() {
    let server_id = ID { id: "120129184124124127777165".to_string() };
    let mut store = store_with_server(&server_id, "G", &user());
    let config = "config".to_string();
    assert_eq!(
        ServerHandler::new_channel(&user(), &mut store, &config, &server_id, NOW),
        Response::Error(ServerError::BadRequest)
    );
    assert_eq!(
        ServerHandler::delete_channel(&user(), &mut store, &config, &server_id),
        Response::Error(ServerError::BadRequest)
    );
    assert_eq!(
        ServerHandler::send_message(
            &mut store,
            &server_id,
            &config,
            &user(),
            "hi".to_string(),
            "alice".to_string(),
            NOW
        ),
        Response::Error(ServerError::BadRequest)
    );
    assert!(!store.insert_block(&server_id, &config, starting_block()));
    assert!(store.find_config(&server_id).is_some());
    assert_eq!(ServerHandler::get_channels(&store, &server_id, &user()), Response::ChannelList(Vec::new()));
}

#[test]
fn channel_operations_need_the_right_user() {
    let server_id = ID { id: "120129184124124127777166".to_string() };
    let mut store = store_with_server(&server_id, "G", &user());
    let name = "general".to_string();
    assert_eq!(
        ServerHandler::new_channel(&other_user(), &mut store, &name, &server_id, NOW),
        Response::Error(ServerError::PermissionDenied)
    );
    assert_eq!(
        ServerHandler::new_channel(&user(), &mut store, &name, &other_user(), NOW),
        Response::Error(ServerError::BadRequest)
    );
    assert_eq!(
        ServerHandler::new_channel(&user(), &mut store, &name, &server_id, NOW),
        Response::Success
    );
    assert_eq!(
        ServerHandler::delete_channel(&other_user(), &mut store, &name, &server_id),
        Response::Error(ServerError::PermissionDenied)
    );
    assert_eq!(
        ServerHandler::send_message(
            &mut store,
            &server_id,
            &name,
            &other_user(),
            "hi".to_string(),
            "mallory".to_string(),
            NOW
        ),
        Response::Error(ServerError::PermissionDenied)
    );
    assert_eq!(
        ServerHandler::get_block_content(&store, &server_id, &name, &other_user(), 0),
        Response::Error(ServerError::PermissionDenied)
    );
    assert_eq!(
        ServerHandler::delete_channel(&user(), &mut store, &"nothing".to_string(), &server_id),
        Response::Error(ServerError::BadRequest)
    );
    assert_eq!(
        ServerHandler::send_message(
            &mut store,
            &server_id,
            &"nothing".to_string(),
            &user(),
            "hi".to_string(),
            "alice".to_string(),
            NOW
        ),
        Response::Error(ServerError::BadRequest)
    );
    assert_eq!(store.find_blocks(&server_id, &name)[0].len(), 1);
}

fn numbered(i: usize) -> Message {
    Message::new(format!("message {}", i), "alice".to_string())
}

#[test]
fn messages_are_chunked_in_blocks_of_fifty() {
    let server_id = ID { id: "120129184124124127777167".to_string() };
    let mut store = store_with_server(&server_id, "G", &user());
    let name = "general".to_string();
    assert!(ServerHandler::new_channel(&user(), &mut store, &name, &server_id, NOW).succeeded());
    let n = 120;
    for i in 0..n {
        assert_eq!(
            ServerHandler::send_message(
                &mut store,
                &server_id,
                &name,
                &user(),
                format!("message {}", i),
                "alice".to_string(),
                NOW + 1 + i as u64,
            ),
            Response::Success
        );
    }
    let mut history = vec![Message::new("channel created...".to_string(), "SERVER".to_string())];
    for i in 0..n {
        history.push(numbered(i));
    }
    assert_eq!(history.len(), 121);

    match ServerHandler::get_block_content(&store, &server_id, &name, &user(), 0) {
        Response::MessagesFound(messages) => {
            assert_eq!(messages.len(), 50);
            assert_eq!(messages[0].content, "channel created...");
            assert_eq!(messages[1], numbered(0));
            assert_eq!(messages[49], numbered(48));
            assert_eq!(&messages[..], &history[0..50]);
        }
        other => panic!("unexpected enum variant: {:?}", other),
    }
    match ServerHandler::get_block_content(&store, &server_id, &name, &user(), 1) {
        Response::MessagesFound(messages) => assert_eq!(&messages[..], &history[50..100]),
        other => panic!("unexpected enum variant: {:?}", other),
    }
    match ServerHandler::get_block_content(&store, &server_id, &name, &user(), 2) {
        Response::MessagesFound(messages) => assert_eq!(&messages[..], &history[100..121]),
        other => panic!("unexpected enum variant: {:?}", other),
    }
    assert_eq!(
        ServerHandler::get_block_content(&store, &server_id, &name, &user(), 3),
        Response::EndOfChannel
    );
    assert_eq!(
        ServerHandler::get_block_content(&store, &server_id, &name, &user(), u32::MAX),
        Response::EndOfChannel
    );
    let blocks = store.find_blocks(&server_id, &name);
    assert_eq!(blocks.len(), 3);
    assert!(blocks[0].is_filled() && blocks[1].is_filled() && !blocks[2].is_filled());
    assert_eq!(blocks[0].time_stamp(), NOW);
    assert_eq!(blocks[1].time_stamp(), NOW + 50);
    assert_eq!(blocks[2].time_stamp(), NOW + 100);
}

#[test]
fn forty_nine_posts_fill_the_first_block() {
    let server_id = ID { id: "120129184124124127777168".to_string() };
    let mut store = store_with_server(&server_id, "G", &user());
    let name = "general".to_string();
    assert!(ServerHandler::new_channel(&user(), &mut store, &name, &server_id, NOW).succeeded());
    for i in 0..49 {
        assert!(ServerHandler::send_message(
            &mut store,
            &server_id,
            &name,
            &user(),
            format!("message {}", i),
            "alice".to_string(),
            NOW,
        )
        .succeeded());
    }
    assert!(store.find_open_block(&server_id, &name).is_none());
    assert_eq!(store.find_blocks(&server_id, &name).len(), 1);
    assert_eq!(
        ServerHandler::get_block_content(&store, &server_id, &name, &user(), 1),
        Response::EndOfChannel
    );
    assert!(ServerHandler::send_message(
        &mut store,
        &server_id,
        &name,
        &user(),
        "message 49".to_string(),
        "alice".to_string(),
        NOW + 9,
    )
    .succeeded());
    assert_eq!(
        ServerHandler::get_block_content(&store, &server_id, &name, &user(), 1),
        Response::MessagesFound(vec![numbered(49)])
    );
}

#[test]
fn block_of_a_channel_that_does_not_exist() {
    let server_id = ID { id: "120129184124124127777169".to_string() };
    let store = store_with_server(&server_id, "G", &user());
    assert_eq!(
        ServerHandler::get_block_content(&store, &server_id, &"nothing".to_string(), &user(), 0),
        Response::EndOfChannel
    );
    assert_eq!(
        ServerHandler::get_block_content(&store, &other_user(), &"nothing".to_string(), &user(), 0),
        Response::Error(ServerError::BadRequest)
    );
}

#[test]
fn store_takes_a_block_only_where_none_is_open() {
    let server_id = ID { id: "120129184124124127777170".to_string() };
    let mut store = store_with_server(&server_id, "G", &user());
    let name = "general".to_string();
    assert!(!store.insert_block(&other_user(), &name, starting_block()));
    assert!(!store.insert_block(&server_id, &name, Block::new(NOW)));
    assert!(store.insert_block(&server_id, &name, starting_block()));
    assert!(!store.insert_block(&server_id, &name, starting_block()));
    assert!(!store.replace_open_block(&server_id, &name, Block::new(NOW)));
    let mut full = Block::new(NOW);
    for i in 0..50 {
        full.add_message(numbered(i));
    }
    assert!(store.replace_open_block(&server_id, &name, full.clone()));
    assert!(!store.replace_open_block(&server_id, &name, starting_block()));
    assert!(store.find_open_block(&server_id, &name).is_none());
    assert!(store.insert_block(&server_id, &name, starting_block()));
    assert_eq!(store.find_blocks(&server_id, &name), vec![full, starting_block()]);
    assert!(store.drop_collection(&server_id, &name));
    assert!(!store.drop_collection(&server_id, &name));
    assert!(store.find_blocks(&server_id, &name).is_empty());
    assert!(store.list_collection_names(&other_user()).is_empty());
}

#[test]
fn guilds_do_not_share_channels() {
    let first = ID { id: "120129184124124127777171".to_string() };
    let second = ID { id: "120129184124124127777172".to_string() };
    let mut store = store_with_server(&first, "G1", &user());
    assert!(store.insert_config(second.clone(), ServerConfig::new("G2".to_string(), other_user())));
    assert!(!store.insert_config(second.clone(), ServerConfig::new("G3".to_string(), user())));
    let name = "general".to_string();
    assert!(ServerHandler::new_channel(&user(), &mut store, &name, &first, NOW).succeeded());
    assert_eq!(
        ServerHandler::get_channels(&store, &second, &other_user()),
        Response::ChannelList(Vec::new())
    );
    assert!(ServerHandler::new_channel(&other_user(), &mut store, &name, &second, NOW).succeeded());
    assert!(ServerHandler::delete_server(&user(), &mut store, &first).succeeded());
    assert_eq!(
        ServerHandler::get_channels(&store, &second, &other_user()),
        Response::ChannelList(vec![name])
    );
    assert_eq!(ServerHandler::get_server_name_by_id(&store, &second), Some("G2".to_string()));
}

#[test]
fn settings_from_parts_need_every_admin_to_be_a_member() {
    let config = ServerConfig::from_parts(
        "g".to_string(),
        vec![user()],
        vec![other_user(), user()],
    )
    .unwrap();
    assert!(config.is_well_formed());
    assert_eq!(config.name(), "g");
    assert_eq!(config.admins(), vec![user()]);
    assert_eq!(config.users(), vec![other_user(), user()]);
    assert!(config.is_admin(&user()) && !config.is_admin(&other_user()));
    assert!(config.is_user(&user()) && config.is_user(&other_user()));
    assert!(ServerConfig::from_parts("g".to_string(), vec![user()], vec![other_user()]).is_none());
    assert!(ServerConfig::from_parts("g".to_string(), vec![user()], Vec::new()).is_none());
    assert!(ServerConfig::from_parts("g".to_string(), Vec::new(), Vec::new()).is_some());
    assert_eq!(
        ServerConfig::from_parts("g".to_string(), vec![user()], vec![user()]),
        Some(ServerConfig::new("g".to_string(), user()))
    );
}

#[test]
fn block_from_parts_keeps_its_parts() {
    let messages = vec![numbered(0), numbered(1)];
    let block = Block::from_parts(messages.clone(), 9, true);
    assert_eq!(block.messages(), messages);
    assert_eq!(block.time_stamp(), 9);
    assert!(block.is_filled());
    assert_eq!(block.len(), 2);
    let server_id = ID { id: "120129184124124127777173".to_string() };
    let mut store = store_with_server(&server_id, "G", &user());
    assert!(!store.insert_block(&server_id, &"general".to_string(), block));
    assert!(store.insert_block(
        &server_id,
        &"general".to_string(),
        Block::from_parts(messages, 9, false)
    ));
}
