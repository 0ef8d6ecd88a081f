use nicord::error::ServerError;
use nicord::id::ID;
use nicord::user::{SensitiveUser, User, UserHandler};

fn oid(text: &str) -> ID {
    ID::new(text.to_string()).unwrap()
}

#[test]
fn test_pwd_check() {
    let u = SensitiveUser {
        _id: oid("123123123123123123123123"),
        is_online: false,
        username: "Bob".to_string(),
        password: "#Passwort123".to_string(),
        servers: Vec::new(),
    };

    assert!(u.check_credentials("#Passwort123", "Bob"));
    assert!(!u.check_credentials("falsches Passwort", "Bob"));
    assert!(!u.check_credentials("#Passwort123", "Paul"));
}

fn setup_test_database() -> UserHandler {
    let mut coll = Vec::new();
    coll.push(SensitiveUser::new(
        oid("123123123123123123123123"),
        false,
        "Max".to_string(),
        "Passwort".to_string(),
        Vec::new(),
    ));
    coll.push(SensitiveUser::new(
        oid("123123123123123123123124"),
        false,
        "Moritz".to_string(),
        "Passwort".to_string(),
        Vec::new(),
    ));
    coll.push(SensitiveUser::new(
        oid("123123123123123123123125"),
        false,
        "Max".to_string(),
        "Passwort123".to_string(),
        Vec::new(),
    ));
    coll.push(SensitiveUser::new(
        oid("123123123123123123123126"),
        true,
        "Moritz".to_string(),
        "Passwort".to_string(),
        Vec::new(),
    ));
    coll.push(SensitiveUser::new(
        oid("123123123123123123123127"),
        true,
        "Malte".to_string(),
        "Passwort".to_string(),
        vec!["MyServer".to_string()],
    ));
    UserHandler::new("TEST".to_string(), "user".to_string(), coll)
}

#[test]
fn test_create_new_user() {
    let mut handler = UserHandler::new("TEST".to_string(), "user".to_string(), Vec::new());
    let id = handler
        .create_new_user(
            "User123".to_string(),
            "Password123".to_string(),
            true,
            oid("0123456789abcdef01234567"),
        )
        .unwrap();
    let found = handler.get_user_sensitive(&id).unwrap();
    assert!(found.servers == Vec::<String>::new());
    assert!(found.username == *"User123".to_string());
    assert!(found.password == *"Password123".to_string());
    assert!(found.is_online);
}

#[test]
fn test_get_user_sensitive() {
    let handler = setup_test_database();
    let u = handler
        .get_user_sensitive(&oid("123123123123123123123127"))
        .unwrap();
    assert!(u._id == oid("123123123123123123123127"));
    assert!(u.servers == vec!["MyServer".to_string()]);
    assert!(u.username == *"Malte".to_string());
    assert!(u.password == *"Passwort".to_string());
    assert!(u.is_online);
}

#[test]
fn test_get_user() {
    let handler = setup_test_database();
    let u = handler.get_user(&oid("123123123123123123123127")).unwrap();
    assert!(u.servers == vec!["MyServer".to_string()]);
    assert!(u.username == *"Malte".to_string());
    assert!(u.is_online);
}

#[test]
fn test_find_user_by_name() {
    let handler = setup_test_database();
    let binding = handler.find_user_by_name("Moritz".to_string());
    let mut u = binding.iter();
    if u.next().unwrap().is_online {
        assert!(!u.next().unwrap().is_online)
    } else {
        assert!(u.next().unwrap().is_online)
    }
}

#[test]
fn test_set_user_status() {
    let mut handler = setup_test_database();
    handler.set_user_status(&oid("123123123123123123123127"), false);
    assert!(
        !handler
            .get_user_sensitive(&oid("123123123123123123123127"))
            .unwrap()
            .is_online
    );
    handler.set_user_status(&oid("123123123123123123123127"), true);
    assert!(
        handler
            .get_user_sensitive(&oid("123123123123123123123127"))
            .unwrap()
            .is_online
    );
}

#[test]
fn test_add_user_server() {
    let mut handler = setup_test_database();
    let oid = oid("123123123123123123123127");
    handler.add_user_server(&oid, "MyServer2".to_string());
    let u = handler.get_user_sensitive(&oid).unwrap();
    assert_eq!(
        u.servers,
        vec!["MyServer".to_string(), "MyServer2".to_string()]
    );
}

#[test]
fn test_check_user_credentials() {
    let handler = setup_test_database();

    //correct login
    let mut id = oid("123123123123123123123127");
    assert!(handler.check_user_credentials(&id, "Malte", "Passwort"));

    //correct login
    id = oid("123123123123123123123125");
    assert!(handler.check_user_credentials(&id, "Max", "Passwort123"));

    //password false
    id = oid("123123123123123123123125");
    assert!(!handler.check_user_credentials(&id, "Max", "Passwort"));

    //username false
    id = oid("123123123123123123123125");
    assert!(!handler.check_user_credentials(&id, "Ma", "Passwort123"));

    //oid false
    id = oid("123123123123123123123120");
    assert!(!handler.check_user_credentials(&id, "Max", "Passwort123"));
}

#[test]
fn create_refuses_a_taken_name() {
    let mut handler = UserHandler::from_names("USERS", "users");
    let first = oid("aaaaaaaaaaaaaaaaaaaaaaaa");
    let second = oid("bbbbbbbbbbbbbbbbbbbbbbbb");
    assert_eq!(
        handler.create_new_user("alice".to_string(), "pw1".to_string(), true, first.clone()),
        Ok(first.clone())
    );
    assert_eq!(
        handler.create_new_user("alice".to_string(), "pw2".to_string(), true, second.clone()),
        Err(ServerError::BadRequest)
    );
    assert!(handler.get_user(&second).is_none());
    assert_eq!(handler.find_user_by_name("alice".to_string()).len(), 1);
    assert!(handler.check_user_credentials(&first, "alice", "pw1"));
    assert!(!handler.check_user_credentials(&first, "alice", "pw2"));
}

#[test]
fn create_refuses_an_unusable_identifier() {
    let mut handler = UserHandler::from_names("USERS", "users");
    let first = oid("aaaaaaaaaaaaaaaaaaaaaaaa");
    assert!(handler
        .create_new_user("alice".to_string(), "pw".to_string(), false, first.clone())
        .is_ok());
    assert_eq!(
        handler.create_new_user("bob".to_string(), "pw".to_string(), false, first.clone()),
        Err(ServerError::InternalServerError)
    );
    assert_eq!(
        handler.create_new_user(
            "bob".to_string(),
            "pw".to_string(),
            false,
            ID { id: "not an id".to_string() }
        ),
        Err(ServerError::InternalServerError)
    );
    assert!(handler.find_user_by_name("bob".to_string()).is_empty());
}

#[test]
fn find_by_name_gives_the_public_side() {
    let handler = setup_test_database();
    assert_eq!(
        handler.find_user_by_name("Malte".to_string()),
        vec![User::new("Malte".to_string(), true, vec!["MyServer".to_string()])]
    );
    assert_eq!(
        handler.find_user_by_name("Max".to_string()),
        vec![
            User::new("Max".to_string(), false, Vec::new()),
            User::new("Max".to_string(), false, Vec::new())
        ]
    );
    assert!(handler.find_user_by_name("Nobody".to_string()).is_empty());
}

#[test]
fn of_two_documents_of_one_identifier_the_first_stays() {
    let id = oid("123123123123123123123123");
    let handler = UserHandler::new(
        "TEST".to_string(),
        "user".to_string(),
        vec![
            SensitiveUser::new(id.clone(), false, "Max".to_string(), "a".to_string(), Vec::new()),
            SensitiveUser::new(id.clone(), true, "Moritz".to_string(), "b".to_string(), Vec::new()),
        ],
    );
    assert_eq!(handler.get_user(&id).unwrap().username, "Max");
    assert!(handler.find_user_by_name("Moritz".to_string()).is_empty());
}

#[test]
fn status_and_guilds_of_an_unknown_user() {
    let mut handler = setup_test_database();
    let unknown = oid("123123123123123123123120");
    handler.set_user_status(&unknown, true);
    handler.add_user_server(&unknown, "MyServer".to_string());
    assert!(handler.get_user(&unknown).is_none());
    assert_eq!(handler.find_user_by_name("Max".to_string()).len(), 2);
    assert!(!handler.get_user(&oid("123123123123123123123123")).unwrap().is_online);
}

#[test]
fn to_user_drops_identifier_and_password() {
    let u = SensitiveUser::new(
        oid("123123123123123123123127"),
        true,
        "Malte".to_string(),
        "Passwort".to_string(),
        vec!["MyServer".to_string()],
    );
    assert_eq!(
        u.to_user(),
        User { username: "Malte".to_string(), is_online: true, servers: vec!["MyServer".to_string()] }
    );
}

#[test]
fn insert_says_why_it_did_not() {
    let mut handler = setup_test_database();
    let known = oid("123123123123123123123127");
    let unknown = oid("123123123123123123123120");
    let user = |id: &ID, name: &str| {
        SensitiveUser::new(id.clone(), false, name.to_string(), "pw".to_string(), vec!["g".to_string()])
    };
    assert_eq!(handler.insert_one(user(&unknown, "Malte")), Some(ServerError::BadRequest));
    assert_eq!(handler.insert_one(user(&known, "Mia")), Some(ServerError::InternalServerError));
    assert_eq!(
        handler.insert_one(user(&ID { id: "x".to_string() }, "Mia")),
        Some(ServerError::InternalServerError)
    );
    assert_eq!(handler.insert_one(user(&unknown, "Mia")), None);
    assert_eq!(handler.get_user_sensitive(&unknown), Some(user(&unknown, "Mia")));
}
