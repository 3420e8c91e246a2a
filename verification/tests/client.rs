use dbd::client::dump_path;
use dbd::client::dump_url;
use dbd::client::finish_dump_url;
use dbd::client::resolve_agent;
use dbd::client::Agent;
use dbd::client::ClientError;
use dbd::client::ClientSettings;
use dbd::client::NamedAgent;
use dbd::util::command_candidates;

fn settings() -> ClientSettings {
    ClientSettings {
        agents: vec![
            NamedAgent {
                id: "prod".to_string(),
                agent: Agent { url: "https://prod.example/".to_string(), api_key: "kp".to_string() },
            },
            NamedAgent {
                id: "shop".to_string(),
                agent: Agent { url: "https://shop.example/".to_string(), api_key: "ks".to_string() },
            },
        ],
    }
}

#[test]
fn named_agent_is_taken_from_the_configuration() {
    let s = settings();
    let agent = resolve_agent(Some(&s), Some("prod"), "shop", None, None).unwrap();
    assert_eq!(agent, Agent { url: "https://prod.example/".to_string(), api_key: "kp".to_string() });
}

#[test]
fn agent_defaults_to_the_connection_identifier() {
    let s = settings();
    let agent = resolve_agent(Some(&s), None, "shop", None, None).unwrap();
    assert_eq!(agent.url, "https://shop.example/");
    assert_eq!(agent.api_key, "ks");
}

#[test]
fn command_line_wins_over_the_configuration() {
    let s = settings();
    let agent = resolve_agent(Some(&s), None, "shop", Some("http://localhost:1/".to_string()), None).unwrap();
    assert_eq!(agent, Agent { url: "http://localhost:1/".to_string(), api_key: "ks".to_string() });
    let agent = resolve_agent(Some(&s), Some("prod"), "shop", None, Some("other".to_string())).unwrap();
    assert_eq!(agent, Agent { url: "https://prod.example/".to_string(), api_key: "other".to_string() });
}

#[test]
fn agent_errors() {
    let s = settings();
    assert_eq!(resolve_agent(None, Some("prod"), "shop", None, None), Err(ClientError::NoConfiguration));
    assert_eq!(
        resolve_agent(None, Some("prod"), "shop", Some("u".to_string()), Some("k".to_string())),
        Err(ClientError::NoConfiguration)
    );
    assert_eq!(resolve_agent(Some(&s), Some("test"), "shop", None, None), Err(ClientError::UnknownAgent));
    assert_eq!(resolve_agent(Some(&s), None, "crm", None, Some("k".to_string())), Err(ClientError::NoUrl));
    assert_eq!(resolve_agent(None, None, "crm", Some("http://a/".to_string()), None), Err(ClientError::NoApiKey));
    assert_eq!(
        resolve_agent(None, None, "crm", Some("http://a/".to_string()), Some("k".to_string())),
        Ok(Agent { url: "http://a/".to_string(), api_key: "k".to_string() })
    );
    assert_eq!(ClientError::NoConfiguration.message("x"), "no configuration provided");
    assert_eq!(ClientError::UnknownAgent.message("test"), "no agent test");
    assert_eq!(ClientError::NoUrl.message("x"), "no URL provided");
    assert_eq!(ClientError::NoApiKey.message("x"), "no api key provided");
    assert_eq!(ClientError::InvalidUrl.message("x"), "invalid URL");
}

#[test]
fn dump_paths() {
    assert_eq!(dump_path("pg", None), "dump/pg/");
    assert_eq!(dump_path("pg", Some("main")), "dump/pg/main");
}

#[test]
fn dump_addresses() {
    assert_eq!(dump_url("http://agent:8080/", "pg", None, None).unwrap(), "http://agent:8080/dump/pg/");
    assert_eq!(
        dump_url("http://agent:8080/base/", "my", Some("shop"), None).unwrap(),
        "http://agent:8080/base/dump/my/shop"
    );
    assert_eq!(
        dump_url("http://agent:8080/old", "my", Some("shop"), Some("logs,sessions")).unwrap(),
        "http://agent:8080/dump/my/shop?exclude_table_data=logs%2Csessions"
    );
    assert_eq!(
        dump_url("https://agent/", "pg", None, Some("a b")).unwrap(),
        "https://agent/dump/pg/?exclude_table_data=a+b"
    );
}

#[test]
fn address_that_is_no_url_is_turned_down() {
    assert_eq!(dump_url("not a url", "pg", None, None), Err(ClientError::InvalidUrl));
    assert_eq!(dump_url("", "pg", None, Some("t")), Err(ClientError::InvalidUrl));
    assert_eq!(dump_url("mailto:root@agent", "pg", None, None), Err(ClientError::InvalidUrl));
}

#[test]
fn files_that_stand_for_a_command() {
    assert_eq!(
        command_candidates("/usr/local/bin:/usr/bin:/bin", "pg_dump"),
        vec!["/usr/local/bin/pg_dump", "/usr/bin/pg_dump", "/bin/pg_dump"]
    );
    assert_eq!(command_candidates("", "mysqldump"), vec!["/mysqldump"]);
    assert_eq!(command_candidates("/a:", "x"), vec!["/a/x", "/x"]);
}

#[test]
fn joined_address_gets_the_tables_as_a_query() {
    assert_eq!(
        finish_dump_url(Ok("http://a/dump/x/".to_string()), Some("t1,t2")).unwrap(),
        "http://a/dump/x/?exclude_table_data=t1%2Ct2"
    );
    assert_eq!(finish_dump_url(Ok("http://a/dump/x/".to_string()), None).unwrap(), "http://a/dump/x/");
    assert_eq!(
        finish_dump_url(Err(surf::http::url::ParseError::EmptyHost), Some("t")),
        Err(ClientError::InvalidUrl)
    );
    assert_eq!(finish_dump_url(Ok("no url".to_string()), Some("t")), Err(ClientError::InvalidUrl));
}
