use nexus_client::auth::{
    comment_line, credentials_for, credentials_from_auth, find_machine, machine_credentials,
    netrc_text, read_netrc, AuthError, NetrcMachine,
};
use nexus_client::client::{
    download_url, is_success, nexus_url, request_url, sends_body, server_host, status_error,
    upload_url,
};
use nexus_client::restapi::{NexusRepository, StagingProfiles};

#[test]
fn server_url_defaults_and_is_normalized() {
    assert_eq!(nexus_url(None).unwrap(), "https://oss.sonatype.org/");
    assert_eq!(
        nexus_url(Some("HTTP://Nexus.Example.com:8081/nexus".to_string())).unwrap(),
        "http://nexus.example.com:8081/nexus"
    );
    let error = nexus_url(Some("not a url".to_string())).unwrap_err();
    assert_eq!(error.message, "relative URL without a base");
}

#[test]
fn server_host_is_taken_from_the_url() {
    assert_eq!(server_host("https://oss.sonatype.org/"), Some("oss.sonatype.org".to_string()));
    assert_eq!(server_host("http://127.0.0.1:8081/nexus"), Some("127.0.0.1".to_string()));
    assert_eq!(server_host("mailto:someone@example.com"), None);
    assert_eq!(server_host("no url"), None);
}

#[test]
fn request_url_joins_the_suffix_to_the_server() {
    let request = NexusRepository::nexus_readonly("releases").list("/org/");
    assert_eq!(
        request_url("https://oss.sonatype.org/", &request).unwrap(),
        "https://oss.sonatype.org/service/local/repositories/releases/content/org/"
    );
    assert_eq!(
        request_url("http://localhost:8081/nexus/", &StagingProfiles::list()).unwrap(),
        "http://localhost:8081/service/local/staging/profiles"
    );
    assert!(request_url("nothing", &StagingProfiles::list()).is_err());
    assert!(!sends_body(&request));
    assert!(sends_body(&StagingProfiles::promote("p", "r")));
}

#[test]
fn transfer_urls() {
    assert_eq!(
        upload_url("https://oss.sonatype.org/", "repo-1", "/org/a b.jar").unwrap(),
        "https://oss.sonatype.org/service/local/staging/deployByRepositoryId/repo-1/org/a%20b.jar"
    );
    assert_eq!(
        download_url("https://oss.sonatype.org/", "releases", "/org/a.jar").unwrap(),
        "https://oss.sonatype.org/service/local/repositories/releases/content/org/a.jar"
    );
    assert!(upload_url("", "r", "/p").is_err());
    assert!(download_url("", "r", "/p").is_err());
}

#[test]
fn status_is_judged_and_reported() {
    assert!(is_success(200));
    assert!(is_success(204));
    assert!(is_success(299));
    assert!(!is_success(199));
    assert!(!is_success(300));
    assert!(!is_success(404));
    assert_eq!(
        status_error(404, "Not Found", Some("text/html"), "<html/>"),
        "HTTP 404 Not Found: <html/>"
    );
    assert_eq!(
        status_error(400, "Bad Request", Some("application/json;charset=UTF-8"), "{\"errors\":[]}"),
        "HTTP 400 Bad Request: with this JSON info: {\"errors\":[]}"
    );
    assert_eq!(status_error(500, "", None, ""), "HTTP 500 : ");
}

#[test]
fn credentials_are_split_at_the_first_colon() {
    assert_eq!(
        credentials_from_auth("me:secret"),
        Ok(("me".to_string(), "secret".to_string()))
    );
    assert_eq!(
        credentials_from_auth("me:se:cret"),
        Ok(("me".to_string(), "se:cret".to_string()))
    );
    assert_eq!(credentials_from_auth(":"), Ok((String::new(), String::new())));
    assert_eq!(credentials_from_auth("nocolon"), Err(AuthError::InvalidAuth));
    assert_eq!(credentials_from_auth(""), Err(AuthError::InvalidAuth));
}

#[test]
fn comment_lines_are_left_out() {
    assert!(comment_line("# a comment"));
    assert!(comment_line("   \t# indented"));
    assert!(!comment_line("machine example.com # not a comment line"));
    assert!(!comment_line(""));
    assert!(!comment_line("   "));
    let lines: Vec<String> = vec![
        "# first".to_string(),
        "machine a.example.com".to_string(),
        "  # between".to_string(),
        "login me".to_string(),
        "password secret".to_string(),
    ];
    assert_eq!(netrc_text(&lines), "machine a.example.com\nlogin me\npassword secret");
    assert_eq!(netrc_text(&vec!["#".to_string()]), "");
    assert_eq!(netrc_text(&Vec::new()), "");
    assert_eq!(netrc_text(&vec!["".to_string(), "x".to_string()]), "\nx");
}

fn machine(name: Option<&str>, login: Option<&str>, password: Option<&str>) -> NetrcMachine {
    NetrcMachine {
        name: name.map(str::to_string),
        login: login.map(str::to_string),
        password: password.map(str::to_string),
        account: None,
    }
}

#[test]
fn netrc_text_is_read_into_machines() {
    let machines = read_netrc(
        "machine a.example.com login me password secret\ndefault login anonymous\nmachine b.example.com login you password other account acc",
    )
    .unwrap();
    assert_eq!(
        machines,
        vec![
            machine(Some("a.example.com"), Some("me"), Some("secret")),
            machine(None, Some("anonymous"), None),
            NetrcMachine {
                account: Some("acc".to_string()),
                ..machine(Some("b.example.com"), Some("you"), Some("other"))
            },
        ]
    );
    assert_eq!(read_netrc(""), Some(Vec::new()));
    assert_eq!(read_netrc("login me"), None);
    assert_eq!(read_netrc("nonsense"), None);
}

#[test]
fn credentials_are_those_of_the_first_machine_named_as_the_host() {
    let machines = vec![
        machine(None, Some("anyone"), Some("any")),
        machine(Some("a.example.com"), Some("me"), Some("secret")),
        machine(Some("b.example.com"), Some("you"), Some("other")),
        machine(Some("a.example.com"), Some("late"), Some("later")),
    ];
    assert_eq!(find_machine(&machines, "a.example.com"), Some(1));
    assert_eq!(find_machine(&machines, "b.example.com"), Some(2));
    assert_eq!(find_machine(&machines, "c.example.com"), None);
    assert_eq!(find_machine(&Vec::new(), "a.example.com"), None);
    assert_eq!(
        credentials_for(&machines, "a.example.com"),
        Ok(("me".to_string(), "secret".to_string()))
    );
    assert_eq!(credentials_for(&machines, "c.example.com"), Err(AuthError::HostNotFound));
    assert_eq!(
        machine_credentials(&machines[2]),
        ("you".to_string(), "other".to_string())
    );
}
