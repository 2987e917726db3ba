use serde_json::{Number, Value};
use website_checker::session::Session;
use website_checker::status::{HttpStatus, Reply, Status};

fn strings(items: &[&str]) -> Vec<String> {
    items.iter().map(|s| s.to_string()).collect()
}

fn object(status: &Status) -> Value {
    let mut fields = serde_json::Map::new();
    fields.insert("url".to_string(), Value::String(status.url().clone()));
    fields.insert("status".to_string(), Value::String(status.status().clone()));
    fields.insert(
        "elapsed_ms".to_string(),
        Value::Number(Number::from(status.elapsed_ms() as u64)),
    );
    fields.insert("timestamp".to_string(), Value::String(status.timestamp().clone()));
    fields.insert(
        "error".to_string(),
        match status.error() {
            Some(why) => Value::String(why.clone()),
            None => Value::Null,
        },
    );
    Value::Object(fields)
}

#[test]
fn records_written_and_read_back_keep_their_order() {
    let candidates = strings(&[
        "http://example.com",
        " http://example.org/\"quoted\" ",
        "http://example.com",
        "",
        "http://b\u{FC}cher.example/\\",
    ]);
    let mut session = Session::new(&candidates);
    let mut asked = Vec::new();
    loop {
        let (next, url) = session.begin();
        session = next;
        let url = match url {
            Some(url) => url,
            None => break,
        };
        let reply = if asked.is_empty() {
            Reply::Answered(HttpStatus::new(200).unwrap())
        } else {
            Reply::Failed("tcp connect error:\n\t\"refused\"".to_string())
        };
        asked.push(url);
        let (next, _) = session.finish(reply);
        session = next;
    }
    assert_eq!(asked.len(), 3);

    let written = Value::Array(session.results().iter().map(object).collect());
    let text = serde_json::to_string_pretty(&written).unwrap();
    let read: Value = serde_json::from_str(&text).unwrap();

    let items = read.as_array().unwrap();
    assert_eq!(items.len(), asked.len());
    for (item, url) in items.iter().zip(asked.iter()) {
        let fields = item.as_object().unwrap();
        assert_eq!(fields.len(), 5);
        assert_eq!(fields["url"].as_str(), Some(url.as_str()));
        assert!(fields["elapsed_ms"].is_u64());
        assert!(fields["timestamp"].as_str().unwrap().ends_with("+00:00"));
        assert!(fields.contains_key("error"));
    }
    assert_eq!(items[0]["status"].as_str(), Some("200 OK"));
    assert!(items[0]["error"].is_null());
    assert_eq!(items[1]["status"].as_str(), Some("FAILURE"));
    assert_eq!(items[1]["error"].as_str(), Some("tcp connect error:\n\t\"refused\""));
    assert_eq!(items[2]["url"].as_str(), Some("http://b\u{FC}cher.example/\\"));
}

#[test]
fn run_without_visits_writes_an_empty_list() {
    let session = Session::new(&Vec::new());
    let written = Value::Array(session.results().iter().map(object).collect());
    let text = serde_json::to_string_pretty(&written).unwrap();
    assert_eq!(text, "[]");
    let read: Value = serde_json::from_str(&text).unwrap();
    assert_eq!(read.as_array().unwrap().len(), 0);
}
