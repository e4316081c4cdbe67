use ollama::{
    check_status, decode_response, succeeded, ListLocalModelsResponse, LocalModel, ResponseError,
    StatusError,
};

#[test]
fn success_is_200_to_299() {
    assert!(!succeeded(0));
    assert!(!succeeded(199));
    assert!(succeeded(200));
    assert!(succeeded(204));
    assert!(succeeded(299));
    assert!(!succeeded(300));
    assert!(!succeeded(404));
    assert!(!succeeded(500));
    assert!(!succeeded(u16::MAX));
}

#[test]
fn a_successful_body_passes_untouched() {
    let body = b"{\"models\":[]}".to_vec();
    assert_eq!(check_status(200, body.clone()), Ok(body));
    assert_eq!(check_status(299, Vec::new()), Ok(Vec::new()));
}

#[test]
fn another_status_becomes_an_error_with_status_and_body() {
    let body = b"{\"error\":\"model not found\"}".to_vec();
    assert_eq!(
        check_status(404, body.clone()),
        Err(StatusError { status: 404, body })
    );
    assert_eq!(
        check_status(500, Vec::new()),
        Err(StatusError { status: 500, body: Vec::new() })
    );
    assert_eq!(
        check_status(199, b"x".to_vec()),
        Err(StatusError { status: 199, body: b"x".to_vec() })
    );
    assert_eq!(
        check_status(300, b"y".to_vec()),
        Err(StatusError { status: 300, body: b"y".to_vec() })
    );
}

fn models(bytes: &[u8]) -> Result<ListLocalModelsResponse, String> {
    let value: serde_json::Value =
        serde_json::from_slice(bytes).map_err(|error| error.to_string())?;
    let list = match value.get("models").and_then(|models| models.as_array()) {
        Some(list) => list,
        None => return Err("missing field `models`".to_string()),
    };
    let mut models = Vec::new();
    for entry in list {
        let field = |key: &str| match entry.get(key).and_then(|found| found.as_str()) {
            Some(text) => Ok(text.to_string()),
            None => Err(format!("missing field `{}`", key)),
        };
        models.push(LocalModel {
            name: field("name")?,
            modified_at: field("modified_at")?,
            size: match entry.get("size").and_then(|size| size.as_u64()) {
                Some(size) => size,
                None => return Err("missing field `size`".to_string()),
            },
        });
    }
    Ok(ListLocalModelsResponse { models })
}

#[test]
fn a_successful_response_yields_the_decoded_value_unchanged() {
    let body = b"{\"models\":[{\"name\":\"llama3:8b\",\"modified_at\":\"2024-05-01T10:00:00Z\",\"size\":4661224676},{\"name\":\"phi3\",\"modified_at\":\"2024-06-02T11:30:00Z\",\"size\":0}]}".to_vec();
    let answer = decode_response(200, body, models).unwrap();
    assert_eq!(answer.models.len(), 2);
    assert_eq!(answer.models[0].name, "llama3:8b");
    assert_eq!(answer.models[0].modified_at, "2024-05-01T10:00:00Z");
    assert_eq!(answer.models[0].size, 4661224676);
    assert_eq!(answer.models[1].name, "phi3");
    assert_eq!(answer.models[1].modified_at, "2024-06-02T11:30:00Z");
    assert_eq!(answer.models[1].size, 0);
}

#[test]
fn a_body_that_does_not_decode_is_a_decode_error() {
    match decode_response(200, b"{\"models\":".to_vec(), models) {
        Err(ResponseError::Decode(_)) => {}
        other => panic!("unexpected answer {:?}", other),
    }
    match decode_response(204, Vec::new(), models) {
        Err(ResponseError::Decode(_)) => {}
        other => panic!("unexpected answer {:?}", other),
    }
    match decode_response(200, b"{\"models\":[{\"name\":1}]}".to_vec(), models) {
        Err(ResponseError::Decode(error)) => assert_eq!(error, "missing field `name`"),
        other => panic!("unexpected answer {:?}", other),
    }
}

#[test]
fn a_response_that_failed_is_not_decoded() {
    let calls = std::cell::Cell::new(0);
    let body = b"{\"models\":[]}".to_vec();
    let answer = decode_response(503, body.clone(), |bytes: &[u8]| {
        calls.set(calls.get() + 1);
        models(bytes)
    });
    match answer {
        Err(ResponseError::Status(error)) => {
            assert_eq!(error, StatusError { status: 503, body });
        }
        other => panic!("unexpected answer {:?}", other),
    }
    assert_eq!(calls.get(), 0);
}
