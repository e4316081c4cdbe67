use ollama::{EmbedInput, EmbedResponse};

fn response(embeddings: Vec<Vec<f32>>) -> EmbedResponse<Vec<f32>> {
    EmbedResponse {
        model: "all-minilm".to_string(),
        embeddings,
        total_duration: None,
        load_duration: None,
        prompt_eval_count: None,
        prompt_eval_duration: None,
        eval_count: None,
        eval_duration: None,
    }
}

#[test]
fn a_single_text_counts_as_one() {
    assert_eq!(EmbedInput::Single("a".to_string()).len(), 1);
    assert_eq!(EmbedInput::Single(String::new()).len(), 1);
}

#[test]
fn several_texts_count_as_many() {
    assert_eq!(EmbedInput::Multiple(Vec::new()).len(), 0);
    assert_eq!(
        EmbedInput::Multiple(vec!["a".to_string(), "b".to_string(), "c".to_string()]).len(),
        3
    );
}

#[test]
fn two_inputs_are_answered_by_two_embeddings_in_order() {
    let input = EmbedInput::Multiple(vec!["a".to_string(), "b".to_string()]);
    let answer = response(vec![vec![0.25, 0.5], vec![-1.0, 2.0]]);
    assert_eq!(input.len(), 2);
    assert_eq!(answer.embeddings.len(), 2);
    assert!(answer.matches(&input));
    assert_eq!(answer.embeddings[0], vec![0.25, 0.5]);
    assert_eq!(answer.embeddings[1], vec![-1.0, 2.0]);
}

#[test]
fn a_response_of_another_length_does_not_match() {
    let input = EmbedInput::Multiple(vec!["a".to_string(), "b".to_string()]);
    assert!(!response(vec![vec![0.0]]).matches(&input));
    assert!(!response(Vec::new()).matches(&input));
    assert!(!response(vec![vec![0.0], vec![1.0], vec![2.0]]).matches(&input));
    assert!(response(vec![vec![0.0]]).matches(&EmbedInput::Single("a".to_string())));
}
