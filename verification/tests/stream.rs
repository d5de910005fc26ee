use agerus::stream::StreamFilter;

fn collect(chunks: &[&str]) -> (Vec<(bool, String)>, String, String) {
    let mut filter = StreamFilter::new();
    let mut events = Vec::new();
    for chunk in chunks {
        events.extend(filter.push(chunk));
    }
    events.extend(filter.finish());
    let mut reasoning = String::new();
    let mut answer = String::new();
    for (kind, text) in &events {
        if *kind {
            reasoning.push_str(text);
        } else {
            answer.push_str(text);
        }
    }
    (events, reasoning, answer)
}

#[test]
fn one_chunk_yields_reasoning_then_answer() {
    let (events, _, _) = collect(&["<think>hi</think>ok"]);
    assert_eq!(events, vec![(true, "hi".to_string()), (false, "ok".to_string())]);
}

#[test]
fn tag_split_across_two_chunks() {
    let (events, _, _) = collect(&["<th", "ink>hi</think>ok"]);
    assert_eq!(events, vec![(true, "hi".to_string()), (false, "ok".to_string())]);
}

#[test]
fn byte_by_byte_gives_the_same_text() {
    let whole = "<think>hi</think>ok";
    let singles: Vec<String> = whole.chars().map(|c| c.to_string()).collect();
    let refs: Vec<&str> = singles.iter().map(|s| s.as_str()).collect();
    let (events, reasoning, answer) = collect(&refs);
    assert_eq!(reasoning, "hi");
    assert_eq!(answer, "ok");
    for (_, text) in &events {
        assert!(!text.contains('<'));
        assert!(!text.contains('>'));
    }
}

#[test]
fn every_two_way_split_agrees() {
    let whole = "ab<think>one</think>mid<think>two</think>end";
    let (_, reasoning, answer) = collect(&[whole]);
    assert_eq!(reasoning, "onetwo");
    assert_eq!(answer, "abmidend");
    for cut in 0..=whole.len() {
        let (_, r, a) = collect(&[&whole[..cut], &whole[cut..]]);
        assert_eq!(r, reasoning);
        assert_eq!(a, answer);
    }
}

#[test]
fn several_toggles_in_one_chunk() {
    let mut filter = StreamFilter::new();
    let events = filter.push("a<think>b</think>c<think>d</think>0123456789");
    assert_eq!(
        events,
        vec![
            (false, "a".to_string()),
            (true, "b".to_string()),
            (false, "c".to_string()),
            (true, "d".to_string()),
            (false, "0123".to_string()),
        ]
    );
    assert!(!filter.in_reasoning());
    assert_eq!(filter.finish(), vec![(false, "456789".to_string())]);
}

#[test]
fn holds_back_one_less_than_the_delimiter() {
    let mut filter = StreamFilter::new();
    assert_eq!(filter.push("0123456789"), vec![(false, "0123".to_string())]);
    assert_eq!(filter.push("<think>x"), vec![(false, "456789".to_string())]);
    assert!(filter.in_reasoning());
    assert_eq!(filter.push("yzabcdefg"), vec![(true, "xyz".to_string())]);
    assert_eq!(filter.finish(), vec![(true, "abcdefg".to_string())]);
    assert!(!filter.in_reasoning());
}

#[test]
fn unfinished_tag_is_flushed_at_the_end() {
    let mut filter = StreamFilter::new();
    assert_eq!(filter.push("<thi"), Vec::<(bool, String)>::new());
    assert_eq!(filter.finish(), vec![(false, "<thi".to_string())]);
}

#[test]
fn multibyte_text_is_never_split_inside_a_character() {
    let whole = "héllo wörld – ünïcödé <think>思考</think>答え";
    let (_, reasoning, answer) = collect(&[whole]);
    assert_eq!(reasoning, "思考");
    assert_eq!(answer, "héllo wörld – ünïcödé 答え");
    let chars: Vec<String> = whole.chars().map(|c| c.to_string()).collect();
    let refs: Vec<&str> = chars.iter().map(|s| s.as_str()).collect();
    let (_, r, a) = collect(&refs);
    assert_eq!(r, reasoning);
    assert_eq!(a, answer);
}

#[test]
fn passthrough_releases_chunks_unchanged() {
    let mut filter = StreamFilter::passthrough();
    assert_eq!(filter.push("<think>x"), vec![(false, "<think>x".to_string())]);
    assert_eq!(filter.push(""), Vec::<(bool, String)>::new());
    assert!(!filter.in_reasoning());
    assert_eq!(filter.finish(), Vec::<(bool, String)>::new());
}

#[test]
fn empty_stream_releases_nothing() {
    let (events, _, _) = collect(&[]);
    assert!(events.is_empty());
}
