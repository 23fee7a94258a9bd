use tool_agent::stream::{
    decode_stream, emit_reply, parse_lines, parse_response, parse_response_line, read_delta, Reply,
    StreamDecoder,
};

fn decode(chunk: &str, is_reasoning: &mut bool) -> String {
    parse_lines(chunk.as_bytes(), is_reasoning)
}

fn feed(decoder: &mut StreamDecoder, chunk: &str) -> String {
    parse_response(Ok(chunk.as_bytes()), decoder).unwrap()
}

fn whole(chunks: &[&str]) -> Vec<Result<Vec<u8>, String>> {
    chunks.iter().map(|c| Ok(c.as_bytes().to_vec())).collect()
}

#[test]
fn reasoning_then_answer_then_empty_delta() {
    let chunk = concat_lines(&[
        r#"data: {"choices":[{"delta":{"reasoning_content":"ab"}}]}"#,
        r#"data: {"choices":[{"delta":{"content":"cd"}}]}"#,
        r#"data: {"choices":[{"delta":{}}]}"#,
    ]);
    let mut is_reasoning = false;
    assert_eq!(decode(&chunk, &mut is_reasoning), "<think>\nab</think>\ncd");
    assert!(!is_reasoning);
}

fn concat_lines(lines: &[&str]) -> String {
    let mut text = String::new();
    for line in lines {
        text.push_str(line);
        text.push('\n');
    }
    text
}

#[test]
fn line_with_reasoning_only() {
    let reply = parse_response_line(br#"data: {"choices":[{"delta":{"reasoning_content":"ab"}}]}"#);
    assert_eq!(reply.reasoning_content, "ab");
    assert_eq!(reply.content, "");
}

#[test]
fn line_with_both_fragments() {
    let reply = parse_response_line(
        br#"data: {"choices":[{"delta":{"reasoning_content":"why","content":"what"}}]}"#,
    );
    assert_eq!(reply.reasoning_content, "why");
    assert_eq!(reply.content, "what");
}

#[test]
fn line_without_prefix_is_read_too() {
    let reply = parse_response_line(br#"{"choices":[{"delta":{"content":"x"}}]}"#);
    assert_eq!(reply.content, "x");
}

#[test]
fn line_with_repeated_prefix_and_white_space() {
    let reply =
        parse_response_line(b"  \tdata: data: {\"choices\":[{\"delta\":{\"content\":\"x\"}}]} \r");
    assert_eq!(reply.content, "x");
}

#[test]
fn line_behind_other_white_space() {
    let line = "\u{a0}data: {\"choices\":[{\"delta\":{\"content\":\"x\"}}]}\u{2003}";
    assert_eq!(parse_response_line(line.as_bytes()).content, "x");
}

#[test]
fn malformed_lines_carry_nothing() {
    for line in [
        &b""[..],
        b"data: ",
        b"data: [DONE]",
        b"data: {\"choices\":",
        b"event: ping",
        b": comment",
        b"data: {\"choices\":[{\"delta\":{\"content\":\"x\"}}]} trailing",
    ] {
        let reply = parse_response_line(line);
        assert_eq!(reply.reasoning_content, "");
        assert_eq!(reply.content, "");
    }
}

#[test]
fn lines_of_another_shape_carry_nothing() {
    for line in [
        r#"data: {"choices":[]}"#,
        r#"data: {"choices":{"delta":{"content":"x"}}}"#,
        r#"data: {"choices":[{"message":{"content":"x"}}]}"#,
        r#"data: {"choices":[{"delta":{"content":7}}]}"#,
        r#"data: {"choices":[{"delta":{"content":null}}]}"#,
        r#"data: [{"delta":{"content":"x"}}]"#,
        r#"data: "text""#,
    ] {
        let reply = parse_response_line(line.as_bytes());
        assert_eq!(reply.reasoning_content, "");
        assert_eq!(reply.content, "");
    }
}

#[test]
fn only_the_first_choice_counts() {
    let reply = parse_response_line(
        br#"data: {"choices":[{"delta":{"content":"a"}},{"delta":{"content":"b"}}]}"#,
    );
    assert_eq!(reply.content, "a");
}

#[test]
fn line_that_is_not_utf8_carries_nothing() {
    let mut line = br#"data: {"choices":[{"delta":{"content":"x"#.to_vec();
    line.push(0xff);
    line.extend_from_slice(br#""}}]}"#);
    let reply = parse_response_line(&line);
    assert_eq!(reply.content, "");

    let mut chunk = line.clone();
    chunk.push(b'\n');
    chunk.extend_from_slice(br#"data: {"choices":[{"delta":{"content":"y"}}]}"#);
    let mut is_reasoning = false;
    assert_eq!(parse_lines(&chunk, &mut is_reasoning), "y");
}

#[test]
fn text_outside_ascii_is_kept() {
    let reply =
        parse_response_line("data: {\"choices\":[{\"delta\":{\"content\":\"gr\u{fc}n \u{1f600}\"}}]}".as_bytes());
    assert_eq!(reply.content, "gr\u{fc}n \u{1f600}");
}

#[test]
fn emit_opens_a_reasoning_span_once() {
    let mut is_reasoning = false;
    let first = Reply { reasoning_content: "a".to_string(), content: String::new() };
    assert_eq!(emit_reply(&first, &mut is_reasoning), "<think>\na");
    assert!(is_reasoning);
    let second = Reply { reasoning_content: "b".to_string(), content: String::new() };
    assert_eq!(emit_reply(&second, &mut is_reasoning), "b");
    assert!(is_reasoning);
}

#[test]
fn emit_closes_a_reasoning_span_before_the_answer() {
    let mut is_reasoning = true;
    let reply = Reply { reasoning_content: String::new(), content: "c".to_string() };
    assert_eq!(emit_reply(&reply, &mut is_reasoning), "</think>\nc");
    assert!(!is_reasoning);
    assert_eq!(emit_reply(&reply, &mut is_reasoning), "c");
    assert!(!is_reasoning);
}

#[test]
fn emit_of_both_fragments_opens_and_closes() {
    let mut is_reasoning = false;
    let reply = Reply { reasoning_content: "r".to_string(), content: "c".to_string() };
    assert_eq!(emit_reply(&reply, &mut is_reasoning), "<think>\nr</think>\nc");
    assert!(!is_reasoning);
    is_reasoning = true;
    assert_eq!(emit_reply(&reply, &mut is_reasoning), "r</think>\nc");
    assert!(!is_reasoning);
}

#[test]
fn emit_of_an_empty_reply_changes_nothing() {
    for start in [false, true] {
        let mut is_reasoning = start;
        assert_eq!(emit_reply(&Reply::default(), &mut is_reasoning), "");
        assert_eq!(is_reasoning, start);
    }
}

#[test]
fn state_is_carried_between_chunks() {
    let mut decoder = StreamDecoder::new();
    let first = feed(&mut decoder, "data: {\"choices\":[{\"delta\":{\"reasoning_content\":\"ab\"}}]}\n");
    assert_eq!(first, "<think>\nab");
    let second =
        feed(&mut decoder, "data: {\"choices\":[{\"delta\":{\"reasoning_content\":\"cd\"}}]}\n\n");
    assert_eq!(second, "cd");
    let third = feed(&mut decoder, "data: {\"choices\":[{\"delta\":{\"content\":\"ef\"}}]}");
    assert_eq!(third, "");
    assert_eq!(decoder.finish(), "</think>\nef");
    assert_eq!(decoder.finish(), "");
}

#[test]
fn lines_state_is_carried_by_the_flag() {
    let mut is_reasoning = false;
    let first =
        decode("data: {\"choices\":[{\"delta\":{\"reasoning_content\":\"ab\"}}]}\n", &mut is_reasoning);
    assert_eq!(first, "<think>\nab");
    assert!(is_reasoning);
    let second = decode("data: {\"choices\":[{\"delta\":{\"content\":\"ef\"}}]}", &mut is_reasoning);
    assert_eq!(second, "</think>\nef");
    assert!(!is_reasoning);
}

#[test]
fn chunk_that_failed_to_arrive_fails_the_response() {
    let mut decoder = StreamDecoder::new();
    assert_eq!(feed(&mut decoder, "data: {\"choices\":[{\"delta\":{\"con"), "");
    let err = parse_response(Err("connection reset".to_string()), &mut decoder).unwrap_err();
    assert_eq!(err.detail, "connection reset");
    assert_eq!(feed(&mut decoder, "tent\":\"hi\"}}]}\n"), "hi");
}

#[test]
fn response_that_breaks_off_is_an_error() {
    let chunks = vec![
        Ok(b"data: {\"choices\":[{\"delta\":{\"content\":\"a\"}}]}\n".to_vec()),
        Err("timed out".to_string()),
        Ok(b"data: {\"choices\":[{\"delta\":{\"content\":\"b\"}}]}\n".to_vec()),
        Err("later".to_string()),
    ];
    assert_eq!(decode_stream(&chunks).unwrap_err().detail, "timed out");
    assert_eq!(decode_stream(&vec![Err("refused".to_string())]).unwrap_err().detail, "refused");
}

#[test]
fn empty_chunk_and_blank_lines_add_nothing() {
    let mut is_reasoning = true;
    assert_eq!(decode("", &mut is_reasoning), "");
    assert_eq!(decode("\n\n\r\n", &mut is_reasoning), "");
    assert!(is_reasoning);
    let mut decoder = StreamDecoder::new();
    assert_eq!(feed(&mut decoder, ""), "");
    assert_eq!(feed(&mut decoder, "\n\n\r\n"), "");
    assert_eq!(decoder.finish(), "");
}

#[test]
fn windows_line_ends_are_read() {
    let mut is_reasoning = false;
    let text = decode(
        "data: {\"choices\":[{\"delta\":{\"content\":\"a\"}}]}\r\n\r\ndata: {\"choices\":[{\"delta\":{\"content\":\"b\"}}]}\r\n",
        &mut is_reasoning,
    );
    assert_eq!(text, "ab");
}

#[test]
fn a_line_cut_by_a_chunk_boundary_is_put_together() {
    let chunks = whole(&["data: {\"choices\":[{\"delta\":{\"con", "tent\":\"hi\"}}]}\n"]);
    assert_eq!(decode_stream(&chunks).unwrap(), "hi");

    let mut decoder = StreamDecoder::new();
    assert_eq!(feed(&mut decoder, "data: {\"choices\":[{\"delta\":{\"con"), "");
    assert_eq!(feed(&mut decoder, "tent\":\"hi\"}}]}\n"), "hi");
    assert_eq!(decoder.finish(), "");
}

#[test]
fn the_text_does_not_depend_on_the_cuts() {
    let body = "data: {\"choices\":[{\"delta\":{\"reasoning_content\":\"th\u{e4}nk \"}}]}\r\n\ndata: {\"choices\":[{\"delta\":{\"reasoning_content\":\"more\"}}]}\ndata: [DONE?]\ndata: {\"choices\":[{\"delta\":{\"content\":\"an\"}}]}\n\ndata: {\"choices\":[{\"delta\":{\"content\":\"swer \u{1f600}\"}}]}";
    let expected = "<think>\nth\u{e4}nk more</think>\nanswer \u{1f600}";
    let bytes = body.as_bytes();
    assert_eq!(decode_stream(&vec![Ok(bytes.to_vec())]).unwrap(), expected);
    for cut in 0..=bytes.len() {
        let chunks = vec![Ok(bytes[..cut].to_vec()), Ok(bytes[cut..].to_vec())];
        assert_eq!(decode_stream(&chunks).unwrap(), expected, "cut at {}", cut);
    }
    for size in [1usize, 2, 3, 7, 16] {
        let chunks: Vec<Result<Vec<u8>, String>> =
            bytes.chunks(size).map(|c| Ok(c.to_vec())).collect();
        assert_eq!(decode_stream(&chunks).unwrap(), expected, "chunks of {}", size);
        let mut decoder = StreamDecoder::new();
        let mut text = String::new();
        for chunk in bytes.chunks(size) {
            text.push_str(&parse_response(Ok(chunk), &mut decoder).unwrap());
        }
        text.push_str(&decoder.finish());
        assert_eq!(text, expected);
    }
}

#[test]
fn text_of_a_line_is_returned_as_soon_as_the_line_ends() {
    let mut decoder = StreamDecoder::new();
    assert_eq!(feed(&mut decoder, "data: {\"choices\":[{\"delta\":{\"content\":\"a\"}}]}"), "");
    assert_eq!(
        feed(&mut decoder, "\ndata: {\"choices\":[{\"delta\":{\"content\":\"b\"}}]}\ndata: {\"cho"),
        "ab"
    );
    assert_eq!(feed(&mut decoder, "ices\":[{\"delta\":{\"content\":\"c\"}}]}"), "");
    assert_eq!(decoder.finish(), "c");
}

#[test]
fn whole_response_is_decoded_in_arrival_order() {
    let chunks = whole(&[
        "data: {\"choices\":[{\"delta\":{\"reasoning_content\":\"think \"}}]}\n",
        "data: {\"choices\":[{\"delta\":{\"reasoning_content\":\"more\"}}]}\ndata: {\"choices\":[{\"delta\":{\"content\":\"an\"}}]}\n",
        "data: {\"choices\":[{\"delta\":{\"content\":\"swer\"}}]}\n\ndata: [DONE]\n",
    ]);
    assert_eq!(decode_stream(&chunks).unwrap(), "<think>\nthink more</think>\nanswer");
    assert_eq!(decode_stream(&Vec::new()).unwrap(), "");
}

#[test]
fn last_line_without_line_feed_is_decoded_at_the_end() {
    let chunks = whole(&["data: {\"choices\":[{\"delta\":{\"content\":\"a\"}}]}"]);
    assert_eq!(decode_stream(&chunks).unwrap(), "a");
}

#[test]
fn each_response_starts_outside_a_reasoning_span() {
    let chunks = whole(&["data: {\"choices\":[{\"delta\":{\"reasoning_content\":\"a\"}}]}\n"]);
    assert_eq!(decode_stream(&chunks).unwrap(), "<think>\na");
    assert_eq!(decode_stream(&chunks).unwrap(), "<think>\na");
}

#[test]
fn delta_fragments_are_read_from_the_first_choice() {
    let doc: serde_json::Value = serde_json::from_str(
        r#"{"id": "x", "choices": [
            {"index": 0, "delta": {"role": "assistant", "reasoning_content": "r", "content": "c"}},
            {"index": 1, "delta": {"content": "other"}}
        ]}"#,
    )
    .unwrap();
    let reply = read_delta(&doc);
    assert_eq!(reply.reasoning_content, "r");
    assert_eq!(reply.content, "c");
    let empty = read_delta(&serde_json::Value::Null);
    assert_eq!(empty.reasoning_content, "");
    assert_eq!(empty.content, "");
}
