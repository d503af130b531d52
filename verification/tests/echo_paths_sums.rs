use httparena_reinhardt::grpc::{collect_sum, collect_sum_item, echo_sum_item, collect_sum_reply, collect_sum_start, collect_sum_step, get_sum, stream_sum, StreamRequest, SumCalculator, SumRequest};
use httparena_reinhardt::static_files::{content_type, safe_static_path};
use httparena_reinhardt::websocket::{echo_message, Message};

#[test]
fn text_and_binary_messages_are_echoed() {
    let text = Message::text("hello".to_string());
    let binary = Message::binary(vec![0, 1, 2]);

    assert_eq!(echo_message(text.clone()), Some(text));
    assert_eq!(echo_message(binary.clone()), Some(binary));
    assert_eq!(echo_message(Message::Ping), None);
}

#[test]
fn static_paths_reject_traversal() {
    let root = "/data/static";
    assert!(safe_static_path(root, "app.js").is_some());
    assert!(safe_static_path(root, "../dataset.json").is_none());
    assert!(safe_static_path(root, "nested/../app.js").is_none());
}

#[test]
fn static_content_types_match_validator_assets() {
    assert_eq!(content_type("reset.css"), "text/css");
    assert_eq!(content_type("app.js"), "application/javascript");
}

#[test]
fn unary_sum_uses_both_operands() {
    let reply = get_sum(SumCalculator, SumRequest { a: 13, b: 42 });
    assert_eq!(reply.result, 55);
}

#[test]
fn stream_sum_returns_requested_number_of_identical_replies() {
    let plan = stream_sum(SumCalculator, StreamRequest { a: 13, b: 42, count: 3 });
    let replies: Vec<i32> = (0..plan.count).map(|_| plan.reply.result).collect();
    assert_eq!(replies.len(), 3);
    assert!(replies.into_iter().all(|result| result == 55));
}

#[test]
fn collect_sum_totals_the_stream() {
    assert_eq!(collect_sum(SumCalculator, &Vec::new()).result, 0);
    let requests = vec![SumRequest { a: 13, b: 42 }, SumRequest { a: -5, b: 1 }, SumRequest { a: 0, b: 9 }];
    assert_eq!(collect_sum(SumCalculator, &requests).result, 60);
    let mut total = collect_sum_start();
    for r in &requests {
        total = collect_sum_step(SumCalculator, total, SumRequest { a: r.a, b: r.b });
    }
    assert_eq!(collect_sum_reply(total).result, 60);
}

#[test]
fn stream_items_that_failed_end_or_pass_through() {
    let ok: Result<i32, &str> = collect_sum_item(SumCalculator, 5, Ok(SumRequest { a: 1, b: 2 }));
    assert_eq!(ok, Ok(8));
    let failed: Result<i32, &str> = collect_sum_item(SumCalculator, 5, Err("broken"));
    assert_eq!(failed, Err("broken"));
    let echoed: Result<i32, &str> = echo_sum_item(SumCalculator, Ok(SumRequest { a: 13, b: 42 })).map(|r| r.result);
    assert_eq!(echoed, Ok(55));
    assert!(echo_sum_item::<&str>(SumCalculator, Err("broken")).is_err());
}
