use mpeix::vk::ReplyToVkUseCase;

#[test]
fn reply_request_carries_a_random_id() {
    let r = ReplyToVkUseCase.reply_request("token", "Привет", 2000000001, Some("{}"));
    assert_eq!(r.url, "https://api.vk.com/method/messages.send");
    assert_eq!(r.query.len(), 6);
    assert_eq!(r.query[2].key, "random_id");
    assert!(r.query[2].value.parse::<u32>().is_ok());
    assert_eq!(r.query[3].value, "Привет");
    assert_eq!(r.query[4].value, "2000000001");
    assert_eq!(r.query[5].value, "{}");
}
