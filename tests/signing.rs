use mq_monitor::ding::{sign, signed_url, text_payload};

#[test]
fn signature_is_base64_hmac_of_timestamp_and_secret() {
    let secret = "SEC123".to_string();
    assert_eq!(sign(&secret, 1700000000000), "lkcPI1uoxBY1gUnCnnPH1Kkru0Hqjo7rFpA3haIVhEQ=");
}

#[test]
fn signed_url_has_token_timestamp_and_signature() {
    let url = signed_url(
        &"https://oapi.dingtalk.com/robot/send".to_string(),
        &"tok".to_string(),
        &"SEC123".to_string(),
        1700000000000,
    );
    assert_eq!(
        url,
        "https://oapi.dingtalk.com/robot/send?access_token=tok&timestamp=1700000000000&sign=lkcPI1uoxBY1gUnCnnPH1Kkru0Hqjo7rFpA3haIVhEQ="
    );
}

#[test]
fn payload_escapes_content() {
    let body = text_payload(&"say \"hi\"\n测试内容".to_string());
    assert_eq!(
        body,
        "{\"at\":{\"isAtAll\":false},\"msgtype\":\"text\",\"text\":{\"content\":\"say \\\"hi\\\"\\n测试内容\"}}"
    );
}
