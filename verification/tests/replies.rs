use backend::replies::post_params_reply;

#[test]
fn post_reply_names_key_and_value() {
    assert_eq!(post_params_reply("Ice Creamapalooza", "999"), "POST returns key: Ice Creamapalooza, value: 999");
}

#[test]
fn post_reply_of_empty_fields() {
    assert_eq!(post_params_reply("", ""), "POST returns key: , value: ");
}

use backend::replies::extract_url_reply;

#[test]
fn extract_url_reply_of_small_number() {
    assert_eq!(extract_url_reply(7), "Hello, world name: 7! umya-spreadsheet compiled!");
}

#[test]
fn extract_url_reply_of_zero() {
    assert_eq!(extract_url_reply(0), "Hello, world name: 0! umya-spreadsheet compiled!");
}

#[test]
fn extract_url_reply_of_numbers_with_zeros() {
    assert_eq!(extract_url_reply(1000), "Hello, world name: 1000! umya-spreadsheet compiled!");
    assert_eq!(extract_url_reply(4294967295), "Hello, world name: 4294967295! umya-spreadsheet compiled!");
}
