use rust_study::greeter::{greeting_reply, say_hello, trim, GreetError};

#[test]
fn greets_a_name() {
    assert_eq!(say_hello("Rust").unwrap(), "Hello, Rust!");
    assert_eq!(say_hello(" 张三 ").unwrap(), "Hello,  张三 !");
}

#[test]
fn refuses_a_blank_name() {
    assert_eq!(say_hello(""), Err(GreetError::InvalidArgument("name 不能为空")));
    assert_eq!(say_hello(" \t\n"), Err(GreetError::InvalidArgument("name 不能为空")));
    assert_eq!(say_hello("\u{3000}"), Err(GreetError::InvalidArgument("name 不能为空")));
    assert_eq!(say_hello("   "), Err(GreetError::InvalidArgument("name 不能为空")));
    assert_eq!(say_hello("\u{85}\u{a0}\u{2028}"), Err(GreetError::InvalidArgument("name 不能为空")));
    assert!(say_hello("\u{200b}").is_ok());
}

#[test]
fn reply_from_a_trimmed_name() {
    assert_eq!(greeting_reply("  x ", "x").unwrap(), "Hello,   x !");
    assert!(greeting_reply("  ", "").is_err());
}

#[test]
fn trims_like_str_trim() {
    for s in ["", "  a b  ", "\u{3000}x\u{85}", "\u{200b} y", "no-space", " \t\n"] {
        assert_eq!(trim(s), s.trim());
    }
}
