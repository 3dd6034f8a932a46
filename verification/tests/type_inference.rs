use frankenstein_creator::parser::Param;
use frankenstein_creator::parser::ParsedType;
use frankenstein_creator::parser::RustType;

#[test]
fn it_converts_simple_param_type_to_rust() {
    let param = Param {
        name: "disable_notification".to_string(),
        param_type: "Boolean".to_string(),
        description: "Sends messages silently. Users will receive a notification with no sound."
            .to_string(),
        required: false,
    };

    let rust_type = param.as_rust_type();
    let expected_result = ParsedType {
        array: false,
        option: true,
        rust_type: RustType::Simple("bool".to_string()),
    };

    assert_eq!(rust_type, expected_result);
}

#[test]
fn it_converts_array_type_to_rust() {
    let param = Param {
        name: "media".to_string(),
        param_type:
            "Array of InputMediaAudio, InputMediaDocument, InputMediaPhoto and InputMediaVideo"
                .to_string(),
        description:
            "A JSON-serialized array describing messages to be sent, must include 2-10 items"
                .to_string(),
        required: true,
    };

    let rust_type = param.as_rust_type();
    let expected_result = ParsedType {
        array: true,
        option: false,
        rust_type: RustType::Enum(vec![
            "InputMediaAudio".to_string(),
            "InputMediaDocument".to_string(),
            "InputMediaPhoto".to_string(),
            "InputMediaVideo".to_string(),
        ]),
    };

    assert_eq!(rust_type, expected_result);
}

#[test]
fn it_maps_required_boolean_to_plain_bool() {
    let param = Param {
        name: "flag".to_string(),
        param_type: "Boolean".to_string(),
        description: "".to_string(),
        required: true,
    };

    let rust_type = param.as_rust_type();
    assert!(!rust_type.array);
    assert!(!rust_type.option);
    assert_eq!(rust_type.rust_type, RustType::Simple("bool".to_string()));
}

#[test]
fn it_maps_optional_integer_to_isize() {
    let param = Param {
        name: "reply_to_message_id".to_string(),
        param_type: "Integer".to_string(),
        description: "If the messages are a reply, ID of the original message".to_string(),
        required: false,
    };

    let rust_type = param.as_rust_type();
    assert_eq!(
        rust_type,
        ParsedType { array: false, option: true, rust_type: RustType::Simple("isize".to_string()) }
    );
}

#[test]
fn it_marks_array_of_string_as_array() {
    let param = Param {
        name: "allowed_updates".to_string(),
        param_type: "Array of String".to_string(),
        description: "".to_string(),
        required: false,
    };

    let rust_type = param.as_rust_type();
    assert_eq!(
        rust_type,
        ParsedType { array: true, option: true, rust_type: RustType::Simple("String".to_string()) }
    );
}

#[test]
fn it_splits_two_alternatives_on_or() {
    let param = Param {
        name: "chat_id".to_string(),
        param_type: "Integer or String".to_string(),
        description: "".to_string(),
        required: true,
    };

    let rust_type = param.as_rust_type();
    assert_eq!(
        rust_type,
        ParsedType {
            array: false,
            option: false,
            rust_type: RustType::Enum(vec!["Integer".to_string(), "String".to_string()]),
        }
    );
}

#[test]
fn it_derives_the_enum_name_in_camel_case() {
    let param = Param {
        name: "chat_id".to_string(),
        param_type: "Integer or String".to_string(),
        description: "".to_string(),
        required: true,
    };

    assert_eq!(param.enum_name(), "ChatIdEnum".to_string());
}
