use frankenstein_creator::parser::Param;
use frankenstein_creator::parser::Parser;
use frankenstein_creator::parser::StructuralError;

fn entity_row(name: &str, type_text: &str, description: &str) -> String {
    format!(
        "<tr><td>{}</td><td>{}</td><td>{}</td></tr>",
        name, type_text, description
    )
}

fn function_row(name: &str, type_text: &str, flag: &str, description: &str) -> String {
    format!(
        "<tr><td>{}</td><td>{}</td><td>{}</td><td>{}</td></tr>",
        name, type_text, flag, description
    )
}

fn page(body: &str) -> String {
    format!("<html><head></head><body>{}</body></html>", body)
}

fn update_table_html() -> String {
    let mut rows = String::new();
    rows.push_str(&entity_row(
        "update_id",
        "Integer",
        "The update's unique identifier.",
    ));
    for (name, type_text) in [
        ("message", "Message"),
        ("edited_message", "Message"),
        ("channel_post", "Message"),
        ("edited_channel_post", "Message"),
        ("inline_query", "InlineQuery"),
        ("chosen_inline_result", "ChosenInlineResult"),
        ("callback_query", "CallbackQuery"),
        ("shipping_query", "ShippingQuery"),
        ("pre_checkout_query", "PreCheckoutQuery"),
        ("poll", "Poll"),
        ("poll_answer", "PollAnswer"),
        ("my_chat_member", "ChatMemberUpdated"),
        ("chat_member", "ChatMemberUpdated"),
    ] {
        rows.push_str(&entity_row(
            name,
            type_text,
            &format!("Optional. New value of {}.", name),
        ));
    }
    page(&format!(
        "<h4>Update</h4><p>This object represents an incoming update.</p>\
         <p>At most one of the optional parameters can be present in any given update.</p>\
         <table class=\"table\"><tbody>{}</tbody></table>",
        rows
    ))
}

#[test]
fn parses_an_entity_table() {
    let result = Parser::new(update_table_html()).parse().unwrap();

    assert_eq!(0, result.functions.len());
    assert_eq!(1, result.entities.len());

    let entity = &result.entities[0];
    assert_eq!("Update".to_string(), entity.name);
    assert_eq!(
        "This object represents an incoming update.\
         At most one of the optional parameters can be present in any given update."
            .to_string(),
        entity.description
    );
    assert_eq!(14, entity.fields.len());
    assert_eq!(
        Param {
            name: "update_id".to_string(),
            param_type: "Integer".to_string(),
            description: "The update's unique identifier.".to_string(),
            required: true,
        },
        entity.fields[0]
    );
    assert_eq!(
        Param {
            name: "message".to_string(),
            param_type: "Message".to_string(),
            description: "Optional. New value of message.".to_string(),
            required: false,
        },
        entity.fields[1]
    );
    for field in &entity.fields[1..] {
        assert!(!field.required);
    }
}

#[test]
fn parses_a_function_table() {
    let rows = [
        function_row(
            "chat_id",
            "Integer or String",
            "Yes",
            "Unique identifier for the target chat",
        ),
        function_row(
            "media",
            "Array of InputMediaAudio, InputMediaDocument, InputMediaPhoto and InputMediaVideo",
            "Yes",
            "A JSON-serialized array describing messages to be sent, must include 2-10 items",
        ),
        function_row(
            "disable_notification",
            "Boolean",
            "Optional",
            "Sends messages silently. Users will receive a notification with no sound.",
        ),
        function_row(
            "reply_to_message_id",
            "Integer",
            "Optional",
            "If the messages are a reply, ID of the original message",
        ),
        function_row(
            "allow_sending_without_reply",
            "Boolean",
            "Optional",
            "Pass True, if the message should be sent even if the specified replied-to message is not found",
        ),
    ]
    .concat();
    let html = page(&format!(
        "<h4>sendMediaGroup</h4><p>Use this method to send a group of photos.</p>\
         <table class=\"table\"><tbody>{}</tbody></table>",
        rows
    ));

    let result = Parser::new(html).parse().unwrap();

    assert_eq!(1, result.functions.len());
    assert_eq!(0, result.entities.len());

    let function = &result.functions[0];
    assert_eq!("sendMediaGroup".to_string(), function.name);
    assert_eq!(
        "Use this method to send a group of photos.".to_string(),
        function.description
    );
    assert_eq!(5, function.params.len());
    assert_eq!(
        Param {
            name: "chat_id".to_string(),
            param_type: "Integer or String".to_string(),
            description: "Unique identifier for the target chat".to_string(),
            required: true,
        },
        function.params[0]
    );
    assert!(function.params[1].required);
    assert!(!function.params[2].required);
    assert!(!function.params[3].required);
    assert!(!function.params[4].required);
}

#[test]
fn classifies_mixed_tables_by_column_count() {
    let html = page(&format!(
        "<h4>Location</h4><p>A point on the map.</p>\
         <table class=\"table\"><tbody>{}{}</tbody></table>\
         <h4>getMe</h4><p>Returns the bot.</p>\
         <table class=\"table\"><tbody>{}</tbody></table>",
        entity_row("longitude", "Float", "Longitude as defined by sender"),
        entity_row("latitude", "Float", "Latitude as defined by sender"),
        function_row("timeout", "Integer", "Optional", "Timeout in seconds"),
    ));

    let result = Parser::new(html).parse().unwrap();

    assert_eq!(1, result.entities.len());
    assert_eq!(1, result.functions.len());
    assert_eq!("Location", result.entities[0].name);
    assert_eq!("getMe", result.functions[0].name);
}

#[test]
fn keeps_the_description_in_document_order() {
    let html = page(&format!(
        "<h4>Thing</h4><p>First sentence.</p><p>Second sentence.</p>\
         <table class=\"table\"><tbody>{}</tbody></table>",
        entity_row("id", "Integer", "The identifier."),
    ));

    let result = Parser::new(html).parse().unwrap();

    assert_eq!("First sentence.Second sentence.", result.entities[0].description);
}

#[test]
fn skips_text_under_script_and_style_elements() {
    let html = page(&format!(
        "<h4>Thing</h4><p>Visible<script>hidden()</script> prose.</p>\
         <table class=\"table\"><tbody>{}</tbody></table>",
        entity_row("id", "Integer", "The identifier."),
    ));

    let result = Parser::new(html).parse().unwrap();

    assert_eq!("Visible prose.", result.entities[0].description);
}

#[test]
fn matches_the_table_class_among_several() {
    let html = page(&format!(
        "<h4>Thing</h4><p>Prose.</p>\
         <table class=\"table table-striped\"><tbody>{}</tbody></table>",
        entity_row("id", "Integer", "The identifier."),
    ));

    let result = Parser::new(html).parse().unwrap();

    assert_eq!(1, result.entities.len());
}

#[test]
fn reports_a_table_without_a_heading() {
    let html = page(&format!(
        "<p>Prose without any heading before the table.</p>\
         <table class=\"table\"><tbody>{}</tbody></table>",
        entity_row("id", "Integer", "The identifier."),
    ));

    let result = Parser::new(html).parse();

    assert_eq!(Some(StructuralError::MissingHeading), result.err());
}

#[test]
fn reports_a_table_without_rows() {
    let html = page("<h4>Thing</h4><p>Prose.</p><table class=\"table\"><tbody></tbody></table>");

    let result = Parser::new(html).parse();

    assert_eq!(Some(StructuralError::EmptyTable), result.err());
}

#[test]
fn reports_rows_of_differing_column_counts() {
    let html = page(&format!(
        "<h4>Thing</h4><p>Prose.</p><table class=\"table\"><tbody>{}{}</tbody></table>",
        entity_row("id", "Integer", "The identifier."),
        function_row("name", "String", "Yes", "The name."),
    ));

    let result = Parser::new(html).parse();

    assert_eq!(Some(StructuralError::UnevenColumns), result.err());
}

#[test]
fn reports_an_unsupported_column_count() {
    let html = page(
        "<h4>Thing</h4><p>Prose.</p><table class=\"table\"><tbody>\
         <tr><td>a</td><td>b</td><td>c</td><td>d</td><td>e</td></tr>\
         </tbody></table>",
    );

    let result = Parser::new(html).parse();

    assert_eq!(Some(StructuralError::UnsupportedColumns), result.err());
}

#[test]
fn requires_the_flag_column_to_read_exactly_yes() {
    let html = page(&format!(
        "<h4>doThing</h4><p>Prose.</p><table class=\"table\"><tbody>{}{}{}</tbody></table>",
        function_row("a", "Integer", "Yes", "Taken."),
        function_row("b", "Integer", "yes", "Not the exact flag."),
        function_row("c", "Integer", "No", "Not required."),
    ));

    let result = Parser::new(html).parse().unwrap();
    let params = &result.functions[0].params;

    assert!(params[0].required);
    assert!(!params[1].required);
    assert!(!params[2].required);
}

#[test]
fn marks_fields_whose_description_begins_with_optional() {
    let html = page(&format!(
        "<h4>Thing</h4><p>Prose.</p><table class=\"table\"><tbody>{}{}{}</tbody></table>",
        entity_row("a", "Integer", "Optional. Absent unless set."),
        entity_row("b", "Integer", "Optionally provided, the marker is a prefix."),
        entity_row("c", "Integer", "Always present, Optional appears later."),
    ));

    let result = Parser::new(html).parse().unwrap();
    let fields = &result.entities[0].fields;

    assert!(!fields[0].required);
    assert!(!fields[1].required);
    assert!(fields[2].required);
}
