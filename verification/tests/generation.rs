use frankenstein_creator::generator::GenerateError;
use frankenstein_creator::generator::Generator;
use frankenstein_creator::parser::Parser;

fn entity_row(name: &str, type_text: &str, description: &str) -> String {
    format!(
        "<tr><td>{}</td><td>{}</td><td>{}</td></tr>",
        name, type_text, description
    )
}

fn function_row(name: &str, type_text: &str, flag: &str, description: &str) -> String {
    format!(
        "<tr><td>{}</td><td>{}</td><td>{}</td><td>{}</td></tr>",
        name, type_text, flag, description
    )
}

fn page(body: &str) -> String {
    format!("<html><head></head><body>{}</body></html>", body)
}

fn mixed_page() -> String {
    page(&format!(
        "<h4>WebhookInfo</h4><p>Contains information about the current status of a webhook.</p>\
         <table class=\"table\"><tbody>{}{}</tbody></table>\
         <h4>forwardMessage</h4><p>Use this method to forward messages.</p>\
         <table class=\"table\"><tbody>{}{}</tbody></table>",
        entity_row("url", "String", "Webhook URL, may be empty."),
        entity_row("max_connections", "Integer", "Optional. Maximum allowed number of connections."),
        function_row("chat_id", "Integer or String", "Yes", "Unique identifier for the target chat"),
        function_row("disable_notification", "Boolean", "Optional", "Sends the message silently."),
    ))
}

#[test]
fn it_creates_structs() {
    let structure = Parser::new(mixed_page()).parse().unwrap();
    let mut generator = Generator::new(structure);

    let mut expect = String::new();
    expect.push_str("#[derive(Clone, Debug, PartialEq)]\n");
    expect.push_str("pub enum ChatIdEnum {\n");
    expect.push_str("    IsizeVariant(isize),\n");
    expect.push_str("    StringVariant(String),\n");
    expect.push_str("}\n");
    expect.push_str("\n");
    expect.push_str("#[derive(Clone, Debug, PartialEq)]\n");
    expect.push_str("pub struct WebhookInfo {\n");
    expect.push_str("    pub url: String,\n");
    expect.push_str("    pub max_connections: Option<isize>,\n");
    expect.push_str("}\n");
    expect.push_str("\n");
    expect.push_str("#[derive(Clone, Debug, PartialEq)]\n");
    expect.push_str("pub struct ForwardMessageParams {\n");
    expect.push_str("    pub chat_id: ChatIdEnum,\n");
    expect.push_str("    pub disable_notification: Option<bool>,\n");
    expect.push_str("}\n");
    expect.push_str("\n");
    expect.push_str("impl WebhookInfo {\n");
    expect.push_str("    pub fn new(url: String) -> Self {\n");
    expect.push_str("        Self { url, max_connections: None }\n");
    expect.push_str("    }\n");
    expect.push_str("\n");
    expect.push_str("    pub fn set_url(&mut self, url: String) {\n");
    expect.push_str("        self.url = url;\n");
    expect.push_str("    }\n");
    expect.push_str("\n");
    expect.push_str("    pub fn set_max_connections(&mut self, max_connections: Option<isize>) {\n");
    expect.push_str("        self.max_connections = max_connections;\n");
    expect.push_str("    }\n");
    expect.push_str("\n");
    expect.push_str("    pub fn url(&self) -> String {\n");
    expect.push_str("        self.url.clone()\n");
    expect.push_str("    }\n");
    expect.push_str("\n");
    expect.push_str("    pub fn max_connections(&self) -> Option<isize> {\n");
    expect.push_str("        self.max_connections.clone()\n");
    expect.push_str("    }\n");
    expect.push_str("}\n");
    expect.push_str("\n");
    expect.push_str("impl ForwardMessageParams {\n");
    expect.push_str("    pub fn new(chat_id: ChatIdEnum) -> Self {\n");
    expect.push_str("        Self { chat_id, disable_notification: None }\n");
    expect.push_str("    }\n");
    expect.push_str("\n");
    expect.push_str("    pub fn set_chat_id(&mut self, chat_id: ChatIdEnum) {\n");
    expect.push_str("        self.chat_id = chat_id;\n");
    expect.push_str("    }\n");
    expect.push_str("\n");
    expect.push_str("    pub fn set_disable_notification(&mut self, disable_notification: Option<bool>) {\n");
    expect.push_str("        self.disable_notification = disable_notification;\n");
    expect.push_str("    }\n");
    expect.push_str("\n");
    expect.push_str("    pub fn chat_id(&self) -> ChatIdEnum {\n");
    expect.push_str("        self.chat_id.clone()\n");
    expect.push_str("    }\n");
    expect.push_str("\n");
    expect.push_str("    pub fn disable_notification(&self) -> Option<bool> {\n");
    expect.push_str("        self.disable_notification.clone()\n");
    expect.push_str("    }\n");
    expect.push_str("}\n");
    expect.push_str("\n");

    generator.generate().unwrap();

    assert_eq!(expect, generator.to_string());
}

#[test]
fn generates_byte_identical_output_twice() {
    let first_structure = Parser::new(mixed_page()).parse().unwrap();
    let second_structure = Parser::new(mixed_page()).parse().unwrap();

    let mut first = Generator::new(first_structure);
    let mut second = Generator::new(second_structure);
    first.generate().unwrap();
    second.generate().unwrap();

    assert_eq!(first.to_string(), second.to_string());
}

#[test]
fn a_second_run_over_the_same_schema_adds_nothing() {
    let structure = Parser::new(mixed_page()).parse().unwrap();
    let mut generator = Generator::new(structure);

    generator.generate().unwrap();
    let once = generator.to_string();
    generator.generate().unwrap();

    assert_eq!(once, generator.to_string());
}

#[test]
fn deduplicates_identical_enum_declarations() {
    let html = page(&format!(
        "<h4>sendMessage</h4><p>Send a message.</p>\
         <table class=\"table\"><tbody>{}</tbody></table>\
         <h4>forwardMessage</h4><p>Forward a message.</p>\
         <table class=\"table\"><tbody>{}</tbody></table>",
        function_row("chat_id", "Integer or String", "Yes", "Target chat"),
        function_row("chat_id", "Integer or String", "Yes", "Target chat"),
    ));
    let structure = Parser::new(html).parse().unwrap();
    let mut generator = Generator::new(structure);

    generator.generate().unwrap();
    let output = generator.to_string();

    assert_eq!(1, output.matches("pub enum ChatIdEnum {").count());
}

#[test]
fn reports_a_name_collision_with_differing_content() {
    let html = page(&format!(
        "<h4>sendMessage</h4><p>Send a message.</p>\
         <table class=\"table\"><tbody>{}</tbody></table>\
         <h4>forwardMessage</h4><p>Forward a message.</p>\
         <table class=\"table\"><tbody>{}</tbody></table>",
        function_row("chat_id", "Integer or String", "Yes", "Target chat"),
        function_row("chat_id", "Integer, String or ChatRef", "Yes", "Target chat"),
    ));
    let structure = Parser::new(html).parse().unwrap();
    let mut generator = Generator::new(structure);

    let before = generator.to_string();
    let result = generator.generate();

    assert_eq!(Err(GenerateError::AmbiguousName), result);
    assert_eq!(before, generator.to_string());
}

#[test]
fn boxes_a_self_referential_field() {
    let html = page(&format!(
        "<h4>Chat</h4><p>This object represents a chat.</p>\
         <table class=\"table\"><tbody>{}{}</tbody></table>",
        entity_row("id", "Integer", "Unique identifier for this chat."),
        entity_row("pinned_chat", "Chat", "Optional. The chat pinned inside this one."),
    ));
    let structure = Parser::new(html).parse().unwrap();
    let mut generator = Generator::new(structure);

    generator.generate().unwrap();
    let output = generator.to_string();

    assert!(output.contains("    pub pinned_chat: Option<Box<Chat>>,\n"));
    assert!(output.contains("    pub fn set_pinned_chat(&mut self, pinned_chat: Option<Box<Chat>>) {\n"));
}

#[test]
fn renders_the_update_record_with_one_required_field() {
    let mut rows = String::new();
    rows.push_str(&entity_row(
        "update_id",
        "Integer",
        "The update's unique identifier.",
    ));
    let object_fields = [
        ("message", "Message"),
        ("edited_message", "Message"),
        ("channel_post", "Message"),
        ("edited_channel_post", "Message"),
        ("inline_query", "InlineQuery"),
        ("chosen_inline_result", "ChosenInlineResult"),
        ("callback_query", "CallbackQuery"),
        ("shipping_query", "ShippingQuery"),
        ("pre_checkout_query", "PreCheckoutQuery"),
        ("poll", "Poll"),
        ("poll_answer", "PollAnswer"),
        ("my_chat_member", "ChatMemberUpdated"),
        ("chat_member", "ChatMemberUpdated"),
    ];
    for (name, type_text) in object_fields {
        rows.push_str(&entity_row(
            name,
            type_text,
            &format!("Optional. New value of {}.", name),
        ));
    }
    let html = page(&format!(
        "<h4>Update</h4><p>This object represents an incoming update.</p>\
         <table class=\"table\"><tbody>{}</tbody></table>",
        rows
    ));
    let structure = Parser::new(html).parse().unwrap();
    let mut generator = Generator::new(structure);

    generator.generate_entity_data().unwrap();
    let output = generator.to_string();

    let mut expected_struct = String::from(
        "#[derive(Clone, Debug, PartialEq)]\npub struct Update {\n    pub update_id: isize,\n",
    );
    for (name, type_text) in object_fields {
        expected_struct.push_str(&format!("    pub {}: Option<{}>,\n", name, type_text));
    }
    expected_struct.push_str("}\n\n");

    assert!(output.contains(&expected_struct));
    assert_eq!(14, output.matches("    pub fn set_").count());
    assert!(output.contains("    pub fn new(update_id: isize) -> Self {\n"));
    assert!(output.contains("        Self { update_id, message: None, edited_message: None,"));
}

#[test]
fn generates_function_data_alone() {
    let structure = Parser::new(mixed_page()).parse().unwrap();
    let mut generator = Generator::new(structure);

    generator.generate_function_data().unwrap();
    let output = generator.to_string();

    assert!(output.contains("pub enum ChatIdEnum {"));
    assert!(output.contains("pub struct ForwardMessageParams {"));
    assert!(!output.contains("WebhookInfo"));
}
