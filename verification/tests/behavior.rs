use chatconcise::agent::{next_action, AgentAction};
use chatconcise::client::{accept_response, build_request_body, begin_request, ApiError, CompletionResponse};
use chatconcise::codec::{decode_state, encode_state, CodecError};
use chatconcise::convo::{ConversationState, Message, Role};
use chatconcise::image::{classify_display_server, clipboard_command, lower_ascii, multipart_payload, DisplayServer};
use chatconcise::prompts::{directive_prompt, exec_result_message, rejection_message, spawn_failure_message};
use chatconcise::reply::{analyze_reply, extract_directive, ReplyKind};
use chatconcise::render::render_history;
use chatconcise::session::{convo_label, convo_preview, is_transcript_name, merge_into, transcript_name};

fn assistant(text: &str) -> Message {
    Message { role: Role::Assistant, content: String::from(text) }
}

fn state_with_last(text: &str) -> ConversationState {
    let mut st = ConversationState::initialize(String::from("gpt-x"));
    st.push_message(assistant(text));
    st
}

#[test]
fn priming_non_reasoning_model() {
    let st = ConversationState::initialize(String::from("gpt-x"));
    assert_eq!(st.messages.len(), 1);
    assert_eq!(st.messages[0].role, Role::System);
    assert!(st.messages[0].content.starts_with("You are ChatConcise"));
}

#[test]
fn priming_reasoning_model() {
    let st = ConversationState::initialize(String::from("o1-mini"));
    assert_eq!(st.messages.len(), 1);
    assert_eq!(st.messages[0].role, Role::User);
}

#[test]
fn single_shot_appends_user_then_assistant() {
    let mut st = ConversationState::initialize(String::from("gpt-x"));
    let before = st.messages.len();
    begin_request(&mut st, String::from("hi"), "tester");
    assert_eq!(st.messages.len(), before + 1);
    assert_eq!(st.messages[before].role, Role::User);
    assert_eq!(st.messages[before].content, "hi");
    let resp = CompletionResponse { choices: vec![assistant("hello")] };
    let got = accept_response(&mut st, &resp).unwrap();
    assert_eq!(st.messages.len(), before + 2);
    assert_eq!(st.messages[before + 1].role, Role::Assistant);
    assert_eq!(st.messages[before + 1].content, "hello");
    assert_eq!(got.content, "hello");
}

#[test]
fn fresh_session_scenario() {
    let st0 = ConversationState::initialize(String::from("gpt-x"));
    assert_eq!(st0.messages.len(), 1);
    assert_eq!(st0.messages[0].role, Role::System);
    let mut st = st0;
    begin_request(&mut st, String::from("hi"), "tester");
    let resp = CompletionResponse { choices: vec![assistant("hello")] };
    accept_response(&mut st, &resp).unwrap();
    assert_eq!(st.messages.len(), 3);
    assert_eq!(st.messages[2].role, Role::Assistant);
    assert_eq!(st.messages[2].content, "hello");
    let record = encode_state(&st);
    let loaded = decode_state(&record).unwrap();
    assert_eq!(loaded, st);
}

#[test]
fn save_then_load_returns_the_saved_state() {
    let mut st = ConversationState::initialize(String::from("gpt-x"));
    st.push_message(Message {
        role: Role::User,
        content: String::from("quotes \" backslash \\ newline \n tab \t unicode \u{2583} end"),
    });
    st.push_message(assistant("done \u{1}\u{1f} control"));
    let record = encode_state(&st);
    let loaded = decode_state(&record).unwrap();
    assert_eq!(loaded, st);
}

#[test]
fn encode_emits_canonical_json() {
    let mut st = ConversationState::initialize(String::from("m"));
    st.messages.clear();
    st.messages.push(Message { role: Role::System, content: String::from("a\"b\\c\nd") });
    let record = encode_state(&st);
    assert_eq!(
        record,
        "{\"model\":\"m\",\"messages\":[{\"role\":\"system\",\"content\":\"a\\\"b\\\\c\\u000ad\"}]}"
    );
}

#[test]
fn load_rejects_garbage() {
    assert_eq!(decode_state("not a record"), Err(CodecError::Corrupt));
    assert_eq!(decode_state(""), Err(CodecError::Corrupt));
    assert_eq!(decode_state("{\"model\":\"m\",\"messages\":["), Err(CodecError::Corrupt));
}

#[test]
fn load_rejects_unknown_role() {
    assert_eq!(
        decode_state("{\"model\":\"m\",\"messages\":[{\"role\":\"other\",\"content\":\"x\"}]}"),
        Err(CodecError::Corrupt)
    );
}

#[test]
fn load_rejects_empty_message_list() {
    assert_eq!(
        decode_state("{\"model\":\"m\",\"messages\":[]}"),
        Err(CodecError::Corrupt)
    );
}

#[test]
fn load_rejects_trailing_text() {
    let st = ConversationState::initialize(String::from("m"));
    let mut record = encode_state(&st);
    record.push(' ');
    assert_eq!(decode_state(&record), Err(CodecError::Corrupt));
}

#[test]
fn directive_extraction_strips_marker_and_whitespace() {
    let got = analyze_reply("preamble\nCOMMAND: ls -la\nexplanation");
    assert_eq!(got, ReplyKind::Directive(String::from("ls -la")));
}

#[test]
fn directive_uses_first_matching_line_only() {
    let got = extract_directive("COMMAND: first\nCOMMAND: second").unwrap();
    assert_eq!(got, "first");
}

#[test]
fn directive_strips_repeated_marker() {
    let got = extract_directive("COMMAND:COMMAND:  echo hi  ").unwrap();
    assert_eq!(got, "echo hi");
}

#[test]
fn reply_without_markers_has_no_directive() {
    assert_eq!(analyze_reply("just prose"), ReplyKind::NoDirective);
    assert_eq!(extract_directive("just prose"), None);
}

#[test]
fn completion_marker_takes_precedence_over_directive() {
    let st = state_with_last("DONE\nCOMMAND: rm -rf /tmp/x");
    let act = next_action(&st, "task");
    assert_eq!(act, AgentAction::Finish);
    assert_eq!(analyze_reply("DONE\nCOMMAND: x"), ReplyKind::Completed);
}

#[test]
fn loop_requests_directive_when_none_proposed() {
    let st = ConversationState::initialize(String::from("gpt-x"));
    let act = next_action(&st, "list files");
    let expected = "Original task: list files. Suggest the next command to run. Format your response as: COMMAND: <command> followed by an explanation. Or say DONE if the task is complete.";
    assert_eq!(act, AgentAction::RequestDirective(String::from(expected)));
    assert_eq!(directive_prompt("list files"), expected);
}

#[test]
fn loop_proposes_extracted_command() {
    let st = state_with_last("Here is what to do.\nCOMMAND: echo hi\nIt prints hi.");
    let act = next_action(&st, "task");
    assert_eq!(act, AgentAction::ProposeCommand(String::from("echo hi")));
}

#[test]
fn rejection_appends_exactly_one_user_turn() {
    let mut st = state_with_last("COMMAND: rm file");
    let before = st.messages.len();
    let feedback = rejection_message("too risky");
    assert_eq!(
        feedback,
        "Command was rejected by user.\nFEEDBACK: too risky\n\nPlease suggest an alternative."
    );
    begin_request(&mut st, feedback.clone(), "tester");
    assert_eq!(st.messages.len(), before + 1);
    assert_eq!(st.messages[before].role, Role::User);
    assert_eq!(st.messages[before].content, feedback);
}

#[test]
fn execution_feedback_carries_output_verbatim() {
    let msg = exec_result_message("hello\n", "");
    assert_eq!(msg, "Command output:\nstdout:\nhello\n\nstderr:\n");
    assert!(msg.contains("stdout:\nhello"));
}

#[test]
fn spawn_failure_is_narrated() {
    assert_eq!(spawn_failure_message("No such file"), "Command failed: No such file");
}

#[test]
fn empty_response_is_an_error_and_leaves_state_alone() {
    let mut st = ConversationState::initialize(String::from("gpt-x"));
    let before = st.clone();
    let resp = CompletionResponse { choices: vec![] };
    assert_eq!(accept_response(&mut st, &resp), Err(ApiError::EmptyResponse));
    assert_eq!(st, before);
}

#[test]
fn empty_candidate_content_is_malformed() {
    let mut st = ConversationState::initialize(String::from("gpt-x"));
    let resp = CompletionResponse { choices: vec![assistant("")] };
    assert_eq!(accept_response(&mut st, &resp), Err(ApiError::MalformedResponse));
    assert_eq!(st.messages.len(), 1);
}

#[test]
fn request_body_for_plain_model_has_sampling_parameters() {
    let mut st = ConversationState::initialize(String::from("gpt-x"));
    st.messages.clear();
    st.messages.push(Message { role: Role::System, content: String::from("a") });
    let body = build_request_body(&st, "bob");
    assert_eq!(
        body,
        "{\"max_tokens\":2048,\"messages\":[{\"role\":\"system\",\"content\":\"a\"}],\"model\":\"gpt-x\",\"temperature\":0.6,\"user\":\"bob\"}"
    );
}

#[test]
fn request_body_for_reasoning_model_omits_sampling_parameters() {
    let mut st = ConversationState::initialize(String::from("o1-mini"));
    st.messages.clear();
    st.messages.push(Message { role: Role::User, content: String::from("a") });
    let body = build_request_body(&st, "bob");
    assert_eq!(
        body,
        "{\"messages\":[{\"role\":\"user\",\"content\":\"a\"}],\"model\":\"o1-mini\",\"user\":\"bob\"}"
    );
    assert!(!body.contains("max_tokens"));
    assert!(!body.contains("temperature"));
}

#[test]
fn transcript_names_are_deterministic() {
    assert_eq!(transcript_name(12345), "gpt_transcript-12345");
    assert_eq!(transcript_name(0), "gpt_transcript-0");
    assert!(is_transcript_name("gpt_transcript-77"));
    assert!(!is_transcript_name("other-77"));
}

#[test]
fn manager_preview_takes_first_line_capped() {
    let mut st = ConversationState::initialize(String::from("gpt-x"));
    st.push_message(Message { role: Role::User, content: String::from("first line\nsecond line") });
    assert_eq!(convo_preview(&st), "first line");
    assert_eq!(convo_label("gpt_transcript-1", &st), "gpt_transcript-1 => first line");
    let long = "x".repeat(100);
    let mut st2 = ConversationState::initialize(String::from("gpt-x"));
    st2.push_message(Message { role: Role::User, content: long });
    assert_eq!(convo_preview(&st2).len(), 64);
}

#[test]
fn merge_refuses_model_mismatch() {
    let mut cur = ConversationState::initialize(String::from("gpt-x"));
    let other = ConversationState::initialize(String::from("o1-mini"));
    let before = cur.clone();
    assert!(!merge_into(&mut cur, &other));
    assert_eq!(cur, before);
}

#[test]
fn merge_copies_turns_after_priming() {
    let mut cur = ConversationState::initialize(String::from("gpt-x"));
    let mut other = ConversationState::initialize(String::from("gpt-x"));
    other.push_message(Message { role: Role::User, content: String::from("q") });
    other.push_message(assistant("a"));
    assert!(merge_into(&mut cur, &other));
    assert_eq!(cur.messages.len(), 3);
    assert_eq!(cur.messages[1].content, "q");
    assert_eq!(cur.messages[2].content, "a");
}

#[test]
fn history_rendering_frames_each_message() {
    let mut st = ConversationState::initialize(String::from("gpt-x"));
    st.messages.clear();
    st.messages.push(Message { role: Role::System, content: String::from("hello") });
    let view = render_history(&st, 3);
    assert_eq!(
        view,
        "\n\n\u{2583}\u{2583}\u{2583}\u{258d}system \u{2590}\n\u{2580}\u{2580}\u{2580}\nhello"
    );
}

#[test]
fn multipart_payload_encodes_the_image() {
    let payload = multipart_payload("hi", &b"hello".to_vec());
    assert!(payload.contains("data:image/png;base64,aGVsbG8="));
    assert!(payload.contains("\"text\":\"hi\""));
    assert!(payload.contains("\"detail\":\"high\""));
    assert!(payload.starts_with("[{"));
    assert!(payload.ends_with("}]"));
}

#[test]
fn display_server_classification() {
    assert_eq!(lower_ascii("XoRg RUNNING"), "xorg running");
    assert_eq!(classify_display_server("1234 tty7 Xorg"), DisplayServer::Xorg);
    assert_eq!(classify_display_server("999 wayland-session"), DisplayServer::Wayland);
    assert_eq!(classify_display_server("nothing here"), DisplayServer::Unsupported);
    assert_eq!(clipboard_command(DisplayServer::Xorg), "xclip -selection clipboard -t image/png -o");
    assert_eq!(clipboard_command(DisplayServer::Wayland), "wl-paste");
    assert_eq!(clipboard_command(DisplayServer::Unsupported), "UNSUPPORTED");
}
