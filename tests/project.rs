use llm_gateway::{
    code_prompt, config_prompt, get_project_examples, question_messages, readme_prompt, Role,
    SimpleProject,
};

#[test]
fn examples_are_fixed() {
    let expected = vec![
        "Counter: A simple counter canister with increment and get functions".to_string(),
        "Todo List: Basic todo list with add, remove, and list tasks".to_string(),
        "Profile: User profile storage with update and get methods".to_string(),
    ];
    assert_eq!(get_project_examples(), expected);
    assert_eq!(get_project_examples(), get_project_examples());
}

#[test]
fn question_is_preceded_by_instruction() {
    let m = question_messages("What is a canister?".to_string());
    assert_eq!(m.len(), 2);
    assert!(matches!(m[0].role, Role::System));
    assert_eq!(
        m[0].content,
        "You are a helpful assistant that specializes in Internet Computer development."
    );
    assert!(matches!(m[1].role, Role::User));
    assert_eq!(m[1].content, "What is a canister?");
}

#[test]
fn prompts_interpolate_their_arguments() {
    assert_eq!(
        code_prompt("Rust", "todo", "keeps a list of tasks"),
        "Generate only the Rust code for a canister named 'todo' that keeps a list of tasks. Include basic CRUD operations. Do not include any explanatory text."
    );
    assert_eq!(
        config_prompt("todo"),
        "Generate only the dfx.json configuration for a canister named 'todo'. Do not include any explanatory text."
    );
    assert_eq!(
        readme_prompt("todo", "keeps a list of tasks"),
        "Generate a README.md for a project named 'todo' that keeps a list of tasks. Include sections for installation, usage, and features."
    );
}

#[test]
fn project_sanitizes_code_and_config_only() {
    let p = SimpleProject::from_replies(
        "Here's the code:\n```rust\nfn main() {}\n```".to_string(),
        "```json\n{ \"canisters\": {} }\n```\n".to_string(),
        "# Todo\n\nA todo list.\n".to_string(),
    );
    assert_eq!(p.canister_code, "fn main() {}\n```");
    assert_eq!(p.dfx_json, "{ \"canisters\": {} }\n```");
    assert_eq!(p.readme, "# Todo\n\nA todo list.\n");
}
