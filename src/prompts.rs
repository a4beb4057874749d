use vstd::prelude::*;
use vstd::string::StringExecFns;

verus! {

/// Who speaks a message of a conversation with the model.
pub enum Role {
    System,
    User,
}

/// One message of a conversation with the model.
pub struct ChatMessage {
    pub role: Role,
    pub content: String,
}

/// The instruction that opens every question put to the model.
pub open spec fn assistant_instruction() -> Seq<char> {
    "You are a helpful assistant that specializes in Internet Computer development."@
}

/// The prompt for the main source code of a project.
pub open spec fn code_prompt_text(language: Seq<char>, name: Seq<char>, description: Seq<char>) -> Seq<
    char,
> {
    "Generate only the "@ + language + " code for a canister named '"@ + name + "' that "@
        + description + ". Include basic CRUD operations. Do not include any explanatory text."@
}

/// The prompt for the configuration of a project.
pub open spec fn config_prompt_text(name: Seq<char>) -> Seq<char> {
    "Generate only the dfx.json configuration for a canister named '"@ + name
        + "'. Do not include any explanatory text."@
}

/// The prompt for the documentation of a project.
pub open spec fn readme_prompt_text(name: Seq<char>, description: Seq<char>) -> Seq<char> {
    "Generate a README.md for a project named '"@ + name + "' that "@ + description
        + ". Include sections for installation, usage, and features."@
}

/// The conversation that puts `question` to the model: the assistant
/// instruction, then the question as the user's message.
pub fn question_messages(question: String) -> (r: Vec<ChatMessage>)
    ensures
        r@.len() == 2,
        r@[0].role == Role::System,
        r@[0].content@ == assistant_instruction(),
        r@[1].role == Role::User,
        r@[1].content@ == question@,
{
    let mut r: Vec<ChatMessage> = Vec::new();
    r.push(
        ChatMessage {
            role: Role::System,
            content: String::from_str(
                "You are a helpful assistant that specializes in Internet Computer development.",
            ),
        },
    );
    r.push(ChatMessage { role: Role::User, content: question });
    r
}

/// The prompt for the main source code of a project named `name` in `language`.
pub fn code_prompt(language: &str, name: &str, description: &str) -> (r: String)
    ensures
        r@ == code_prompt_text(language@, name@, description@),
{
    let mut r = String::from_str("Generate only the ");
    r.append(language);
    r.append(" code for a canister named '");
    r.append(name);
    r.append("' that ");
    r.append(description);
    r.append(". Include basic CRUD operations. Do not include any explanatory text.");
    r
}

/// The prompt for the configuration of a project named `name`.
pub fn config_prompt(name: &str) -> (r: String)
    ensures
        r@ == config_prompt_text(name@),
{
    let mut r = String::from_str("Generate only the dfx.json configuration for a canister named '");
    r.append(name);
    r.append("'. Do not include any explanatory text.");
    r
}

/// The prompt for the documentation of a project named `name`.
pub fn readme_prompt(name: &str, description: &str) -> (r: String)
    ensures
        r@ == readme_prompt_text(name@, description@),
{
    let mut r = String::from_str("Generate a README.md for a project named '");
    r.append(name);
    r.append("' that ");
    r.append(description);
    r.append(". Include sections for installation, usage, and features.");
    r
}

} // verus!
