//! The brief asked of the local language model, and what is shown of its
//! answer.

use vstd::prelude::*;
use vstd::string::StringExecFns;

verus! {

pub open spec fn prompt_head() -> Seq<char> {
    "You are an EVM security agent. Analyze this transaction pre-execution structural analysis:\n"@
}

pub open spec fn prompt_tail() -> Seq<char> {
    "\nBriefly assess risk and give a PASS or WARN recommendation."@
}

/// The prompt sent to the model: the analysis, as JSON, between a fixed
/// instruction and a request for a PASS or WARN recommendation.
pub fn agent_prompt(analysis_json: &str) -> (res: String)
    ensures
        res@ == prompt_head() + analysis_json@ + prompt_tail(),
{
    let mut prompt = String::from_str(
        "You are an EVM security agent. Analyze this transaction pre-execution structural analysis:\n",
    );
    prompt.append(analysis_json);
    prompt.append("\nBriefly assess risk and give a PASS or WARN recommendation.");
    prompt
}

/// The model the brief is asked of.
pub fn agent_model() -> (res: &'static str)
    ensures
        res@ == "smollm2:135m"@,
{
    "smollm2:135m"
}

/// The endpoint of the local model server.
pub fn agent_endpoint() -> (res: &'static str)
    ensures
        res@ == "http://localhost:11434/api/generate"@,
{
    "http://localhost:11434/api/generate"
}

/// What is shown of the model's answer: its `response` text when the server
/// answered with success (a fixed note if the answer has none), and a note
/// that the model is unavailable otherwise.
pub fn agent_advice(success: bool, response: Option<String>) -> (res: String)
    ensures
        success && response is Some ==> res@ == response->0@,
        success && response is None ==> res@ == "No response generated."@,
        !success ==> res@ == "Local LLM model smollm2:135m unavailable or Ollama offline."@,
{
    if success {
        match response {
            Some(text) => text,
            None => String::from_str("No response generated."),
        }
    } else {
        String::from_str("Local LLM model smollm2:135m unavailable or Ollama offline.")
    }
}

} // verus!
