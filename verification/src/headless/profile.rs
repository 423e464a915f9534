//! Where the time goes in a page.
use crate::json::{Json, JsonView};
use crate::output::{CommandOutput, OutputView};
use crate::text;
use crate::text::push_decimal;
use vstd::prelude::*;
use vstd::string::StringExecFns;

verus! {

/// What was measured, by the browser's answer.
pub fn profile_data(answer: &Json) -> (r: Json)
    ensures
        r@ == answer@.get_or_null("profile"@),
{
    answer.get_or_null("profile")
}

/// The name of the file for what was measured at a time.
pub fn file_name(millis: u128) -> (r: String)
    ensures
        r@ == "profile_"@ + text::decimal(millis as nat) + ".cpuprofile"@,
{
    let mut name = "profile_".to_owned();
    push_decimal(&mut name, millis);
    name.concat(".cpuprofile")
}

/// What is printed once the file is written.
pub fn saved(path: &str) -> (r: CommandOutput)
    ensures
        r@ == OutputView::Data(
            JsonView::object().with("path"@, JsonView::Str(path@)),
            "Profile saved: "@ + path@,
        ),
{
    CommandOutput::Data {
        json: Json::object().with("path", Json::string(path)),
        human: "Profile saved: ".to_owned().concat(path),
    }
}

/// What was measured is what the answer holds; its file is named after the time, and what is printed
/// names the file.
pub proof fn law_profiles(answer: Json, data: Json, millis: u128, name: String, path: &str, r: CommandOutput)
    requires
        call_ensures(profile_data, (&answer,), data),
        call_ensures(file_name, (millis,), name),
        call_ensures(saved, (path,), r),
    ensures
        match answer@.get("profile"@) {
            Some(p) => data@ == p,
            None => data@ == JsonView::Null,
        },
        name@ == "profile_"@ + text::decimal(millis as nat) + ".cpuprofile"@,
        r matches CommandOutput::Data { json, human } && json@.get("path"@) == Some(
            JsonView::Str(path@),
        ) && text::has_suffix(human@, path@),
{
    text::lemma_back("Profile saved: "@, path@);
}

} // verus!
