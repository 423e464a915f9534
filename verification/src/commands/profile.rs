//! `profile`: where the page spends its time.
use crate::error;
use crate::error::{ErrorView, WebPilotError};
use crate::json;
use crate::json::{Json, JsonView};
use crate::model;
use crate::output::{CommandOutput, OutputView};
use crate::protocol::Download;
use crate::text;
use vstd::prelude::*;
use vstd::string::StringExecFns;

verus! {

broadcast use json::group_json_views;

/// The arguments of `profile`: how many seconds, and where to go first.
#[derive(Debug, PartialEq, Eq)]
pub struct ProfileArgs {
    pub duration: u64,
    pub url: Option<String>,
}

/// The profile that `Profiler.stop` returned. Without one there is nothing to save.
pub open spec fn profile_of(result: JsonView) -> Result<JsonView, ErrorView> {
    match result.get("profile"@) {
        Some(p) => Ok(p),
        None => Err(ErrorView::Other("Profiler.stop returned no profile data"@)),
    }
}

/// The profile that `Profiler.stop` returned.
pub fn profile_data(result: &Json) -> (r: Result<Json, WebPilotError>)
    ensures
        error::outcome(r) == profile_of(result@),
{
    match result.get("profile") {
        Some(p) => Ok(p.copy()),
        None => Err(WebPilotError::other("Profiler.stop returned no profile data")),
    }
}

/// Lines put under a text.
pub open spec fn with_lines(human: Seq<char>, downloads: Seq<(Seq<char>, JsonView)>) -> Seq<char>
    decreases downloads.len(),
{
    if downloads.len() == 0 {
        human
    } else {
        with_lines(human, downloads.drop_last()).push('\n') + downloads.last().0
    }
}

/// What `profile` prints: where the profile was saved, and the files that going to the page left.
pub open spec fn profile_output(path: Seq<char>, downloads: Seq<(Seq<char>, JsonView)>) -> OutputView {
    let json = JsonView::object().with("path"@, JsonView::Str(path));
    OutputView::Data(
        if downloads.len() == 0 {
            json
        } else {
            json.with(
                "downloads"@,
                JsonView::Array(Seq::new(downloads.len(), |i: int| downloads[i].1)),
            )
        },
        with_lines("Profile saved: "@ + path, downloads),
    )
}

/// What `profile` prints.
pub fn run(path: &str, downloads: &Vec<Download>) -> (r: CommandOutput)
    ensures
        r@ == profile_output(path@, model::each(downloads@)),
{
    let ghost all = model::each(downloads@);
    let mut json = Json::object().with("path", Json::string(path));
    let mut human = "Profile saved: ".to_owned().concat(path);
    let ghost start = human@;
    if downloads.len() > 0 {
        let mut wires: Vec<Json> = Vec::new();
        assert(all.take(0) =~= Seq::empty());
        for i in 0..downloads.len()
            invariant
                all == model::each(downloads@),
                wires@.len() == i,
                forall|j: int| 0 <= j < i ==> (#[trigger] wires@[j])@ == downloads@[j].wire@,
                human@ == with_lines(start, all.take(i as int)),
        {
            assert(all.take(i + 1).drop_last() =~= all.take(i as int));
            assert(all.take(i + 1).last() == downloads@[i as int]@);
            human.push('\n');
            human.append(downloads[i].line.as_str());
            wires.push(downloads[i].wire.copy());
        }
        proof {
            json::lemma_views_index(wires@);
            assert(json::views(wires@) =~= Seq::new(all.len(), |i: int| all[i].1));
            assert(all.take(downloads@.len() as int) =~= all);
        }
        json = json.with("downloads", Json::Array(wires));
    }
    CommandOutput::Data { json, human }
}

/// The profile that is saved is the one that the profiler handed over; without one there is an error.
pub proof fn law_profiles_are_taken(result: Json, r: Result<Json, WebPilotError>)
    requires
        call_ensures(profile_data, (&result,), r),
    ensures
        match result@.get("profile"@) {
            Some(p) => r matches Ok(taken) && taken@ == p,
            None => r is Err,
        },
{
}

/// What `profile` prints names the file of the profile, and each download in JSON and on a line.
pub proof fn law_profiles_are_told(path: &str, downloads: Vec<Download>, r: CommandOutput)
    requires
        call_ensures(run, (path, &downloads), r),
    ensures
        r matches CommandOutput::Data { json, human } && {
            &&& json@.get("path"@) == Some(JsonView::Str(path@))
            &&& downloads@.len() == 0 ==> json@.get("downloads"@) is None
            &&& downloads@.len() > 0 ==> (json@.get("downloads"@) matches Some(
                JsonView::Array(list),
            ) && list.len() == downloads@.len() && forall|i: int|
                0 <= i < downloads@.len() ==> #[trigger] list[i] == downloads@[i].wire@)
            &&& text::has_prefix(human@, "Profile saved: "@ + path@)
            &&& forall|i: int|
                0 <= i < downloads@.len() ==> text::holds(human@, (#[trigger] downloads@[i]).line@)
        },
{
    reveal_strlit("path");
    reveal_strlit("downloads");
    assert("path"@.len() == 4);
    assert("downloads"@.len() == 9);
    if let CommandOutput::Data { json, human } = r {
        let all = model::each(downloads@);
        let start = "Profile saved: "@ + path@;
        lemma_lines_are_put_under(start, all);
        assert forall|i: int| 0 <= i < downloads@.len() implies text::holds(
            human@,
            (#[trigger] downloads@[i]).line@,
        ) by {
            assert(all[i].0 == downloads@[i].line@);
        }
    }
}

proof fn lemma_lines_are_put_under(start: Seq<char>, downloads: Seq<(Seq<char>, JsonView)>)
    ensures
        text::has_prefix(with_lines(start, downloads), start),
        forall|i: int|
            0 <= i < downloads.len() ==> text::holds(
                with_lines(start, downloads),
                (#[trigger] downloads[i]).0,
            ),
    decreases downloads.len(),
{
    let all = with_lines(start, downloads);
    if downloads.len() == 0 {
        assert(start.take(start.len() as int) =~= start);
    } else {
        let front = downloads.drop_last();
        let before = with_lines(start, front);
        lemma_lines_are_put_under(start, front);
        assert(all =~= before.push('\n') + downloads.last().0 + Seq::<char>::empty());
        text::lemma_part(before.push('\n'), downloads.last().0, Seq::empty());
        assert(all.take(start.len() as int) =~= before.take(start.len() as int));
        assert forall|i: int| 0 <= i < downloads.len() implies text::holds(
            all,
            (#[trigger] downloads[i]).0,
        ) by {
            if i < front.len() {
                let part = front[i].0;
                assert(text::holds(before, part));
                let at = choose|at: int| text::stands_at(before, part, at);
                assert(all.subrange(at, at + part.len()) =~= before.subrange(
                    at,
                    at + part.len(),
                ));
                assert(text::stands_at(all, part, at));
            }
        }
    }
}

} // verus!
